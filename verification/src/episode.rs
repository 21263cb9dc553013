//! One episode of self-play as a state machine: an action is selected, the
//! move is applied, the outcome is observed, and the players take turns until
//! a step ends the episode. `Episode` makes one step at a time; `run_episode`
//! plays a whole episode with a policy and records it in a replay buffer.

use vstd::prelude::*;
use crate::game::{Board, Grid, grid, is_grid, empty_grid, place, full, winner, legal_actions,
    is_legal, empty_board, make_move, check_winner, is_full, lemma_grid_rows, lemma_place,
    lemma_move_uses_a_cell, lemma_full_iff_no_legal_action, lemma_empty_grid, BOARD_SIZE, CELLS,
    EMPTY};
use crate::replay::{ExperienceBuffer, Transition, TransitionView, push_all, lemma_push_one};
use crate::train::{board_to_input, encoded, INPUT_SIZE};

verus! {

/// The mark of the player who moves first in an episode.
pub const FIRST_PLAYER: char = 'X';

/// The mark of the player who moves second.
pub const SECOND_PLAYER: char = 'O';

/// Reward, in tenths, for attempting an illegal move.
pub const ILLEGAL_MOVE_REWARD_TENTHS: i32 = -1000;

/// Reward, in tenths, for the move that wins.
pub const WIN_REWARD_TENTHS: i32 = 100;

/// Reward, in tenths, for the move that fills the board with no winner.
pub const DRAW_REWARD_TENTHS: i32 = -5;

/// Reward, in tenths, for a move after which the game goes on.
pub const STEP_REWARD_TENTHS: i32 = -1;

/// What a step of an episode led to.
#[derive(Clone, Copy, Debug, PartialEq, Eq, Structural)]
pub enum Outcome {
    /// The action named no cell or an occupied one; the board is unchanged.
    IllegalMove,
    /// A line is won after the move.
    Win,
    /// The board is full after the move and no line is won.
    Draw,
    /// The game goes on.
    Ongoing,
}

impl Outcome {
    /// The reward of an outcome, in tenths.
    pub open spec fn spec_reward_tenths(self) -> i32 {
        match self {
            Outcome::IllegalMove => ILLEGAL_MOVE_REWARD_TENTHS,
            Outcome::Win => WIN_REWARD_TENTHS,
            Outcome::Draw => DRAW_REWARD_TENTHS,
            Outcome::Ongoing => STEP_REWARD_TENTHS,
        }
    }

    /// Every outcome but `Ongoing` ends the episode.
    pub open spec fn spec_is_terminal(self) -> bool {
        self != Outcome::Ongoing
    }

    /// The reward of an outcome, in tenths.
    #[verifier::when_used_as_spec(spec_reward_tenths)]
    pub fn reward_tenths(self) -> (r: i32)
        ensures
            r == self.spec_reward_tenths(),
    {
        match self {
            Outcome::IllegalMove => ILLEGAL_MOVE_REWARD_TENTHS,
            Outcome::Win => WIN_REWARD_TENTHS,
            Outcome::Draw => DRAW_REWARD_TENTHS,
            Outcome::Ongoing => STEP_REWARD_TENTHS,
        }
    }

    /// Whether the outcome ends the episode.
    #[verifier::when_used_as_spec(spec_is_terminal)]
    pub fn is_terminal(self) -> (r: bool)
        ensures
            r == self.spec_is_terminal(),
    {
        match self {
            Outcome::Ongoing => false,
            _ => true,
        }
    }
}

/// The grid after `player` attempts `action`: the mark is placed where the
/// action is legal, and nothing changes where it is not.
pub open spec fn grid_after(g: Grid, player: char, action: usize) -> Grid {
    if is_legal(g, action as int) {
        place(g, action as int / 3, action as int % 3, player)
    } else {
        g
    }
}

/// The outcome of `player` attempting `action` on `g`.
pub open spec fn outcome_of(g: Grid, player: char, action: usize) -> Outcome {
    if !is_legal(g, action as int) {
        Outcome::IllegalMove
    } else if winner(grid_after(g, player, action)) is Some {
        Outcome::Win
    } else if full(grid_after(g, player, action)) {
        Outcome::Draw
    } else {
        Outcome::Ongoing
    }
}

/// The transition that records `player` attempting `action` on `g`. Both
/// states are encoded from the point of view of the player who acted.
pub open spec fn transition_of(g: Grid, player: char, action: usize) -> TransitionView {
    TransitionView {
        state: encoded(g, player),
        action,
        reward_tenths: outcome_of(g, player, action).spec_reward_tenths(),
        next_state: encoded(grid_after(g, player, action), player),
        terminal: outcome_of(g, player, action).spec_is_terminal(),
    }
}

/// The player who makes step `i` of an episode: the first player makes step
/// 0, and the players alternate.
pub open spec fn mover(i: int) -> char {
    if i % 2 == 0 {
        FIRST_PLAYER
    } else {
        SECOND_PLAYER
    }
}

/// The grid before step `i` of the episode in which the actions selected are
/// `actions`, in that order, starting from the empty grid.
pub open spec fn position_at(actions: Seq<usize>, i: int) -> Grid
    decreases i,
{
    if i <= 0 {
        empty_grid()
    } else {
        grid_after(position_at(actions, i - 1), mover(i - 1), actions[i - 1])
    }
}

/// The transition that step `i` of that episode records.
pub open spec fn step_at(actions: Seq<usize>, i: int) -> TransitionView {
    transition_of(position_at(actions, i), mover(i), actions[i])
}

/// The transitions that the episode records, one per action.
pub open spec fn trace(actions: Seq<usize>) -> Seq<TransitionView> {
    Seq::new(actions.len(), |i: int| step_at(actions, i))
}

/// `actions` play one whole episode: there is at least one step, the last
/// step ends the episode and no earlier step does.
pub open spec fn plays_out(actions: Seq<usize>) -> bool {
    &&& actions.len() > 0
    &&& forall|i: int|
        0 <= i < actions.len() ==> ((#[trigger] step_at(actions, i)).terminal <==> i
            == actions.len() - 1)
}

/// The course of an episode up to step `i` depends on the actions before `i`
/// only: one more action at the end changes none of the earlier positions.
pub proof fn lemma_position_of_prefix(actions: Seq<usize>, next: usize, i: int)
    requires
        0 <= i <= actions.len(),
    ensures
        position_at(actions.push(next), i) == position_at(actions, i),
    decreases i,
{
    if i > 0 {
        lemma_position_of_prefix(actions, next, i - 1);
    }
}

/// One more action at the end adds one transition to the trace and changes
/// none of the earlier ones.
pub proof fn lemma_trace_push(actions: Seq<usize>, next: usize)
    ensures
        trace(actions.push(next)) == trace(actions).push(step_at(actions.push(next), actions.len() as int)),
        step_at(actions.push(next), actions.len() as int) == transition_of(
            position_at(actions, actions.len() as int),
            mover(actions.len() as int),
            next,
        ),
        forall|i: int| 0 <= i < actions.len() ==> step_at(actions.push(next), i) == step_at(actions, i),
{
    let longer = actions.push(next);
    assert forall|i: int| 0 <= i <= actions.len() implies position_at(longer, i) == position_at(
        actions,
        i,
    ) by {
        lemma_position_of_prefix(actions, next, i);
    }
    assert(trace(longer) =~= trace(actions).push(step_at(longer, actions.len() as int)));
}

/// While no step has ended the episode, each step has used up one cell: before
/// step `i` the grid is well formed and `CELLS - i` actions are legal, and
/// after a first step the grid is neither won nor full.
pub proof fn lemma_cells_left(actions: Seq<usize>, i: int)
    requires
        0 <= i <= actions.len(),
        forall|j: int| 0 <= j < i ==> !(#[trigger] step_at(actions, j)).terminal,
    ensures
        is_grid(position_at(actions, i)),
        legal_actions(position_at(actions, i)).len() == CELLS - i,
        i > 0 ==> !full(position_at(actions, i)) && winner(position_at(actions, i)) is None,
    decreases i,
{
    lemma_empty_grid();
    if i > 0 {
        lemma_cells_left(actions, i - 1);
        let before = position_at(actions, i - 1);
        let action = actions[i - 1];
        assert(!step_at(actions, i - 1).terminal);
        assert(outcome_of(before, mover(i - 1), action) == Outcome::Ongoing);
        lemma_place(before, action as int, mover(i - 1));
        lemma_move_uses_a_cell(before, action as int, mover(i - 1));
    }
}

/// No step of `actions` ends the episode.
pub open spec fn in_progress(actions: Seq<usize>) -> bool {
    forall|i: int| 0 <= i < actions.len() ==> !(#[trigger] step_at(actions, i)).terminal
}

/// What one more step does to an episode that is in progress: the step is
/// taken from the position that the earlier actions led to, by the player
/// whose turn it is, and it either ends the episode or leaves it in progress.
/// Fewer than nine steps have been made before it.
pub proof fn lemma_next_step(actions: Seq<usize>, next: usize)
    requires
        in_progress(actions),
    ensures
        actions.len() < CELLS,
        trace(actions.push(next)) == trace(actions).push(
            transition_of(position_at(actions, actions.len() as int), mover(actions.len() as int), next),
        ),
        position_at(actions.push(next), actions.len() as int + 1) == grid_after(
            position_at(actions, actions.len() as int),
            mover(actions.len() as int),
            next,
        ),
        transition_of(
            position_at(actions, actions.len() as int),
            mover(actions.len() as int),
            next,
        ).terminal ==> plays_out(actions.push(next)),
        !transition_of(
            position_at(actions, actions.len() as int),
            mover(actions.len() as int),
            next,
        ).terminal ==> in_progress(actions.push(next)),
{
    let n = actions.len() as int;
    let longer = actions.push(next);
    lemma_trace_push(actions, next);
    lemma_position_of_prefix(actions, next, n);
    lemma_cells_left(actions, n);
    lemma_full_iff_no_legal_action(position_at(actions, n));
    assert forall|i: int| 0 <= i < longer.len() && i != n implies !(#[trigger] step_at(
        longer,
        i,
    )).terminal by {
        assert(step_at(longer, i) == step_at(actions, i));
    }
}

/// An episode ends within nine steps: every step that does not end it fills
/// one of the nine cells, and the step that fills the last cell ends it.
pub proof fn lemma_episode_length(actions: Seq<usize>)
    requires
        plays_out(actions),
    ensures
        actions.len() <= CELLS,
{
    let last = actions.len() - 1;
    lemma_cells_left(actions, last);
    lemma_full_iff_no_legal_action(position_at(actions, last));
}

/// One episode of self-play: the board, whose turn it is, and whether the
/// episode has ended. The two players alternate until a step ends it.
pub struct Episode {
    board: Board,
    player: char,
    opponent: char,
    finished: bool,
}

impl Episode {
    /// The episode's invariant: its board is well formed, and neither
    /// player's mark is `EMPTY`.
    pub closed spec fn wf(&self) -> bool {
        &&& is_grid(grid(&self.board))
        &&& self.player != EMPTY
        &&& self.opponent != EMPTY
    }

    /// What the invariant says of the values that the episode shows.
    pub proof fn lemma_wf(&self)
        requires
            self.wf(),
        ensures
            is_grid(self.position()),
            self.to_move() != EMPTY,
            self.waiting() != EMPTY,
    {
    }

    /// The grid of the episode's board.
    pub closed spec fn position(&self) -> Grid {
        grid(&self.board)
    }

    /// The player whose turn it is.
    pub closed spec fn to_move(&self) -> char {
        self.player
    }

    /// The player who waits for the other's move.
    pub closed spec fn waiting(&self) -> char {
        self.opponent
    }

    /// Whether the episode has ended.
    pub closed spec fn finished(&self) -> bool {
        self.finished
    }

    /// A new episode: an empty board, with `FIRST_PLAYER` to move.
    pub fn new() -> (episode: Self)
        ensures
            episode.wf(),
            episode.position() == empty_grid(),
            episode.to_move() == FIRST_PLAYER,
            episode.waiting() == SECOND_PLAYER,
            !episode.finished(),
    {
        Episode {
            board: empty_board(),
            player: FIRST_PLAYER,
            opponent: SECOND_PLAYER,
            finished: false,
        }
    }

    /// The episode's board.
    pub fn board(&self) -> (board: &Board)
        ensures
            grid(board) == self.position(),
    {
        &self.board
    }

    /// The player whose turn it is.
    pub fn player(&self) -> (player: char)
        ensures
            player == self.to_move(),
    {
        self.player
    }

    /// Whether the episode has ended.
    pub fn is_finished(&self) -> (finished: bool)
        ensures
            finished == self.finished(),
    {
        self.finished
    }

    /// The board encoded for the network, as the player to move sees it.
    pub fn state(&self) -> (input: Vec<u8>)
        requires
            self.wf(),
        ensures
            input@ == encoded(self.position(), self.to_move()),
    {
        board_to_input(&self.board, self.player)
    }

    /// Applies the action that the player to move selected, observes the
    /// outcome and returns the transition to record. A step that does not end
    /// the episode hands the turn to the other player. Once the episode has
    /// ended nothing changes and nothing is returned.
    pub fn step(&mut self, action: usize) -> (recorded: Option<Transition>)
        requires
            old(self).wf(),
        ensures
            final(self).wf(),
            old(self).finished() ==> recorded is None && *final(self) == *old(self),
            !old(self).finished() ==> {
                &&& recorded matches Some(t)
                &&& t@ == transition_of(old(self).position(), old(self).to_move(), action)
                &&& final(self).position() == grid_after(
                    old(self).position(),
                    old(self).to_move(),
                    action,
                )
                &&& final(self).finished() == t.terminal
                &&& final(self).to_move() == if t.terminal {
                    old(self).to_move()
                } else {
                    old(self).waiting()
                }
                &&& final(self).waiting() == if t.terminal {
                    old(self).waiting()
                } else {
                    old(self).to_move()
                }
            },
    {
        if self.finished {
            return None;
        }
        let state: Vec<u8> = board_to_input(&self.board, self.player);
        let row: usize = action / BOARD_SIZE;
        let col: usize = action % BOARD_SIZE;
        proof {
            lemma_grid_rows(&self.board);
        }
        let moved = make_move(&mut self.board, self.player, row, col);
        let next_state: Vec<u8> = board_to_input(&self.board, self.player);
        let outcome: Outcome = if moved.is_err() {
            Outcome::IllegalMove
        } else if check_winner(&self.board).is_some() {
            Outcome::Win
        } else if is_full(&self.board) {
            Outcome::Draw
        } else {
            Outcome::Ongoing
        };
        let terminal: bool = outcome.is_terminal();
        self.finished = terminal;
        if !terminal {
            let acted: char = self.player;
            self.player = self.opponent;
            self.opponent = acted;
        }
        Some(
            Transition {
                state,
                action,
                reward_tenths: outcome.reward_tenths(),
                next_state,
                terminal,
            },
        )
    }
}

/// `select` may answer `action` when it is shown grid `g` encoded for
/// `player`, together with a board that holds `g`.
pub open spec fn selects<F: Fn(&Vec<u8>, &Board) -> usize>(
    select: F,
    g: Grid,
    player: char,
    action: usize,
) -> bool {
    exists|state: Vec<u8>, board: Board|
        {
            &&& state@ == encoded(g, player)
            &&& grid(&board) == g
            &&& #[trigger] call_ensures(select, (&state, &board), action)
        }
}

/// Every action of `actions` is one that `select` may answer in the position
/// and for the player of its step.
pub open spec fn chosen_by<F: Fn(&Vec<u8>, &Board) -> usize>(select: F, actions: Seq<usize>) -> bool {
    forall|i: int|
        0 <= i < actions.len() ==> selects(
            select,
            position_at(actions, i),
            mover(i),
            #[trigger] actions[i],
        )
}

/// One more action that `select` may answer at its step keeps `chosen_by`.
proof fn lemma_chosen_push<F: Fn(&Vec<u8>, &Board) -> usize>(
    select: F,
    actions: Seq<usize>,
    next: usize,
)
    requires
        chosen_by(select, actions),
        selects(select, position_at(actions, actions.len() as int), mover(actions.len() as int), next),
    ensures
        chosen_by(select, actions.push(next)),
{
    let longer = actions.push(next);
    assert forall|i: int| 0 <= i < longer.len() implies selects(
        select,
        position_at(longer, i),
        mover(i),
        #[trigger] longer[i],
    ) by {
        lemma_position_of_prefix(actions, next, i);
        if i < actions.len() {
            assert(selects(select, position_at(actions, i), mover(i), actions[i]));
        }
    }
}

/// Plays one episode of self-play and records it. Before each step `select`
/// is shown the encoded state and the board and answers with an action; the
/// step's transition is pushed into the buffer. The episode starts on an
/// empty board and ends with its first terminal step, after nine steps at
/// most.
pub fn run_episode<F: Fn(&Vec<u8>, &Board) -> usize>(select: F, buffer: &mut ExperienceBuffer)
    requires
        old(buffer).wf(),
        forall|state: &Vec<u8>, board: &Board|
            state@.len() == INPUT_SIZE && is_grid(grid(board)) ==> #[trigger] call_requires(
                select,
                (state, board),
            ),
    ensures
        final(buffer).wf(),
        final(buffer).limit() == old(buffer).limit(),
        exists|actions: Seq<usize>|
            {
                &&& plays_out(actions)
                &&& actions.len() <= CELLS
                &&& chosen_by(select, actions)
                &&& final(buffer)@ == push_all(
                    old(buffer)@,
                    #[trigger] trace(actions),
                    old(buffer).limit() as nat,
                )
            },
{
    let mut episode = Episode::new();
    let ghost mut actions: Seq<usize> = Seq::empty();
    proof {
        assert(trace(actions) =~= Seq::empty());
    }
    while !episode.is_finished()
        invariant
            episode.wf(),
            buffer.wf(),
            buffer.limit() == old(buffer).limit(),
            forall|state: &Vec<u8>, board: &Board|
                state@.len() == INPUT_SIZE && is_grid(grid(board)) ==> #[trigger] call_requires(
                    select,
                    (state, board),
                ),
            actions.len() <= CELLS,
            buffer@ == push_all(old(buffer)@, trace(actions), old(buffer).limit() as nat),
            chosen_by(select, actions),
            episode.finished() ==> plays_out(actions),
            !episode.finished() ==> {
                &&& in_progress(actions)
                &&& episode.position() == position_at(actions, actions.len() as int)
                &&& episode.to_move() == mover(actions.len() as int)
                &&& episode.waiting() == mover(actions.len() as int + 1)
            },
        decreases
            (if episode.finished() {
                0int
            } else {
                CELLS + 1 - actions.len()
            }),
    {
        proof {
            episode.lemma_wf();
        }
        let state: Vec<u8> = episode.state();
        let action: usize = select(&state, episode.board());
        let ghost shown = episode.position();
        let ghost acting = episode.to_move();
        assert(selects(select, shown, acting, action));
        let recorded: Option<Transition> = episode.step(action);
        let transition: Transition = recorded.unwrap();
        proof {
            lemma_next_step(actions, action);
            lemma_chosen_push(select, actions, action);
            lemma_push_one(old(buffer)@, trace(actions), transition@, old(buffer).limit() as nat);
            actions = actions.push(action);
        }
        buffer.push(transition);
    }
}

} // verus!
