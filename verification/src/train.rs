//! The trainer's decisions on a single position: how a board is encoded for
//! the network and which action is selected, together with the sizes of a
//! training run.
//!
//! The network itself works on floating-point numbers and lives outside this
//! library. It meets the trainer through two plain values: the feature vector
//! that `board_to_input` produces, whose entries are 0 or 1, and the network's
//! Q-values, one per action, each handed over as the bit pattern of a
//! single-precision number.

use vstd::prelude::*;
use crate::game::{Board, Grid, grid, is_grid, mark, legal_actions, is_legal, legal_moves,
    lemma_grid_rows, lemma_legal_actions, BOARD_SIZE, CELLS, EMPTY};
use crate::rng::{choose_one, random_below};

verus! {

/// Length of a feature vector: one entry per cell for the player, then one
/// per cell for the opponent.
pub const INPUT_SIZE: usize = 18;

/// Entry `k` of the feature vector of a grid as seen by `player`. The first
/// nine entries mark the cells that hold `player`; the last nine mark the
/// cells that hold any other mark but `EMPTY`.
pub open spec fn feature(g: Grid, player: char, k: int) -> u8 {
    if k < CELLS {
        if mark(g, k) == player {
            1u8
        } else {
            0u8
        }
    } else {
        if mark(g, k - CELLS) != player && mark(g, k - CELLS) != EMPTY {
            1u8
        } else {
            0u8
        }
    }
}

/// The feature vector of a grid as seen by `player`.
pub open spec fn encoded(g: Grid, player: char) -> Seq<u8> {
    Seq::new(INPUT_SIZE as nat, |k: int| feature(g, player, k))
}

/// The encoding is one-hot per cell and per player: every entry is 0 or 1, an
/// empty cell sets neither of its two entries, and any other cell sets exactly
/// one of them, the first where the cell holds `player`.
pub proof fn lemma_encoding_one_hot(g: Grid, player: char, k: int)
    requires
        0 <= k < CELLS,
    ensures
        encoded(g, player).len() == INPUT_SIZE,
        encoded(g, player)[k] <= 1,
        encoded(g, player)[CELLS + k] <= 1,
        encoded(g, player)[k] + encoded(g, player)[CELLS + k] == if mark(g, k) == EMPTY && player
            != EMPTY {
            0int
        } else {
            1int
        },
        encoded(g, player)[k] == 1 <==> mark(g, k) == player,
{
}

/// Encodes a board for the network, from `player`'s point of view.
pub fn board_to_input(board: &Board, player: char) -> (input: Vec<u8>)
    requires
        is_grid(grid(board)),
    ensures
        input@ == encoded(grid(board), player),
{
    let mut input: Vec<u8> = Vec::new();
    let mut k: usize = 0;
    while k < INPUT_SIZE
        invariant
            k <= INPUT_SIZE,
            input@.len() == k,
            forall|i: int| 0 <= i < k ==> input@[i] == 0u8,
        decreases INPUT_SIZE - k,
    {
        input.push(0u8);
        k += 1;
    }
    let ghost g = grid(board);
    let mut idx: usize = 0;
    while idx < BOARD_SIZE
        invariant
            is_grid(g),
            g == grid(board),
            idx <= BOARD_SIZE,
            input@.len() == INPUT_SIZE,
            forall|i: int| 0 <= i < idx * 3 ==> input@[i] == feature(g, player, i),
            forall|i: int| CELLS <= i < CELLS + idx * 3 ==> input@[i] == feature(g, player, i),
        decreases BOARD_SIZE - idx,
    {
        let mut jdx: usize = 0;
        while jdx < BOARD_SIZE
            invariant
                is_grid(g),
                g == grid(board),
                idx < BOARD_SIZE,
                jdx <= BOARD_SIZE,
                input@.len() == INPUT_SIZE,
                forall|i: int| 0 <= i < idx * 3 + jdx ==> input@[i] == feature(g, player, i),
                forall|i: int|
                    CELLS <= i < CELLS + idx * 3 + jdx ==> input@[i] == feature(g, player, i),
            decreases BOARD_SIZE - jdx,
        {
            proof {
                lemma_grid_rows(board);
            }
            let c: char = board[idx][jdx];
            let player_index: usize = idx * BOARD_SIZE + jdx;
            let opponent_index: usize = CELLS + idx * BOARD_SIZE + jdx;
            assert(player_index / 3 == idx && player_index % 3 == jdx);
            input[player_index] = if c == player {
                1
            } else {
                0
            };
            input[opponent_index] = if c != player && c != EMPTY {
                1
            } else {
                0
            };
            jdx += 1;
        }
        idx += 1;
    }
    input
}

/// Whether a bit pattern of a single-precision number is not a number: its
/// exponent bits are all set and its fraction bits are not all clear.
pub open spec fn is_nan(bits: u32) -> bool {
    bits & 0x7FFF_FFFF > 0x7F80_0000
}

/// Where the number with the given bit pattern stands among the numbers: the
/// sign bit gives the side of zero, and on either side the remaining bits
/// grow with the number's magnitude. Of two numbers the lesser has the lesser
/// rank, and the two zeros share rank 0.
pub open spec fn rank(bits: u32) -> int {
    if bits & 0x8000_0000 != 0 {
        -((bits & 0x7FFF_FFFF) as int)
    } else {
        (bits & 0x7FFF_FFFF) as int
    }
}

/// `best` is the greedy action for the Q-values `q` on grid `g`: it is legal,
/// no legal action has a greater Q-value, and every legal action before it
/// has a lesser one, so that ties go to the first index.
pub open spec fn is_best_legal(q: Seq<u32>, g: Grid, best: usize) -> bool {
    &&& is_legal(g, best as int)
    &&& forall|k: int| is_legal(g, k) ==> rank(q[k]) <= rank(q[best as int])
    &&& forall|k: int| is_legal(g, k) && k < best ==> rank(q[k]) < rank(q[best as int])
}

/// The Q-values can be compared on grid `g`: every legal action has one, and
/// where two or more actions are legal none of theirs is not a number.
pub open spec fn comparable(q: Seq<u32>, g: Grid) -> bool {
    &&& forall|k: int| is_legal(g, k) ==> k < q.len()
    &&& legal_actions(g).len() >= 2 ==> forall|k: int| is_legal(g, k) ==> !is_nan(q[k])
}

/// At most one action is the greedy one.
pub proof fn lemma_best_legal_is_unique(q: Seq<u32>, g: Grid, a: usize, b: usize)
    requires
        is_best_legal(q, g, a),
        is_best_legal(q, g, b),
    ensures
        a == b,
{
}

/// Whether a bit pattern of a single-precision number is not a number.
pub fn is_not_a_number(bits: u32) -> (r: bool)
    ensures
        r == is_nan(bits),
{
    bits & 0x7FFF_FFFF > 0x7F80_0000
}

/// The rank of the number with the given bit pattern.
pub fn rank_of(bits: u32) -> (r: i64)
    ensures
        r == rank(bits),
{
    let magnitude: u32 = bits & 0x7FFF_FFFF;
    assert(magnitude <= 0x7FFF_FFFF) by (bit_vector)
        requires
            magnitude == bits & 0x7FFF_FFFF,
    ;
    if bits & 0x8000_0000 != 0 {
        -(magnitude as i64)
    } else {
        magnitude as i64
    }
}

/// The action that exploits the Q-values: the legal action with the greatest
/// Q-value, and the first of them where several share it.
pub fn greedy_action(q_values: &Vec<u32>, board: &Board) -> (action: usize)
    requires
        is_grid(grid(board)),
        legal_actions(grid(board)).len() > 0,
        comparable(q_values@, grid(board)),
    ensures
        is_best_legal(q_values@, grid(board), action),
{
    let ghost g = grid(board);
    let mut best: Option<usize> = None;
    let mut k: usize = 0;
    while k < CELLS
        invariant
            is_grid(g),
            g == grid(board),
            k <= CELLS,
            forall|j: int| is_legal(g, j) ==> j < q_values@.len(),
            best is None ==> forall|j: int| 0 <= j < k ==> !is_legal(g, j),
            best matches Some(b) ==> {
                &&& b < k
                &&& is_legal(g, b as int)
                &&& forall|j: int|
                    0 <= j < k && is_legal(g, j) ==> rank(q_values@[j]) <= rank(q_values@[b as int])
                &&& forall|j: int|
                    0 <= j < b && is_legal(g, j) ==> rank(q_values@[j]) < rank(q_values@[b as int])
            },
        decreases CELLS - k,
    {
        proof {
            lemma_grid_rows(board);
        }
        if board[k / BOARD_SIZE][k % BOARD_SIZE] == EMPTY {
            assert(is_legal(g, k as int));
            match best {
                None => {
                    best = Some(k);
                },
                Some(b) => {
                    if rank_of(q_values[k]) > rank_of(q_values[b]) {
                        best = Some(k);
                    }
                },
            }
        }
        k += 1;
    }
    proof {
        lemma_legal_actions(g);
        assert(is_legal(g, legal_actions(g)[0] as int));
    }
    best.unwrap()
}

/// An action picked at random to explore: one of the legal actions where
/// `legal_only` is set, any of the nine actions where it is not.
pub fn explore_action(board: &Board, legal_only: bool) -> (action: usize)
    requires
        is_grid(grid(board)),
        legal_only ==> legal_actions(grid(board)).len() > 0,
    ensures
        legal_only ==> is_legal(grid(board), action as int),
        !legal_only ==> action < CELLS,
{
    if legal_only {
        let legal: Vec<usize> = legal_moves(board);
        proof {
            lemma_legal_actions(grid(board));
        }
        choose_one(&legal).unwrap()
    } else {
        random_below(CELLS)
    }
}

/// Epsilon-greedy selection, once the caller has drawn whether this step
/// explores. An exploring step picks at random, among the legal actions or
/// among all nine as `legal_only` says, and ignores the Q-values. Any other
/// step takes the greedy action, which is always a legal one.
pub fn epsilon_greedy(explore: bool, q_values: &Vec<u32>, board: &Board, legal_only: bool) -> (action:
    usize)
    requires
        is_grid(grid(board)),
        legal_only || !explore ==> legal_actions(grid(board)).len() > 0,
        !explore ==> comparable(q_values@, grid(board)),
    ensures
        explore && legal_only ==> is_legal(grid(board), action as int),
        explore && !legal_only ==> action < CELLS,
        !explore ==> is_best_legal(q_values@, grid(board), action),
{
    if explore {
        explore_action(board, legal_only)
    } else {
        greedy_action(q_values, board)
    }
}

/// Most transitions that the replay buffer of a training run holds.
pub const BUFFER_CAPACITY: usize = 10000;

/// Number of transitions in one training batch.
pub const BATCH_SIZE: usize = 300;

/// Number of episodes in one training run.
pub const EPISODES: usize = 50000;

} // verus!
