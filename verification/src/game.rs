//! Rules of the grid game: the board, move legality and win detection.
//!
//! A board is modelled by its grid, a sequence of rows of marks. A cell is
//! addressed either by `(row, col)` or by its row-major index
//! `k = row * 3 + col`, which is also the number of the action that plays
//! there.

use vstd::prelude::*;
use crate::rng::random_usize;

verus! {

/// Side length of the square board.
pub const BOARD_SIZE: usize = 3;

/// Number of cells, and so the number of distinct actions.
pub const CELLS: usize = 9;

/// Number of lines that win the game when one player holds all three cells.
pub const LINES: usize = 8;

/// The mark of a cell that nobody has played yet.
pub const EMPTY: char = '-';

/// A board is a vector of rows, each a vector of cell marks.
pub type Board = Vec<Vec<char>>;

/// The mathematical model of a board: its rows, each a sequence of marks.
pub type Grid = Seq<Seq<char>>;

/// The grid that a board holds.
pub open spec fn grid(board: &Board) -> Grid {
    Seq::new(board@.len(), |i: int| board@[i]@)
}

/// The grid on which every cell is empty.
pub open spec fn empty_grid() -> Grid {
    Seq::new(BOARD_SIZE as nat, |i: int| Seq::new(BOARD_SIZE as nat, |j: int| EMPTY))
}

/// A grid is well formed when it has three rows of three cells.
pub open spec fn is_grid(g: Grid) -> bool {
    &&& g.len() == BOARD_SIZE
    &&& forall|i: int| 0 <= i < BOARD_SIZE ==> (#[trigger] g[i]).len() == BOARD_SIZE
}

/// The mark of the cell with row-major index `k`.
pub open spec fn mark(g: Grid, k: int) -> char {
    g[k / 3][k % 3]
}

/// No cell of the grid is empty, whatever the grid's shape.
pub open spec fn full(g: Grid) -> bool {
    forall|i: int, j: int| 0 <= i < g.len() && 0 <= j < g[i].len() ==> g[i][j] != EMPTY
}

/// The grid with `player` written at `(row, col)`.
pub open spec fn place(g: Grid, row: int, col: int, player: char) -> Grid {
    g.update(row, g[row].update(col, player))
}

/// The three cells of line `k`, in the order in which lines are examined:
/// row 0, column 0, row 1, column 1, row 2, column 2, the main diagonal, the
/// anti-diagonal.
pub open spec fn line(k: int) -> ((int, int), (int, int), (int, int)) {
    if k == 6 {
        ((0, 0), (1, 1), (2, 2))
    } else if k == 7 {
        ((0, 2), (1, 1), (2, 0))
    } else if k % 2 == 0 {
        ((k / 2, 0), (k / 2, 1), (k / 2, 2))
    } else {
        ((0, k / 2), (1, k / 2), (2, k / 2))
    }
}

/// The mark in the first cell of line `k`.
pub open spec fn line_mark(g: Grid, k: int) -> char {
    g[line(k).0.0][line(k).0.1]
}

/// Line `k` is won: its three cells hold the same mark, and it is not `EMPTY`.
pub open spec fn line_won(g: Grid, k: int) -> bool {
    let (a, b, c) = line(k);
    &&& g[a.0][a.1] != EMPTY
    &&& g[a.0][a.1] == g[b.0][b.1]
    &&& g[b.0][b.1] == g[c.0][c.1]
}

/// The least `k` at or after `from` such that line `k` is won, or `LINES` when
/// there is none.
pub open spec fn first_won_line(g: Grid, from: int) -> int
    decreases LINES - from,
{
    if from < 0 || from >= LINES {
        LINES as int
    } else if line_won(g, from) {
        from
    } else {
        first_won_line(g, from + 1)
    }
}

/// The winner on a grid: the mark on the first won line, if any line is won.
pub open spec fn winner(g: Grid) -> Option<char> {
    let k = first_won_line(g, 0);
    if k < LINES {
        Some(line_mark(g, k))
    } else {
        None
    }
}

/// The row-major indices below `n` of the empty cells, in increasing order.
pub open spec fn legal_upto(g: Grid, n: int) -> Seq<usize>
    decreases n,
{
    if n <= 0 {
        Seq::empty()
    } else if mark(g, n - 1) == EMPTY {
        legal_upto(g, n - 1).push((n - 1) as usize)
    } else {
        legal_upto(g, n - 1)
    }
}

/// The actions that are legal on a grid: the indices of its empty cells, in
/// increasing order.
pub open spec fn legal_actions(g: Grid) -> Seq<usize> {
    legal_upto(g, CELLS as int)
}

/// Action `k` is legal: it names a cell of the board, and the cell is empty.
pub open spec fn is_legal(g: Grid, k: int) -> bool {
    0 <= k < CELLS && mark(g, k) == EMPTY
}

/// Row `i` of a board's grid is the view of the board's row `i`.
pub proof fn lemma_grid_rows(board: &Board)
    ensures
        grid(board).len() == board@.len(),
        forall|i: int| 0 <= i < board@.len() ==> (#[trigger] board@[i])@ == grid(board)[i],
{
}

/// `first_won_line` finds `k` when no line from `from` up to `k` is won and
/// line `k` is won, or `k` is `LINES`.
pub proof fn lemma_first_won_line(g: Grid, from: int, k: int)
    requires
        0 <= from <= k <= LINES,
        forall|j: int| from <= j < k ==> !line_won(g, j),
        k < LINES ==> line_won(g, k),
    ensures
        first_won_line(g, from) == k,
    decreases k - from,
{
    if from < k {
        lemma_first_won_line(g, from + 1, k);
    }
}

/// What `legal_upto` holds: exactly the indices below `n` of empty cells, each
/// once and in increasing order.
pub proof fn lemma_legal_upto(g: Grid, n: int)
    requires
        0 <= n <= CELLS,
    ensures
        legal_upto(g, n).len() <= n,
        forall|p: int|
            0 <= p < legal_upto(g, n).len() ==> (#[trigger] legal_upto(g, n)[p]) < n && is_legal(
                g,
                legal_upto(g, n)[p] as int,
            ),
        forall|p: int, q: int|
            0 <= p < q < legal_upto(g, n).len() ==> legal_upto(g, n)[p] < legal_upto(g, n)[q],
        forall|k: int|
            0 <= k < n && is_legal(g, k) ==> exists|p: int|
                0 <= p < legal_upto(g, n).len() && #[trigger] legal_upto(g, n)[p] == k,
    decreases n,
{
    if n > 0 {
        lemma_legal_upto(g, n - 1);
        let prev = legal_upto(g, n - 1);
        let cur = legal_upto(g, n);
        assert forall|k: int| 0 <= k < n && is_legal(g, k) implies exists|p: int|
            0 <= p < cur.len() && #[trigger] cur[p] == k by {
            if k < n - 1 {
                let p = choose|p: int| 0 <= p < prev.len() && #[trigger] prev[p] == k;
                assert(cur[p] == k);
            } else {
                assert(cur[cur.len() - 1] == k);
            }
        }
    }
}

/// The legal actions are exactly the indices of the empty cells, each listed
/// once and in increasing order.
pub proof fn lemma_legal_actions(g: Grid)
    ensures
        legal_actions(g).len() <= CELLS,
        forall|p: int|
            0 <= p < legal_actions(g).len() ==> is_legal(g, (#[trigger] legal_actions(g)[p]) as int),
        forall|p: int, q: int|
            0 <= p < q < legal_actions(g).len() ==> legal_actions(g)[p] < legal_actions(g)[q],
        forall|k: int|
            is_legal(g, k) ==> exists|p: int|
                0 <= p < legal_actions(g).len() && #[trigger] legal_actions(g)[p] == k,
{
    lemma_legal_upto(g, CELLS as int);
}

/// A well-formed grid is full exactly when it has no legal action.
pub proof fn lemma_full_iff_no_legal_action(g: Grid)
    requires
        is_grid(g),
    ensures
        full(g) <==> legal_actions(g).len() == 0,
{
    lemma_legal_actions(g);
    if legal_actions(g).len() == 0 {
        assert forall|i: int, j: int| 0 <= i < g.len() && 0 <= j < g[i].len() implies g[i][j]
            != EMPTY by {
            let k = i * 3 + j;
            assert(k / 3 == i && k % 3 == j);
            if is_legal(g, k) {
                let p = choose|p: int|
                    0 <= p < legal_actions(g).len() && #[trigger] legal_actions(g)[p] == k;
            }
        }
    } else {
        let k = legal_actions(g)[0] as int;
        assert(is_legal(g, k));
        assert(0 <= k / 3 < g.len() && 0 <= k % 3 < g[k / 3].len());
    }
}

/// Placing a mark on a well-formed grid changes the one cell it names.
pub proof fn lemma_place(g: Grid, action: int, player: char)
    requires
        is_grid(g),
        0 <= action < CELLS,
    ensures
        is_grid(place(g, action / 3, action % 3, player)),
        forall|k: int|
            0 <= k < CELLS ==> #[trigger] mark(place(g, action / 3, action % 3, player), k) == if k
                == action {
                player
            } else {
                mark(g, k)
            },
{
    let after = place(g, action / 3, action % 3, player);
    assert forall|k: int| 0 <= k < CELLS implies #[trigger] mark(after, k) == if k == action {
        player
    } else {
        mark(g, k)
    } by {
        assert(0 <= k / 3 < 3 && 0 <= k % 3 < 3);
        assert(g[k / 3].len() == 3);
        if k / 3 == action / 3 && k % 3 == action % 3 {
            assert(k == action);
        }
    }
    assert forall|i: int| 0 <= i < BOARD_SIZE implies (#[trigger] after[i]).len() == BOARD_SIZE by {
        assert(g[i].len() == BOARD_SIZE);
    }
}

/// How the legal actions below `n` are counted once a mark that is not
/// `EMPTY` has been placed on a legal action: the action itself is no longer
/// among them, and the others are.
pub proof fn lemma_legal_upto_after_place(g: Grid, action: int, player: char, n: int)
    requires
        is_grid(g),
        is_legal(g, action),
        player != EMPTY,
        0 <= n <= CELLS,
    ensures
        legal_upto(place(g, action / 3, action % 3, player), n).len() + (if n > action {
            1int
        } else {
            0int
        }) == legal_upto(g, n).len(),
    decreases n,
{
    if n > 0 {
        lemma_legal_upto_after_place(g, action, player, n - 1);
        lemma_place(g, action, player);
    }
}

/// A legal move by a player uses up one legal action.
pub proof fn lemma_move_uses_a_cell(g: Grid, action: int, player: char)
    requires
        is_grid(g),
        is_legal(g, action),
        player != EMPTY,
    ensures
        legal_actions(place(g, action / 3, action % 3, player)).len() + 1 == legal_actions(g).len(),
{
    lemma_legal_upto_after_place(g, action, player, CELLS as int);
}

/// On the empty grid every action is legal.
pub proof fn lemma_empty_grid()
    ensures
        is_grid(empty_grid()),
        forall|k: int| 0 <= k < CELLS ==> is_legal(empty_grid(), k),
        legal_actions(empty_grid()).len() == CELLS,
        winner(empty_grid()) is None,
{
    assert forall|k: int| 0 <= k < CELLS implies is_legal(empty_grid(), k) by {
        assert(0 <= k / 3 < 3 && 0 <= k % 3 < 3);
    }
    reveal_with_fuel(legal_upto, 10);
    assert(legal_actions(empty_grid()).len() == CELLS);
    assert forall|j: int| 0 <= j < LINES implies !line_won(empty_grid(), j) by {
        assert(0 <= line(j).0.0 < 3 && 0 <= line(j).0.1 < 3);
    }
    lemma_first_won_line(empty_grid(), 0, LINES as int);
}

/// A fresh board on which every cell is empty.
pub fn empty_board() -> (board: Board)
    ensures
        grid(&board) == empty_grid(),
        is_grid(grid(&board)),
{
    let mut board: Board = Vec::new();
    let mut i: usize = 0;
    while i < BOARD_SIZE
        invariant
            i <= BOARD_SIZE,
            board@.len() == i,
            forall|r: int| 0 <= r < i ==> (#[trigger] board@[r])@.len() == BOARD_SIZE,
            forall|r: int, c: int| 0 <= r < i && 0 <= c < BOARD_SIZE ==> board@[r]@[c] == EMPTY,
        decreases BOARD_SIZE - i,
    {
        let mut row: Vec<char> = Vec::new();
        let mut j: usize = 0;
        while j < BOARD_SIZE
            invariant
                j <= BOARD_SIZE,
                row@.len() == j,
                forall|c: int| 0 <= c < j ==> row@[c] == EMPTY,
            decreases BOARD_SIZE - j,
        {
            row.push(EMPTY);
            j += 1;
        }
        board.push(row);
        i += 1;
    }
    assert(grid(&board) =~~= empty_grid());
    board
}

/// Whether no cell of the board is empty. Boards of any shape are accepted.
pub fn is_full(board: &Board) -> (r: bool)
    ensures
        r == full(grid(board)),
{
    let mut i: usize = 0;
    while i < board.len()
        invariant
            i <= board@.len(),
            forall|r: int, c: int| 0 <= r < i && 0 <= c < board@[r]@.len() ==> board@[r]@[c] != EMPTY,
        decreases board@.len() - i,
    {
        let mut j: usize = 0;
        while j < board[i].len()
            invariant
                i < board@.len(),
                j <= board@[i as int]@.len(),
                forall|c: int| 0 <= c < j ==> board@[i as int]@[c] != EMPTY,
            decreases board@[i as int]@.len() - j,
        {
            if board[i][j] == EMPTY {
                assert(grid(board)[i as int][j as int] == EMPTY);
                return false;
            }
            j += 1;
        }
        i += 1;
    }
    true
}

/// Whether one row, column or diagonal holds three equal marks that are not
/// `EMPTY`, and if so whose. Lines are examined in the order given by `line`.
pub fn check_winner(board: &Board) -> (won: Option<char>)
    requires
        is_grid(grid(board)),
    ensures
        won == winner(grid(board)),
        won matches Some(p) ==> p != EMPTY,
{
    let ghost g = grid(board);
    proof {
        lemma_grid_rows(board);
    }
    let mut i: usize = 0;
    while i < BOARD_SIZE
        invariant
            is_grid(g),
            g == grid(board),
            i <= BOARD_SIZE,
            forall|k: int| 0 <= k < 2 * i ==> !line_won(g, k),
        decreases BOARD_SIZE - i,
    {
        proof {
            lemma_grid_rows(board);
        }
        if board[i][0] != EMPTY && board[i][0] == board[i][1] && board[i][1] == board[i][2] {
            proof {
                lemma_first_won_line(g, 0, 2 * i);
            }
            return Some(board[i][0]);
        }
        if board[0][i] != EMPTY && board[0][i] == board[1][i] && board[1][i] == board[2][i] {
            proof {
                lemma_first_won_line(g, 0, 2 * i + 1);
            }
            return Some(board[0][i]);
        }
        i += 1;
    }
    if board[0][0] != EMPTY && board[0][0] == board[1][1] && board[1][1] == board[2][2] {
        proof {
            lemma_first_won_line(g, 0, 6);
        }
        return Some(board[0][0]);
    }
    if board[0][2] != EMPTY && board[0][2] == board[1][1] && board[1][1] == board[2][0] {
        proof {
            lemma_first_won_line(g, 0, 7);
        }
        return Some(board[0][2]);
    }
    proof {
        lemma_first_won_line(g, 0, 8);
    }
    None
}

/// The legal actions of a board, in increasing order.
pub fn legal_moves(board: &Board) -> (moves: Vec<usize>)
    requires
        is_grid(grid(board)),
    ensures
        moves@ == legal_actions(grid(board)),
{
    let mut moves: Vec<usize> = Vec::new();
    let mut k: usize = 0;
    while k < CELLS
        invariant
            is_grid(grid(board)),
            k <= CELLS,
            moves@ == legal_upto(grid(board), k as int),
        decreases CELLS - k,
    {
        proof {
            lemma_grid_rows(board);
        }
        if board[k / BOARD_SIZE][k % BOARD_SIZE] == EMPTY {
            moves.push(k);
        }
        k += 1;
    }
    moves
}

/// Writes `player` at `(row, col)` if that cell is on the board and empty.
/// A position off the board and an occupied cell are refused, each with its
/// own message, and leave the board as it was.
pub fn make_move(board: &mut Board, player: char, row: usize, col: usize) -> (r: Result<
    (),
    &'static str,
>)
    requires
        is_grid(grid(old(board))),
    ensures
        row >= BOARD_SIZE || col >= BOARD_SIZE ==> {
            &&& r matches Err(e)
            &&& e@ == "Invalid move: out of bounds"@
            &&& *final(board) == *old(board)
        },
        row < BOARD_SIZE && col < BOARD_SIZE && grid(old(board))[row as int][col as int] != EMPTY
            ==> {
            &&& r matches Err(e)
            &&& e@ == "Invalid move: cell already occupied"@
            &&& *final(board) == *old(board)
        },
        row < BOARD_SIZE && col < BOARD_SIZE && grid(old(board))[row as int][col as int] == EMPTY
            ==> {
            &&& r is Ok
            &&& grid(final(board)) == place(grid(old(board)), row as int, col as int, player)
        },
        is_grid(grid(final(board))),
{
    if row >= BOARD_SIZE || col >= BOARD_SIZE {
        return Err("Invalid move: out of bounds");
    }
    proof {
        lemma_grid_rows(board);
    }
    if board[row][col] != EMPTY {
        return Err("Invalid move: cell already occupied");
    }
    board[row][col] = player;
    assert(grid(board) =~~= place(grid(old(board)), row as int, col as int, player));
    Ok(())
}

/// Plays `player` on the empty cell that `draw` selects: the one at position
/// `draw % n` among the `n` legal actions. With no empty cell the move is
/// refused and the board stays as it was.
pub fn play_drawn_move(board: &mut Board, player: char, draw: usize) -> (r: Result<
    (),
    &'static str,
>)
    requires
        is_grid(grid(old(board))),
    ensures
        legal_actions(grid(old(board))).len() == 0 ==> {
            &&& r matches Err(e)
            &&& e@ == "No valid moves available"@
            &&& *final(board) == *old(board)
        },
        legal_actions(grid(old(board))).len() > 0 ==> {
            let legal = legal_actions(grid(old(board)));
            let action = legal[draw as int % legal.len() as int] as int;
            &&& r is Ok
            &&& grid(final(board)) == place(grid(old(board)), action / 3, action % 3, player)
        },
        is_grid(grid(final(board))),
{
    let available: Vec<usize> = legal_moves(board);
    if available.len() == 0 {
        return Err("No valid moves available");
    }
    let action: usize = available[draw % available.len()];
    proof {
        lemma_legal_actions(grid(board));
    }
    make_move(board, player, action / BOARD_SIZE, action % BOARD_SIZE)
}

/// Plays `player` on an empty cell chosen at random. With no empty cell the
/// move is refused and the board stays as it was; otherwise one legal action
/// is played.
pub fn play_random_move(board: &mut Board, player: char) -> (r: Result<(), &'static str>)
    requires
        is_grid(grid(old(board))),
    ensures
        legal_actions(grid(old(board))).len() == 0 ==> {
            &&& r matches Err(e)
            &&& e@ == "No valid moves available"@
            &&& *final(board) == *old(board)
        },
        legal_actions(grid(old(board))).len() > 0 ==> {
            &&& r is Ok
            &&& exists|k: int|
                #![trigger is_legal(grid(old(board)), k)]
                is_legal(grid(old(board)), k) && grid(final(board)) == place(
                    grid(old(board)),
                    k / 3,
                    k % 3,
                    player,
                )
        },
        is_grid(grid(final(board))),
{
    let draw: usize = random_usize();
    proof {
        lemma_legal_actions(grid(board));
        let legal = legal_actions(grid(board));
        if legal.len() > 0 {
            assert(is_legal(grid(board), legal[draw as int % legal.len() as int] as int));
        }
    }
    play_drawn_move(board, player, draw)
}

} // verus!
