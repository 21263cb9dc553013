use qlearn::game::{
    check_winner, empty_board, is_full, legal_moves, make_move, play_drawn_move, play_random_move,
    Board, BOARD_SIZE, CELLS, EMPTY,
};

fn board_from(rows: [&str; 3]) -> Board {
    rows.iter().map(|row| row.chars().collect()).collect()
}

fn count_marks(board: &Board, mark: char) -> usize {
    board.iter().map(|row| row.iter().filter(|&&c| c == mark).count()).sum()
}

#[test]
fn empty_board_is_three_by_three_and_blank() {
    let board = empty_board();
    assert_eq!(board.len(), BOARD_SIZE);
    for row in &board {
        assert_eq!(row.len(), BOARD_SIZE);
        for &c in row {
            assert_eq!(c, EMPTY);
        }
    }
    assert_eq!(board, board_from(["---", "---", "---"]));
}

#[test]
fn empty_board_has_no_winner_and_is_not_full() {
    let board = empty_board();
    assert_eq!(check_winner(&board), None);
    assert!(!is_full(&board));
}

#[test]
fn is_full_needs_every_cell_taken() {
    assert!(is_full(&board_from(["XOX", "OXO", "OXO"])));
    assert!(!is_full(&board_from(["XOX", "O-O", "OXO"])));
    assert!(!is_full(&board_from(["XOX", "OXO", "OX-"])));
}

#[test]
fn is_full_accepts_any_shape() {
    let none: Board = Vec::new();
    assert!(is_full(&none));
    let ragged: Board = vec![vec!['X'], vec![], vec!['O', 'X', 'O', 'X']];
    assert!(is_full(&ragged));
    let ragged_open: Board = vec![vec!['X'], vec![], vec!['O', 'X', '-', 'X']];
    assert!(!is_full(&ragged_open));
}

#[test]
fn check_winner_finds_each_row() {
    assert_eq!(check_winner(&board_from(["XXX", "-O-", "O--"])), Some('X'));
    assert_eq!(check_winner(&board_from(["-X-", "OOO", "X--"])), Some('O'));
    assert_eq!(check_winner(&board_from(["-O-", "O--", "XXX"])), Some('X'));
}

#[test]
fn check_winner_finds_each_column() {
    assert_eq!(check_winner(&board_from(["O-X", "O-X", "OX-"])), Some('O'));
    assert_eq!(check_winner(&board_from(["-XO", "-XO", "OX-"])), Some('X'));
    assert_eq!(check_winner(&board_from(["X-O", "-XO", "--O"])), Some('O'));
}

#[test]
fn check_winner_finds_both_diagonals() {
    assert_eq!(check_winner(&board_from(["X-O", "-XO", "--X"])), Some('X'));
    assert_eq!(check_winner(&board_from(["X-O", "-OX", "O--"])), Some('O'));
}

#[test]
fn check_winner_ignores_three_empty_cells_and_mixed_lines() {
    assert_eq!(check_winner(&board_from(["---", "XOX", "OXO"])), None);
    assert_eq!(check_winner(&board_from(["XOX", "XOO", "OXX"])), None);
}

#[test]
fn check_winner_examines_rows_and_columns_in_turn_before_diagonals() {
    // Row 0 comes before column 0.
    assert_eq!(check_winner(&board_from(["XXX", "O--", "O--"])), Some('X'));
    // Column 0 comes before row 1.
    assert_eq!(check_winner(&board_from(["O--", "OXX", "O--"])), Some('O'));
    let mut both = board_from(["O-X", "OXX", "O-X"]);
    // Column 0 (line 1) comes before column 2 (line 5).
    assert_eq!(check_winner(&both), Some('O'));
    both[0][0] = 'X';
    assert_eq!(check_winner(&both), Some('X'));
    // Row 2 comes before the main diagonal.
    assert_eq!(check_winner(&board_from(["X--", "-X-", "OOO"])), Some('O'));
}

#[test]
fn make_move_writes_the_mark() {
    let mut board = empty_board();
    assert_eq!(make_move(&mut board, 'X', 1, 2), Ok(()));
    assert_eq!(board, board_from(["---", "--X", "---"]));
    assert_eq!(make_move(&mut board, 'O', 0, 0), Ok(()));
    assert_eq!(board, board_from(["O--", "--X", "---"]));
}

#[test]
fn make_move_rejects_occupied_cell() {
    let mut board = empty_board();
    assert_eq!(make_move(&mut board, 'X', 1, 1), Ok(()));
    assert_eq!(make_move(&mut board, 'O', 1, 1), Err("Invalid move: cell already occupied"));
    assert_eq!(board, board_from(["---", "-X-", "---"]));
}

#[test]
fn make_move_rejects_positions_off_the_board() {
    let mut board = empty_board();
    assert_eq!(make_move(&mut board, 'X', 3, 0), Err("Invalid move: out of bounds"));
    assert_eq!(make_move(&mut board, 'X', 0, 3), Err("Invalid move: out of bounds"));
    assert_eq!(make_move(&mut board, 'X', usize::MAX, usize::MAX), Err("Invalid move: out of bounds"));
    assert_eq!(board, empty_board());
}

#[test]
fn legal_moves_lists_empty_cells_in_row_major_order() {
    assert_eq!(legal_moves(&empty_board()), vec![0, 1, 2, 3, 4, 5, 6, 7, 8]);
    assert_eq!(legal_moves(&board_from(["X-O", "-X-", "O--"])), vec![1, 3, 5, 7, 8]);
    assert_eq!(legal_moves(&board_from(["XOX", "OXO", "OXO"])), Vec::<usize>::new());
}

#[test]
fn play_drawn_move_takes_the_drawn_legal_action() {
    let start = board_from(["X-O", "-X-", "O--"]);
    // Legal actions are 1, 3, 5, 7, 8; a draw of 7 selects position 7 % 5 = 2.
    let mut board = start.clone();
    assert_eq!(play_drawn_move(&mut board, 'O', 7), Ok(()));
    assert_eq!(board, board_from(["X-O", "-XO", "O--"]));
    let mut board = start.clone();
    assert_eq!(play_drawn_move(&mut board, 'O', 0), Ok(()));
    assert_eq!(board, board_from(["XOO", "-X-", "O--"]));
    let mut board = start.clone();
    assert_eq!(play_drawn_move(&mut board, 'O', 4), Ok(()));
    assert_eq!(board, board_from(["X-O", "-X-", "O-O"]));
}

#[test]
fn play_drawn_move_refuses_a_full_board() {
    let mut board = board_from(["XOX", "OXO", "OXO"]);
    assert_eq!(play_drawn_move(&mut board, 'X', 5), Err("No valid moves available"));
    assert_eq!(board, board_from(["XOX", "OXO", "OXO"]));
}

#[test]
fn play_random_move_fills_one_empty_cell() {
    for _ in 0..200 {
        let start = board_from(["X-O", "-X-", "O--"]);
        let mut board = start.clone();
        assert_eq!(play_random_move(&mut board, 'O'), Ok(()));
        assert_eq!(count_marks(&board, EMPTY), 4);
        assert_eq!(count_marks(&board, 'O'), 3);
        for k in 0..CELLS {
            let (row, col) = (k / 3, k % 3);
            if start[row][col] != EMPTY {
                assert_eq!(board[row][col], start[row][col]);
            }
        }
    }
}

#[test]
fn play_random_move_takes_the_only_empty_cell() {
    let mut board = board_from(["XOX", "O-O", "OXO"]);
    assert_eq!(play_random_move(&mut board, 'X'), Ok(()));
    assert_eq!(board, board_from(["XOX", "OXO", "OXO"]));
}

#[test]
fn play_random_move_reaches_every_empty_cell() {
    let mut seen = [false; 9];
    for _ in 0..2000 {
        let mut board = empty_board();
        assert_eq!(play_random_move(&mut board, 'X'), Ok(()));
        for k in 0..CELLS {
            if board[k / 3][k % 3] == 'X' {
                seen[k] = true;
            }
        }
    }
    assert!(seen.iter().all(|&s| s));
}

#[test]
fn play_random_move_refuses_a_full_board() {
    let mut board = board_from(["XOX", "OXO", "OXO"]);
    assert_eq!(play_random_move(&mut board, 'X'), Err("No valid moves available"));
    assert_eq!(board, board_from(["XOX", "OXO", "OXO"]));
}
