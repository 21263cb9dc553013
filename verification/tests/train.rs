use qlearn::game::{empty_board, Board, CELLS};
use qlearn::train::{
    board_to_input, epsilon_greedy, explore_action, greedy_action, is_not_a_number, rank_of,
    BATCH_SIZE, BUFFER_CAPACITY, EPISODES, INPUT_SIZE,
};

fn board_of(rows: [&str; 3]) -> Board {
    rows.iter().map(|row| row.chars().collect()).collect()
}

#[test]
fn training_constants() {
    assert_eq!(INPUT_SIZE, 18);
    assert_eq!(BUFFER_CAPACITY, 10000);
    assert_eq!(BATCH_SIZE, 300);
    assert_eq!(EPISODES, 50000);
}

#[test]
fn board_to_input_of_empty_board_is_all_zero() {
    assert_eq!(board_to_input(&empty_board(), 'X'), vec![0u8; 18]);
    assert_eq!(board_to_input(&empty_board(), 'O'), vec![0u8; 18]);
}

#[test]
fn board_to_input_marks_player_then_opponent() {
    let board = board_of(["X-O", "-X-", "O--"]);
    assert_eq!(
        board_to_input(&board, 'X'),
        vec![1, 0, 0, 0, 1, 0, 0, 0, 0, 0, 0, 1, 0, 0, 0, 1, 0, 0]
    );
    assert_eq!(
        board_to_input(&board, 'O'),
        vec![0, 0, 1, 0, 0, 0, 1, 0, 0, 1, 0, 0, 0, 1, 0, 0, 0, 0]
    );
}

#[test]
fn board_to_input_counts_any_other_mark_as_the_opponent() {
    let board = board_of(["XZO", "---", "---"]);
    assert_eq!(
        board_to_input(&board, 'X'),
        vec![1, 0, 0, 0, 0, 0, 0, 0, 0, 0, 1, 1, 0, 0, 0, 0, 0, 0]
    );
}

#[test]
fn board_to_input_of_full_board_is_one_hot_per_cell() {
    let board = board_of(["XOX", "OXO", "OXO"]);
    let input = board_to_input(&board, 'X');
    assert_eq!(input.len(), INPUT_SIZE);
    for k in 0..CELLS {
        assert_eq!(input[k] + input[CELLS + k], 1);
    }
    assert_eq!(input, vec![1, 0, 1, 0, 1, 0, 0, 1, 0, 0, 1, 0, 1, 0, 1, 1, 0, 1]);
}

fn bits(q_values: &[f32]) -> Vec<u32> {
    q_values.iter().map(|q| q.to_bits()).collect()
}

fn samples() -> Vec<f32> {
    vec![
        f32::NEG_INFINITY,
        f32::MIN,
        -1.0e10,
        -100.0,
        -2.0,
        -1.0000001,
        -1.0,
        -0.5,
        -0.1,
        -f32::MIN_POSITIVE,
        -1.0e-45,
        -0.0,
        0.0,
        1.0e-45,
        f32::MIN_POSITIVE,
        0.1,
        0.5,
        1.0,
        1.0000001,
        2.0,
        10.0,
        1.0e10,
        f32::MAX,
        f32::INFINITY,
    ]
}

#[test]
fn rank_orders_bit_patterns_as_the_numbers_are_ordered() {
    let values = samples();
    for &a in &values {
        for &b in &values {
            let (ra, rb) = (rank_of(a.to_bits()), rank_of(b.to_bits()));
            assert_eq!(ra < rb, a < b);
            assert_eq!(ra == rb, a == b);
            assert_eq!(ra > rb, a > b);
        }
    }
}

#[test]
fn rank_of_known_bit_patterns() {
    assert_eq!(rank_of(0), 0);
    assert_eq!(rank_of(0x8000_0000), 0);
    assert_eq!(rank_of(1), 1);
    assert_eq!(rank_of(0x8000_0001), -1);
    assert_eq!(rank_of(1.0f32.to_bits()), 0x3F80_0000);
    assert_eq!(rank_of((-1.0f32).to_bits()), -0x3F80_0000);
    assert_eq!(rank_of(f32::INFINITY.to_bits()), 0x7F80_0000);
    assert_eq!(rank_of(f32::NEG_INFINITY.to_bits()), -0x7F80_0000);
    assert_eq!(rank_of(0x7FFF_FFFF), 0x7FFF_FFFF);
    assert_eq!(rank_of(0xFFFF_FFFF), -0x7FFF_FFFF);
}

#[test]
fn not_a_number_is_told_from_numbers() {
    for q in samples() {
        assert!(!is_not_a_number(q.to_bits()));
    }
    assert!(is_not_a_number(f32::NAN.to_bits()));
    assert!(is_not_a_number((-f32::NAN).to_bits()));
    assert!(is_not_a_number(0x7F80_0001));
    assert!(is_not_a_number(0xFF80_0001));
    assert!(is_not_a_number(0x7FFF_FFFF));
    assert!(!is_not_a_number(0x7F80_0000));
    assert!(!is_not_a_number(0xFF80_0000));
    for pattern in [0u32, 1, 0x7F7F_FFFF, 0x8000_0000, 0xFF7F_FFFF, 0x3F80_0000] {
        assert_eq!(is_not_a_number(pattern), f32::from_bits(pattern).is_nan());
    }
}

#[test]
fn greedy_action_on_an_empty_board_takes_the_greatest_q_value() {
    let board = empty_board();
    assert_eq!(greedy_action(&bits(&[0.9, 0.2, 0.7, 0.7, 0.1, 0.8, 0.8, 0.0, 0.3]), &board), 0);
    assert_eq!(greedy_action(&bits(&[0.0, 0.1, 0.2, 0.3, 0.4, 0.5, 0.6, 0.7, 0.8]), &board), 8);
    assert_eq!(
        greedy_action(&bits(&[-0.7, -0.9, -0.7, -0.8, -0.8, -0.8, -0.8, -0.8, -0.8]), &board),
        0
    );
    assert_eq!(
        greedy_action(&bits(&[-3.0, -0.25, 0.0, -1.0e-30, -5.0, -0.26, -7.0, -8.0, -9.0]), &board),
        2
    );
    assert_eq!(
        greedy_action(
            &bits(&[f32::NEG_INFINITY, f32::INFINITY, f32::MAX, 0.0, 0.0, 0.0, 0.0, 0.0, 0.0]),
            &board
        ),
        1
    );
}

#[test]
fn greedy_action_skips_occupied_cells() {
    let board = board_of(["X-O", "-X-", "O--"]);
    // Legal actions are 1, 3, 5, 7, 8.
    let q = bits(&[5.0, 0.2, 6.0, 0.7, 7.0, 0.7, 8.0, 0.0, 0.3]);
    assert_eq!(greedy_action(&q, &board), 3);
    assert_eq!(epsilon_greedy(false, &q, &board, true), 3);
    assert_eq!(epsilon_greedy(false, &q, &board, false), 3);
    let one_left = board_of(["XOX", "OXO", "OX-"]);
    assert_eq!(greedy_action(&q, &one_left), 8);
}

#[test]
fn greedy_action_breaks_ties_by_the_first_index() {
    let flat = bits(&[0.4; 9]);
    assert_eq!(greedy_action(&flat, &empty_board()), 0);
    let board = board_of(["XO-", "---", "---"]);
    assert_eq!(greedy_action(&flat, &board), 2);
    let later = bits(&[0.0, 0.0, 0.1, 0.5, 0.1, 0.5, 0.1, 0.5, 0.0]);
    assert_eq!(greedy_action(&later, &board), 3);
    assert_eq!(epsilon_greedy(false, &later, &board, false), 3);
}

#[test]
fn greedy_action_takes_the_two_zeros_as_equal() {
    let board = empty_board();
    let q = bits(&[-1.0, -0.0, 0.0, -0.0, -1.0, -1.0, -1.0, -1.0, -1.0]);
    assert_eq!(greedy_action(&q, &board), 1);
    let q = bits(&[-1.0, 0.0, -0.0, 0.0, -1.0, -1.0, -1.0, -1.0, -1.0]);
    assert_eq!(greedy_action(&q, &board), 1);
}

#[test]
fn greedy_action_needs_q_values_for_the_legal_actions_only() {
    let board = board_of(["XO-", "-OX", "XXO"]);
    // Legal actions are 2 and 3: four Q-values cover them.
    assert_eq!(greedy_action(&bits(&[100.0, 100.0, 1.0, 2.0]), &board), 3);
}

#[test]
fn greedy_action_with_one_legal_action_takes_it_whatever_its_q_value() {
    let board = board_of(["XOX", "OXO", "OX-"]);
    let q = bits(&[1.0, 1.0, 1.0, 1.0, 1.0, 1.0, 1.0, 1.0, f32::NAN]);
    assert_eq!(greedy_action(&q, &board), 8);
}

#[test]
fn exploring_among_all_actions_stays_below_nine() {
    let board = board_of(["XOX", "OXO", "OX-"]);
    let mut seen = [false; 9];
    for _ in 0..2000 {
        let action = explore_action(&board, false);
        assert!(action < CELLS);
        seen[action] = true;
        assert!(epsilon_greedy(true, &Vec::new(), &board, false) < CELLS);
    }
    assert!(seen.iter().all(|&s| s));
}

#[test]
fn exploring_among_legal_actions_picks_an_empty_cell() {
    let board = board_of(["X-O", "-X-", "O--"]);
    let mut seen = [false; 9];
    for _ in 0..2000 {
        let action = explore_action(&board, true);
        assert!([1usize, 3, 5, 7, 8].contains(&action));
        seen[action] = true;
        let again = epsilon_greedy(true, &Vec::new(), &board, true);
        assert!([1usize, 3, 5, 7, 8].contains(&again));
    }
    assert_eq!(seen, [false, true, false, true, false, true, false, true, true]);
}

#[test]
fn exploring_with_one_legal_action_picks_it() {
    let board = board_of(["XOX", "OXO", "OX-"]);
    for _ in 0..50 {
        assert_eq!(explore_action(&board, true), 8);
    }
}
