use peg_core::apply_move;
use peg_core::count_pegs;
use peg_core::evaluate_batch;
use peg_core::evaluate_position;
use peg_core::generate_moves;
use peg_core::has_peg;
use peg_core::is_dead;
use peg_core::pagoda_value;
use peg_core::SolverError;
use peg_core::VALID_MASK;

/// Standard 32-peg starting position: every playable cell occupied but the
/// centre (cell 24).
const FULL: u64 = 0x70e7_feff_ce1c;

#[test]
fn count_pegs_counts_set_bits() {
    assert_eq!(count_pegs(0), 0);
    assert_eq!(count_pegs(1 << 24), 1);
    assert_eq!(count_pegs(FULL), 32);
    assert_eq!(count_pegs(VALID_MASK), 33);
    assert_eq!(count_pegs(u64::MAX), 64);
}

#[test]
fn has_peg_reads_single_bits() {
    assert_eq!(has_peg(1 << 24, 24), Ok(true));
    assert_eq!(has_peg(1 << 24, 23), Ok(false));
    assert_eq!(has_peg(FULL, 24), Ok(false));
    assert_eq!(has_peg(FULL, 22), Ok(true));
    // Masked-out corner cells of a well-formed state simply read as unset.
    assert_eq!(has_peg(VALID_MASK, 0), Ok(false));
}

#[test]
fn has_peg_rejects_out_of_range_positions() {
    assert_eq!(has_peg(FULL, 64), Err(SolverError::InvalidArgument));
    assert_eq!(has_peg(0, 255), Err(SolverError::InvalidArgument));
}

#[test]
fn apply_move_flips_exactly_three_bits() {
    let after = apply_move(FULL, 22, 23, 24).unwrap();
    assert_eq!(after, 0x70e7_ff3f_ce1c);
    assert_eq!(count_pegs(after), 31);
    assert_eq!(has_peg(after, 22), Ok(false));
    assert_eq!(has_peg(after, 23), Ok(false));
    assert_eq!(has_peg(after, 24), Ok(true));
}

#[test]
fn apply_move_is_its_own_inverse() {
    let once = apply_move(FULL, 10, 17, 24).unwrap();
    let twice = apply_move(once, 10, 17, 24).unwrap();
    assert_eq!(twice, FULL);
    let once = apply_move(0, 5, 40, 63).unwrap();
    let twice = apply_move(once, 5, 40, 63).unwrap();
    assert_eq!(twice, 0);
}

#[test]
fn apply_move_rejects_out_of_range_indices() {
    assert_eq!(apply_move(FULL, 64, 23, 24), Err(SolverError::InvalidArgument));
    assert_eq!(apply_move(FULL, 22, 64, 24), Err(SolverError::InvalidArgument));
    assert_eq!(apply_move(FULL, 22, 23, 200), Err(SolverError::InvalidArgument));
}

#[test]
fn generate_moves_standard_opening() {
    let moves = generate_moves(FULL);
    assert_eq!(moves, vec![(10, 17, 24), (22, 23, 24), (26, 25, 24), (38, 31, 24)]);
    assert!(moves.contains(&(22, 23, 24)));
    assert!(moves.contains(&(10, 17, 24)));
    for &(f, j, t) in &moves {
        assert!((VALID_MASK >> f) & 1 == 1);
        assert!((VALID_MASK >> j) & 1 == 1);
        assert!((VALID_MASK >> t) & 1 == 1);
    }
}

#[test]
fn generate_moves_emits_no_duplicates_in_order() {
    let state = FULL ^ (1 << 22) ^ (1 << 23) ^ (1 << 24);
    let moves = generate_moves(state);
    for w in moves.windows(2) {
        let ra = 4 * (w[0].0 as u32) + dir_index(w[0]);
        let rb = 4 * (w[1].0 as u32) + dir_index(w[1]);
        assert!(ra < rb);
    }
}

fn dir_index(m: (u8, u8, u8)) -> u32 {
    let (f, j, _) = m;
    if j == f.wrapping_add(1) {
        0
    } else if j == f.wrapping_sub(1) {
        1
    } else if j == f.wrapping_add(7) {
        2
    } else {
        3
    }
}

#[test]
fn single_peg_states_are_never_dead() {
    for p in [2u8, 24, 46] {
        let state = 1u64 << p;
        assert_eq!(count_pegs(state), 1);
        assert!(generate_moves(state).is_empty());
        assert!(!is_dead(state));
    }
}

#[test]
fn fully_occupied_board_is_dead() {
    assert!(generate_moves(VALID_MASK).is_empty());
    assert!(is_dead(VALID_MASK));
}

#[test]
fn crowded_row_with_no_jump_is_dead() {
    // Pegs on all of row 2 (cells 14..=20), nothing else: seven pegs, and
    // no legal jump in any direction.
    let state = 0x1f_c000u64;
    assert_eq!(count_pegs(state), 7);
    assert!(generate_moves(state).is_empty());
    assert!(is_dead(state));
}

#[test]
fn dead_agrees_with_move_generator() {
    let near = (1u64 << 23) | (1u64 << 24);
    let far = (1u64 << 2) | (1u64 << 46);
    for state in [0u64, 1 << 24, FULL, VALID_MASK, near, far, 0x1f_c000] {
        let expected = count_pegs(state) > 1 && generate_moves(state).is_empty();
        assert_eq!(is_dead(state), expected);
    }
}

#[test]
fn pagoda_value_sums_the_weight_table() {
    assert_eq!(pagoda_value(0), 0);
    assert_eq!(pagoda_value(1 << 24), 6);
    assert_eq!(pagoda_value(VALID_MASK), 82);
    assert_eq!(pagoda_value(FULL), 76);
    // Bits outside the playable cells carry no weight.
    assert_eq!(pagoda_value(1 << 0), 0);
}

#[test]
fn evaluate_position_exact_scores() {
    // 32 pegs * 10 + total centre distance 88 - 2 * 4 moves, no penalty.
    assert_eq!(evaluate_position(FULL, 4), 400);
    assert_eq!(evaluate_position(0, 0), 0);
    // Two pegs beside the centre: 20 + 1 - 2 * 2.
    let near = (1u64 << 23) | (1u64 << 24);
    assert_eq!(evaluate_position(near, 2), 17);
    // The near-solved state ranks as progress against the opening.
    assert!(evaluate_position(near, 2) < evaluate_position(FULL, 4));
}

#[test]
fn pagoda_penalty_needs_both_conditions() {
    // Sixteen pegs on playable cells: pagoda value 38, no penalty.
    let rich = 0xff_ce1cu64;
    assert_eq!(count_pegs(rich), 16);
    assert!(pagoda_value(rich) >= 6);
    assert_eq!(evaluate_position(rich, 0), 204);
    // Sixteen pegs parked off the cross: pagoda value 0, penalty active.
    let poor = 0x18f1_8000_031e3u64;
    assert_eq!(count_pegs(poor), 16);
    assert_eq!(pagoda_value(poor), 0);
    assert_eq!(evaluate_position(poor, 0), 1160);
    // Fifteen pegs below the peg-count threshold: no penalty even though
    // the pagoda value is 0.
    let few = 0x8f18_0000_31e3u64;
    assert_eq!(count_pegs(few), 15);
    assert_eq!(pagoda_value(few), 0);
    assert_eq!(evaluate_position(few, 0), 150);
}

#[test]
fn evaluate_batch_matches_elementwise() {
    let near = (1u64 << 23) | (1u64 << 24);
    let states = vec![FULL, 0, near, VALID_MASK];
    let counts = vec![4usize, 0, 2, 0];
    let scores = evaluate_batch(&states, &counts).unwrap();
    assert_eq!(scores.len(), states.len());
    for i in 0..states.len() {
        assert_eq!(scores[i], evaluate_position(states[i], counts[i]));
    }
    assert_eq!(scores, vec![400, 0, 17, 418]);
}

#[test]
fn evaluate_batch_rejects_mismatched_lengths() {
    let states = vec![FULL, 0];
    let counts = vec![4usize];
    assert_eq!(evaluate_batch(&states, &counts), Err(SolverError::LengthMismatch));
    let empty: Vec<u64> = Vec::new();
    assert_eq!(evaluate_batch(&empty, &counts), Err(SolverError::LengthMismatch));
    assert_eq!(evaluate_batch(&empty, &Vec::new()), Ok(Vec::new()));
}
