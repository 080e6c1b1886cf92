//! Heuristic evaluation: the pagoda weight function, the composite
//! position score, and elementwise batch scoring.

use vstd::prelude::*;

use crate::board::cell_bit;
use crate::board::count_pegs;
use crate::board::popcount;
use crate::board::valid_cell;
use crate::board::SolverError;
use crate::board::VALID_MASK;

verus! {

/// Largest accepted move count: twice this value still fits the score
/// type on every machine word size.
pub const MAX_MOVE_COUNT: usize = 0x3fff_ffff;

/// The fixed pagoda weight of cell `p`: symmetric under the board's
/// four-fold symmetry, peak 6 at the centre cell 24, and 0 off the board.
pub open spec fn pagoda_weight(p: int) -> int {
    if p == 2 || p == 4 || p == 14 || p == 20 || p == 28 || p == 34 || p == 44 || p == 46 {
        1
    } else if p == 3 || p == 9 || p == 11 || p == 15 || p == 19 || p == 21 || p == 27 || p == 29
        || p == 33 || p == 37 || p == 39 || p == 45 {
        2
    } else if p == 16 || p == 18 || p == 30 || p == 32 {
        3
    } else if p == 10 || p == 17 || p == 22 || p == 23 || p == 25 || p == 26 || p == 31 || p == 38 {
        4
    } else if p == 24 {
        6
    } else {
        0
    }
}

/// Sum of the pagoda weights of the occupied cells among the low `n` bits.
pub open spec fn pagoda_upto(s: u64, n: int) -> int
    decreases n,
{
    if n <= 0 {
        0
    } else {
        pagoda_upto(s, n - 1) + if cell_bit(s, (n - 1) as u64) {
            pagoda_weight(n - 1)
        } else {
            0int
        }
    }
}

/// Pagoda value of a state: the weight sum over all occupied cells.
pub open spec fn pagoda_spec(s: u64) -> int {
    pagoda_upto(s, 64)
}

/// Taxicab distance of cell `p` from the centre cell (row 3, column 3);
/// 0 off the board.
pub open spec fn center_distance(p: int) -> int {
    if 0 <= p < 64 && valid_cell(p as u64) {
        (if p / 7 >= 3 {
            p / 7 - 3
        } else {
            3 - p / 7
        }) + (if p % 7 >= 3 {
            p % 7 - 3
        } else {
            3 - p % 7
        })
    } else {
        0
    }
}

/// Sum of centre distances of the occupied playable cells among the low
/// `n` bits.
pub open spec fn distance_upto(s: u64, n: int) -> int
    decreases n,
{
    if n <= 0 {
        0
    } else {
        distance_upto(s, n - 1) + if cell_bit(s, (n - 1) as u64) {
            center_distance(n - 1)
        } else {
            0int
        }
    }
}

/// Total centre distance of a state's pegs.
pub open spec fn distance_spec(s: u64) -> int {
    distance_upto(s, 64)
}

/// The composite ranking score: ten per peg, plus the total centre
/// distance, minus two per available move, plus a flat 1000 penalty when
/// many pegs remain but the pagoda value has fallen below the centre
/// cell's weight.
pub open spec fn position_score(s: u64, num_moves: int) -> int {
    popcount(s) * 10 + distance_spec(s) - num_moves * 2 + if popcount(s) > 15 && pagoda_spec(s)
        < 6 {
        1000int
    } else {
        0int
    }
}

/// The empty word has no set bit.
proof fn lemma_zero_bit(p: u64)
    requires
        p < 64,
    ensures
        !cell_bit(0u64, p),
{
    assert(!((0u64 >> p) & 1u64 == 1u64)) by (bit_vector)
        requires
            p < 64,
    ;
}

/// Weight-sum prefixes of the empty board are all zero.
proof fn lemma_pagoda_upto_empty(n: int)
    requires
        n <= 64,
    ensures
        pagoda_upto(0u64, n) == 0,
    decreases n,
{
    if n > 0 {
        lemma_zero_bit((n - 1) as u64);
        lemma_pagoda_upto_empty(n - 1);
    }
}

/// The empty board has pagoda value zero.
pub proof fn lemma_pagoda_empty()
    ensures
        pagoda_spec(0u64) == 0,
{
    lemma_pagoda_upto_empty(64);
}

/// Pagoda weight lookup for one cell.
fn cell_weight(p: u64) -> (w: u32)
    ensures
        w == pagoda_weight(p as int),
        w <= 6,
{
    match p {
        2 => 1,
        3 => 2,
        4 => 1,
        9 => 2,
        10 => 4,
        11 => 2,
        14 => 1,
        15 => 2,
        16 => 3,
        17 => 4,
        18 => 3,
        19 => 2,
        20 => 1,
        21 => 2,
        22 => 4,
        23 => 4,
        24 => 6,
        25 => 4,
        26 => 4,
        27 => 2,
        28 => 1,
        29 => 2,
        30 => 3,
        31 => 4,
        32 => 3,
        33 => 2,
        34 => 1,
        37 => 2,
        38 => 4,
        39 => 2,
        44 => 1,
        45 => 2,
        46 => 1,
        _ => 0,
    }
}

/// Pagoda value of the state: the sum of the fixed per-cell weights over
/// all occupied cells.
pub fn pagoda_value(state: u64) -> (value: u32)
    ensures
        value == pagoda_spec(state),
{
    let mut value: u32 = 0;
    let mut i: u64 = 0;
    while i < 64
        invariant
            i <= 64,
            value == pagoda_upto(state, i as int),
            value <= 6 * i,
        decreases 64 - i,
    {
        if (state >> i) & 1u64 == 1u64 {
            value = value + cell_weight(i);
        }
        i = i + 1;
    }
    value
}

/// Total centre distance of the state's pegs.
fn distance_sum(state: u64) -> (total: u32)
    ensures
        total == distance_spec(state),
{
    let mut total: u32 = 0;
    let mut i: u64 = 0;
    while i < 64
        invariant
            i <= 64,
            total == distance_upto(state, i as int),
            total <= 6 * i,
        decreases 64 - i,
    {
        if (state >> i) & 1u64 == 1u64 && (VALID_MASK >> i) & 1u64 == 1u64 {
            proof {
                crate::board::lemma_valid_cell_bounds(i);
            }
            let row = i / 7;
            let col = i % 7;
            let dr = if row >= 3 {
                row - 3
            } else {
                3 - row
            };
            let dc = if col >= 3 {
                col - 3
            } else {
                3 - col
            };
            total = total + (dr as u32) + (dc as u32);
        }
        i = i + 1;
    }
    total
}

/// Ranking score of one position, given the number of moves available
/// from it. An opaque ordering key for the caller's search policy. The
/// move count is bounded only so that twice its value fits the score
/// type; a board never offers more than a few dozen moves.
pub fn evaluate_position(state: u64, num_moves: usize) -> (score: i64)
    requires
        num_moves <= MAX_MOVE_COUNT,
    ensures
        score == position_score(state, num_moves as int),
{
    let count = count_pegs(state);
    let dist = distance_sum(state);
    let pagoda = pagoda_value(state);
    let mut score: i64 = (count as i64) * 10 + (dist as i64) - 2 * (num_moves as i64);
    if count > 15 && pagoda < 6 {
        score = score + 1000;
    }
    score
}

/// Elementwise `evaluate_position` over two equal-length sequences,
/// preserving input order; inputs of differing length are rejected.
pub fn evaluate_batch(states: &Vec<u64>, move_counts: &Vec<usize>) -> (result: Result<
    Vec<i64>,
    SolverError,
>)
    requires
        forall|k: int| 0 <= k < move_counts@.len() ==> #[trigger] move_counts@[k] <= MAX_MOVE_COUNT,
    ensures
        result is Ok <==> states@.len() == move_counts@.len(),
        result is Err ==> result == Err::<Vec<i64>, SolverError>(SolverError::LengthMismatch),
        result is Ok ==> result->Ok_0@.len() == states@.len(),
        result is Ok ==> forall|k: int|
            0 <= k < states@.len() ==> result->Ok_0@[k] == position_score(
                states@[k],
                #[trigger] move_counts@[k] as int,
            ),
{
    if states.len() != move_counts.len() {
        return Err(SolverError::LengthMismatch);
    }
    let mut scores: Vec<i64> = Vec::new();
    let mut i: usize = 0;
    while i < states.len()
        invariant
            i <= states@.len(),
            states@.len() == move_counts@.len(),
            scores@.len() == i,
            forall|k: int| 0 <= k < move_counts@.len() ==> #[trigger] move_counts@[k]
                <= MAX_MOVE_COUNT,
            forall|k: int|
                0 <= k < i ==> scores@[k] == position_score(
                    states@[k],
                    #[trigger] move_counts@[k] as int,
                ),
        decreases states@.len() - i,
    {
        let score = evaluate_position(states[i], move_counts[i]);
        scores.push(score);
        i = i + 1;
    }
    Ok(scores)
}

} // verus!
