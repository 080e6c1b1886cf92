//! Move generation and dead-position detection.
//!
//! A legal jump is specified cell by cell (`legal_move`); the executable
//! code finds all jump origins of one direction in a handful of word-wide
//! bit operations, and the lemmas here prove the two views equal.

use vstd::prelude::*;

use crate::board::cell_bit;
use crate::board::lemma_valid_cell_bounds;
use crate::board::count_pegs;
use crate::board::popcount;
use crate::board::valid_cell;
use crate::board::VALID_MASK;

verus! {

broadcast use vstd::seq_lib::group_seq_properties;

/// Playable cells whose column allows a jump to the right without leaving
/// the row: column at most 4.
pub const RIGHT_ORIGINS: u64 = 0x70e1_f3e7_ce1c;

/// Playable cells whose column allows a jump to the left without leaving
/// the row: column at least 2.
pub const LEFT_ORIGINS: u64 = 0x70e7_cf9f_0e1c;

/// The triple (from, jumped, to) forms a straight two-step line on the
/// 7-wide grid: one step right, left, down or up, staying in the row for
/// the horizontal directions.
pub open spec fn move_geometry(f: int, j: int, t: int) -> bool {
    ||| (j == f + 1 && t == f + 2 && f % 7 <= 4)
    ||| (j == f - 1 && t == f - 2 && f % 7 >= 2)
    ||| (j == f + 7 && t == f + 14)
    ||| (j == f - 7 && t == f - 14)
}

/// The jump (from, jumped, to) is legal against `s`: the three cells are
/// playable and in line, pegs stand on `from` and `jumped`, and `to` is
/// empty.
pub open spec fn legal_move(s: u64, f: u8, j: u8, t: u8) -> bool {
    &&& valid_cell(f as u64)
    &&& valid_cell(j as u64)
    &&& valid_cell(t as u64)
    &&& cell_bit(s, f as u64)
    &&& cell_bit(s, j as u64)
    &&& !cell_bit(s, t as u64)
    &&& move_geometry(f as int, j as int, t as int)
}

/// Direction order within one origin: right, left, down, up.
pub open spec fn dir_rank(f: int, j: int) -> int {
    if j == f + 1 {
        0
    } else if j == f - 1 {
        1
    } else if j == f + 7 {
        2
    } else {
        3
    }
}

/// Position of a move in the canonical output order: ascending origin,
/// and within one origin the fixed direction order.
pub open spec fn move_rank(m: (u8, u8, u8)) -> int {
    4 * (m.0 as int) + dir_rank(m.0 as int, m.1 as int)
}

/// Empty playable cells of `s`.
pub open spec fn holes_of(s: u64) -> u64 {
    VALID_MASK & !s
}

/// Origins of legal rightward jumps, as one word.
pub open spec fn right_movers(s: u64) -> u64 {
    s & (s >> 1u64) & (holes_of(s) >> 2u64) & RIGHT_ORIGINS
}

/// Origins of legal leftward jumps, as one word.
pub open spec fn left_movers(s: u64) -> u64 {
    s & (s << 1u64) & (holes_of(s) << 2u64) & LEFT_ORIGINS
}

/// Origins of legal downward jumps, as one word.
pub open spec fn down_movers(s: u64) -> u64 {
    s & (s >> 7u64) & (holes_of(s) >> 14u64) & VALID_MASK
}

/// Origins of legal upward jumps, as one word.
pub open spec fn up_movers(s: u64) -> u64 {
    s & (s << 7u64) & (holes_of(s) << 14u64) & VALID_MASK
}

/// Bit `p` of the rightward origin word marks exactly the legal jump
/// (p, p+1, p+2).
proof fn lemma_right_iff(s: u64, p: u64)
    requires
        p < 64,
    ensures
        cell_bit(right_movers(s), p) <==> legal_move(s, p as u8, (p + 1) as u8, (p + 2) as u8),
{
    assert(cell_bit(right_movers(s), p) <==> legal_move(
        s,
        p as u8,
        (p + 1) as u8,
        (p + 2) as u8,
    )) by (bit_vector)
        requires
            p < 64,
    ;
}

/// Bit `p` of the leftward origin word marks exactly the legal jump
/// (p, p-1, p-2).
proof fn lemma_left_iff(s: u64, p: u64)
    requires
        2 <= p < 64,
    ensures
        cell_bit(left_movers(s), p) <==> legal_move(s, p as u8, (p - 1) as u8, (p - 2) as u8),
{
    assert(cell_bit(left_movers(s), p) <==> legal_move(
        s,
        p as u8,
        (p - 1) as u8,
        (p - 2) as u8,
    )) by (bit_vector)
        requires
            2 <= p < 64,
    ;
}

/// Bit `p` of the downward origin word marks exactly the legal jump
/// (p, p+7, p+14).
proof fn lemma_down_iff(s: u64, p: u64)
    requires
        p < 64,
    ensures
        cell_bit(down_movers(s), p) <==> legal_move(s, p as u8, (p + 7) as u8, (p + 14) as u8),
{
    assert(cell_bit(down_movers(s), p) <==> legal_move(
        s,
        p as u8,
        (p + 7) as u8,
        (p + 14) as u8,
    )) by (bit_vector)
        requires
            p < 64,
    ;
}

/// Bit `p` of the upward origin word marks exactly the legal jump
/// (p, p-7, p-14).
proof fn lemma_up_iff(s: u64, p: u64)
    requires
        14 <= p < 64,
    ensures
        cell_bit(up_movers(s), p) <==> legal_move(s, p as u8, (p - 7) as u8, (p - 14) as u8),
{
    assert(cell_bit(up_movers(s), p) <==> legal_move(
        s,
        p as u8,
        (p - 7) as u8,
        (p - 14) as u8,
    )) by (bit_vector)
        requires
            14 <= p < 64,
    ;
}

/// Leftward origins sit at position 2 or above, upward origins at 14 or
/// above: below that the shifted hole word has no bits.
proof fn lemma_low_bounds(s: u64, p: u64)
    requires
        p < 64,
    ensures
        cell_bit(left_movers(s), p) ==> p >= 2,
        cell_bit(up_movers(s), p) ==> p >= 14,
{
    assert((cell_bit(left_movers(s), p) ==> p >= 2) && (cell_bit(up_movers(s), p) ==> p >= 14))
        by (bit_vector)
        requires
            p < 64,
    ;
}

/// A word with a set bit is not zero.
proof fn lemma_bit_implies_nonzero(x: u64, p: u64)
    requires
        p < 64,
        cell_bit(x, p),
    ensures
        x != 0,
{
    assert(p < 64 && (x >> p) & 1u64 == 1u64 ==> x != 0) by (bit_vector);
}

/// A nonzero word has a set bit, found by peeling low bits off.
proof fn lemma_nonzero_has_bit(x: u64)
    requires
        x != 0,
    ensures
        exists|p: u64| p < 64 && cell_bit(x, p),
    decreases x,
{
    if x & 1u64 == 1u64 {
        assert(cell_bit(x, 0)) by (bit_vector)
            requires
                x & 1u64 == 1u64,
        ;
        assert(0u64 < 64 && cell_bit(x, 0));
    } else {
        assert(x >> 1u64 != 0 && x >> 1u64 < x) by (bit_vector)
            requires
                x != 0 && x & 1u64 != 1u64,
        ;
        lemma_nonzero_has_bit(x >> 1u64);
        let p = choose|p: u64| p < 64 && cell_bit(x >> 1u64, p);
        assert(p < 63 && cell_bit(x, (p + 1) as u64)) by (bit_vector)
            requires
                p < 64 && cell_bit(x >> 1u64, p),
        ;
        assert(((p + 1) as u64) < 64 && cell_bit(x, (p + 1) as u64));
    }
}

/// All legal jumps from `state`, in the canonical order: ascending origin
/// cell, and within one origin the direction order right, left, down, up.
/// The output contains a triple exactly when it is a legal jump, with no
/// duplicates.
pub fn generate_moves(state: u64) -> (moves: Vec<(u8, u8, u8)>)
    ensures
        forall|i: int|
            0 <= i < moves@.len() ==> legal_move(
                state,
                (#[trigger] moves@[i]).0,
                moves@[i].1,
                moves@[i].2,
            ),
        forall|f: u8, j: u8, t: u8| legal_move(state, f, j, t) ==> moves@.contains((f, j, t)),
        forall|i: int, k: int|
            0 <= i < k < moves@.len() ==> move_rank(moves@[i]) < move_rank(moves@[k]),
        forall|i: int, k: int| 0 <= i < k < moves@.len() ==> moves@[i] != moves@[k],
{
    let holes: u64 = VALID_MASK & !state;
    let right: u64 = state & (state >> 1u64) & (holes >> 2u64) & RIGHT_ORIGINS;
    let left: u64 = state & (state << 1u64) & (holes << 2u64) & LEFT_ORIGINS;
    let down: u64 = state & (state >> 7u64) & (holes >> 14u64) & VALID_MASK;
    let up: u64 = state & (state << 7u64) & (holes << 14u64) & VALID_MASK;
    let mut moves: Vec<(u8, u8, u8)> = Vec::new();
    let mut p: u8 = 0;
    while p < 47
        invariant
            p <= 47,
            right == right_movers(state),
            left == left_movers(state),
            down == down_movers(state),
            up == up_movers(state),
            forall|i: int|
                0 <= i < moves@.len() ==> legal_move(
                    state,
                    (#[trigger] moves@[i]).0,
                    moves@[i].1,
                    moves@[i].2,
                ),
            forall|i: int| 0 <= i < moves@.len() ==> move_rank(#[trigger] moves@[i]) < 4 * (
            p as int),
            forall|i: int, k: int|
                0 <= i < k < moves@.len() ==> move_rank(moves@[i]) < move_rank(moves@[k]),
            forall|f: u8, j: u8, t: u8|
                legal_move(state, f, j, t) && (f as int) < (p as int) ==> moves@.contains(
                    (f, j, t),
                ),
        decreases 47 - p,
    {
        let pu = p as u64;
        proof {
            lemma_right_iff(state, pu);
            lemma_down_iff(state, pu);
            lemma_low_bounds(state, pu);
            if pu >= 2 {
                lemma_left_iff(state, pu);
            }
            if pu >= 14 {
                lemma_up_iff(state, pu);
            }
        }
        if (right >> pu) & 1u64 == 1u64 {
            moves.push((p, p + 1, p + 2));
            proof {
                assert(moves@.contains((p, (p + 1) as u8, (p + 2) as u8)));
            }
        }
        if (left >> pu) & 1u64 == 1u64 {
            moves.push((p, p - 1, p - 2));
            proof {
                assert(moves@.contains((p, (p - 1) as u8, (p - 2) as u8)));
            }
        }
        if (down >> pu) & 1u64 == 1u64 {
            moves.push((p, p + 7, p + 14));
            proof {
                assert(moves@.contains((p, (p + 7) as u8, (p + 14) as u8)));
            }
        }
        if (up >> pu) & 1u64 == 1u64 {
            moves.push((p, p - 7, p - 14));
            proof {
                assert(moves@.contains((p, (p - 7) as u8, (p - 14) as u8)));
            }
        }
        proof {
            assert forall|f: u8, j: u8, t: u8|
                legal_move(state, f, j, t) && (f as int) <= (p as int) implies moves@.contains(
                (f, j, t),
            ) by {
                if (f as int) == (p as int) {
                    if (j as int) == (f as int) + 1 {
                        assert((f, j, t) == (p, (p + 1) as u8, (p + 2) as u8));
                        assert(cell_bit(right_movers(state), pu));
                    } else if (j as int) == (f as int) - 1 {
                        assert((f, j, t) == (p, (p - 1) as u8, (p - 2) as u8));
                        assert(cell_bit(left_movers(state), pu));
                    } else if (j as int) == (f as int) + 7 {
                        assert((f, j, t) == (p, (p + 7) as u8, (p + 14) as u8));
                        assert(cell_bit(down_movers(state), pu));
                    } else {
                        assert((f, j, t) == (p, (p - 7) as u8, (p - 14) as u8));
                        assert(cell_bit(up_movers(state), pu));
                    }
                }
            }
        }
        p = p + 1;
    }
    proof {
        assert forall|f: u8, j: u8, t: u8| legal_move(state, f, j, t) implies moves@.contains(
            (f, j, t),
        ) by {
            lemma_valid_cell_bounds(f as u64);
        }
    }
    moves
}

/// A board with a single peg, wherever it sits, has exactly one peg by
/// count and admits no legal jump: it is never reported dead.
pub proof fn lemma_single_peg(p: u64)
    requires
        p < 64,
    ensures
        popcount(1u64 << p) == 1,
        forall|f: u8, j: u8, t: u8| !legal_move(1u64 << p, f, j, t),
{
    assert(crate::board::popcount_upto(1u64 << p, 64) == 1) by (bit_vector)
        requires
            p < 64,
    ;
    assert forall|f: u8, j: u8, t: u8| !legal_move(1u64 << p, f, j, t) by {
        if legal_move(1u64 << p, f, j, t) {
            let fu = f as u64;
            let ju = j as u64;
            assert(!(fu < 64 && ju < 64 && fu != ju && ((1u64 << p) >> fu) & 1u64 == 1u64 && ((
            1u64 << p) >> ju) & 1u64 == 1u64)) by (bit_vector)
                requires
                    p < 64,
            ;
        }
    }
}

/// The position is dead: more than one peg remains and no legal jump
/// exists in any direction. A board with at most one peg is never dead.
pub fn is_dead(state: u64) -> (dead: bool)
    ensures
        dead <==> (popcount(state) > 1 && forall|f: u8, j: u8, t: u8| !legal_move(state, f, j, t)),
{
    let count = count_pegs(state);
    if count <= 1 {
        return false;
    }
    let holes: u64 = VALID_MASK & !state;
    let right: u64 = state & (state >> 1u64) & (holes >> 2u64) & RIGHT_ORIGINS;
    if right != 0 {
        proof {
            lemma_nonzero_has_bit(right);
            let p = choose|p: u64| p < 64 && cell_bit(right, p);
            lemma_right_iff(state, p);
        }
        return false;
    }
    let left: u64 = state & (state << 1u64) & (holes << 2u64) & LEFT_ORIGINS;
    if left != 0 {
        proof {
            lemma_nonzero_has_bit(left);
            let p = choose|p: u64| p < 64 && cell_bit(left, p);
            lemma_low_bounds(state, p);
            lemma_left_iff(state, p);
        }
        return false;
    }
    let down: u64 = state & (state >> 7u64) & (holes >> 14u64) & VALID_MASK;
    if down != 0 {
        proof {
            lemma_nonzero_has_bit(down);
            let p = choose|p: u64| p < 64 && cell_bit(down, p);
            lemma_down_iff(state, p);
        }
        return false;
    }
    let up: u64 = state & (state << 7u64) & (holes << 14u64) & VALID_MASK;
    if up != 0 {
        proof {
            lemma_nonzero_has_bit(up);
            let p = choose|p: u64| p < 64 && cell_bit(up, p);
            lemma_low_bounds(state, p);
            lemma_up_iff(state, p);
        }
        return false;
    }
    proof {
        assert forall|f: u8, j: u8, t: u8| !legal_move(state, f, j, t) by {
            if legal_move(state, f, j, t) {
                lemma_valid_cell_bounds(f as u64);
                if t as int == f as int + 2 {
                    lemma_right_iff(state, f as u64);
                    lemma_bit_implies_nonzero(right_movers(state), f as u64);
                } else if t as int == f as int - 2 {
                    lemma_left_iff(state, f as u64);
                    lemma_bit_implies_nonzero(left_movers(state), f as u64);
                } else if t as int == f as int + 14 {
                    lemma_down_iff(state, f as u64);
                    lemma_bit_implies_nonzero(down_movers(state), f as u64);
                } else {
                    lemma_up_iff(state, f as u64);
                    lemma_bit_implies_nonzero(up_movers(state), f as u64);
                }
            }
        }
    }
    true
}

} // verus!
