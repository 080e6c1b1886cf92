//! Board encoding: the valid-cell mask, bit primitives, and the move
//! application primitive.

use vstd::prelude::*;

verus! {

/// Bitmask of the 33 playable cells of the English cross-shaped board.
/// Cell `i` of the 7x7 row-major grid (row `i / 7`, column `i % 7`) is
/// playable iff bit `i` is set; the four 2x2 corner blocks are masked out.
pub const VALID_MASK: u64 = 0x70e7_ffff_ce1c;

/// The two ways a call into this core can be rejected.
#[derive(Clone, Copy, Debug, PartialEq, Eq, Structural)]
pub enum SolverError {
    /// A positional argument lies outside the 64-bit encoding.
    InvalidArgument,
    /// Batch inputs of differing length.
    LengthMismatch,
}

/// Bit `p` of `s`: a peg occupies cell `p`.
pub open spec fn cell_bit(s: u64, p: u64) -> bool
    recommends
        p < 64,
{
    (s >> p) & 1u64 == 1u64
}

/// `p` is one of the 33 playable cells.
pub open spec fn valid_cell(p: u64) -> bool {
    p < 64 && cell_bit(VALID_MASK, p)
}

/// A state is well formed when no bit outside the playable cells is set.
pub open spec fn valid_state(s: u64) -> bool {
    s & !VALID_MASK == 0u64
}

/// Number of set bits among the low `n` bits of `s`.
pub open spec fn popcount_upto(s: u64, n: int) -> int
    decreases n,
{
    if n <= 0 {
        0
    } else {
        popcount_upto(s, n - 1) + if cell_bit(s, (n - 1) as u64) {
            1int
        } else {
            0int
        }
    }
}

/// Number of set bits of `s`.
pub open spec fn popcount(s: u64) -> int {
    popcount_upto(s, 64)
}

/// Number of pegs on the board: the population count of the state word.
pub fn count_pegs(state: u64) -> (count: u32)
    ensures
        count == popcount(state),
{
    let mut count: u32 = 0;
    let mut i: u64 = 0;
    while i < 64
        invariant
            i <= 64,
            count == popcount_upto(state, i as int),
            count <= i,
        decreases 64 - i,
    {
        if (state >> i) & 1u64 == 1u64 {
            count = count + 1;
        }
        i = i + 1;
    }
    count
}

/// Occupancy test at `pos`; positions outside the 64-bit word are rejected.
pub fn has_peg(state: u64, pos: u8) -> (result: Result<bool, SolverError>)
    ensures
        pos < 64 ==> result == Ok::<bool, SolverError>(cell_bit(state, pos as u64)),
        pos >= 64 ==> result == Err::<bool, SolverError>(SolverError::InvalidArgument),
{
    if pos >= 64 {
        Err(SolverError::InvalidArgument)
    } else {
        Ok((state >> (pos as u64)) & 1u64 == 1u64)
    }
}

/// The state after flipping the three cells of a move.
pub open spec fn apply_move_spec(s: u64, from_pos: u8, jumped: u8, to_pos: u8) -> u64
    recommends
        from_pos < 64,
        jumped < 64,
        to_pos < 64,
{
    s ^ (1u64 << from_pos) ^ (1u64 << jumped) ^ (1u64 << to_pos)
}

/// Applies a move by flipping exactly the bits at `from_pos`, `jumped` and
/// `to_pos`. No legality check is made: the caller must only hand in moves
/// that are legal against `state`. Indices outside the word are rejected.
pub fn apply_move(state: u64, from_pos: u8, jumped: u8, to_pos: u8) -> (result: Result<
    u64,
    SolverError,
>)
    ensures
        from_pos < 64 && jumped < 64 && to_pos < 64 ==> result == Ok::<u64, SolverError>(
            apply_move_spec(state, from_pos, jumped, to_pos),
        ),
        !(from_pos < 64 && jumped < 64 && to_pos < 64) ==> result == Err::<u64, SolverError>(
            SolverError::InvalidArgument,
        ),
{
    if from_pos >= 64 || jumped >= 64 || to_pos >= 64 {
        Err(SolverError::InvalidArgument)
    } else {
        Ok(state ^ (1u64 << from_pos) ^ (1u64 << jumped) ^ (1u64 << to_pos))
    }
}

/// Applying the same move twice returns the original state: the move
/// application is its own inverse.
pub proof fn lemma_apply_move_involution(s: u64, from_pos: u8, jumped: u8, to_pos: u8)
    requires
        from_pos < 64,
        jumped < 64,
        to_pos < 64,
    ensures
        apply_move_spec(apply_move_spec(s, from_pos, jumped, to_pos), from_pos, jumped, to_pos)
            == s,
{
    assert(((s ^ (1u64 << from_pos) ^ (1u64 << jumped) ^ (1u64 << to_pos)) ^ (1u64 << from_pos) ^ (
    1u64 << jumped) ^ (1u64 << to_pos)) == s) by (bit_vector);
}

/// Every playable cell lies between positions 2 and 46.
pub proof fn lemma_valid_cell_bounds(p: u64)
    requires
        p < 64,
    ensures
        valid_cell(p) ==> 2 <= p <= 46,
{
    assert((0x70e7_ffff_ce1cu64 >> p) & 1u64 == 1u64 ==> 2 <= p <= 46) by (bit_vector)
        requires
            p < 64,
    ;
}

/// A bit set in a well-formed state is set in the valid-cell mask too.
pub proof fn lemma_valid_state_bit(s: u64, p: u64)
    requires
        valid_state(s),
        p < 64,
    ensures
        cell_bit(s, p) ==> cell_bit(VALID_MASK, p),
{
    assert(s & !0x70e7_ffff_ce1cu64 == 0u64 && p < 64 && (s >> p) & 1u64 == 1u64 ==> (
    0x70e7_ffff_ce1cu64 >> p) & 1u64 == 1u64) by (bit_vector);
}

/// Bitwise domination gives a population-count bound, prefix by prefix.
proof fn lemma_popcount_upto_mono(s: u64, m: u64, n: int)
    requires
        n <= 64,
        forall|p: u64| p < 64 && #[trigger] cell_bit(s, p) ==> cell_bit(m, p),
    ensures
        popcount_upto(s, n) <= popcount_upto(m, n),
    decreases n,
{
    if n > 0 {
        lemma_popcount_upto_mono(s, m, n - 1);
    }
}

/// A well-formed state never carries more than 33 pegs: its pegs are a
/// subset of the 33 playable cells.
pub proof fn lemma_valid_state_pegs_le_33(s: u64)
    requires
        valid_state(s),
    ensures
        popcount(s) <= 33,
{
    assert forall|p: u64| p < 64 && #[trigger] cell_bit(s, p) implies cell_bit(
        VALID_MASK,
        p,
    ) by {
        lemma_valid_state_bit(s, p);
    }
    lemma_popcount_upto_mono(s, VALID_MASK, 64);
    assert(popcount_upto(VALID_MASK, 64) == 33) by (bit_vector);
}

} // verus!
