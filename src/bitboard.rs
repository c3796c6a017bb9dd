//! Squares and bitboards: a bitboard is a 64-bit set with one bit per square.
use vstd::prelude::*;

verus! {

/// A square, numbered rank-major from a1 = 0 to h8 = 63.
pub type Square = u8;

/// A set of squares, one bit per square.
pub type Bitboard = u64;

pub const EMPTY: Bitboard = 0;

/// Square `s` is a member of bitboard `b`.
pub open spec fn has_sq(b: u64, s: u64) -> bool {
    (b >> s) & 1u64 == 1u64
}

/// The file (column, 0 = a) of square `s`.
pub open spec fn file_of(s: int) -> int {
    s % 8
}

/// The rank (row, 0 = first) of square `s`.
pub open spec fn rank_of(s: int) -> int {
    s / 8
}

pub open spec fn in_bounds(x: int, y: int) -> bool {
    0 <= x < 8 && 0 <= y < 8
}

pub proof fn lemma_empty(t: u64)
    requires
        t < 64,
    ensures
        !has_sq(0u64, t),
{
    assert((0u64 >> t) & 1u64 != 1u64) by (bit_vector);
}

pub proof fn lemma_single(s: u64, t: u64)
    requires
        s < 64,
        t < 64,
    ensures
        has_sq(1u64 << s, t) <==> t == s,
{
    assert(((1u64 << s) >> t) & 1u64 == 1u64 <==> t == s) by (bit_vector)
        requires
            s < 64,
            t < 64,
    ;
}

pub proof fn lemma_or(a: u64, b: u64, t: u64)
    requires
        t < 64,
    ensures
        has_sq(a | b, t) <==> (has_sq(a, t) || has_sq(b, t)),
{
    assert(((a | b) >> t) & 1u64 == 1u64 <==> ((a >> t) & 1u64 == 1u64 || (b >> t) & 1u64
        == 1u64)) by (bit_vector)
        requires
            t < 64,
    ;
}

pub proof fn lemma_and(a: u64, b: u64, t: u64)
    requires
        t < 64,
    ensures
        has_sq(a & b, t) <==> (has_sq(a, t) && has_sq(b, t)),
{
    assert(((a & b) >> t) & 1u64 == 1u64 <==> ((a >> t) & 1u64 == 1u64 && (b >> t) & 1u64
        == 1u64)) by (bit_vector)
        requires
            t < 64,
    ;
}

pub proof fn lemma_and_not(a: u64, b: u64, t: u64)
    requires
        t < 64,
    ensures
        has_sq(a & !b, t) <==> (has_sq(a, t) && !has_sq(b, t)),
{
    assert(((a & !b) >> t) & 1u64 == 1u64 <==> ((a >> t) & 1u64 == 1u64 && (b >> t) & 1u64
        != 1u64)) by (bit_vector)
        requires
            t < 64,
    ;
}

/// The bitboard holding square `s` alone.
pub fn bitboard_from_square(s: Square) -> (r: Bitboard)
    requires
        s < 64,
    ensures
        forall|t: u64| t < 64 ==> (has_sq(r, t) <==> t == s as u64),
{
    proof {
        assert forall|t: u64| t < 64 implies (#[trigger] has_sq(1u64 << (s as u64), t) <==> t == s as u64) by {
            lemma_single(s as u64, t);
        }
    }
    1u64 << (s as u64)
}

} // verus!
