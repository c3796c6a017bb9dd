//! Position-hash keys, derived deterministically from a key index.
use vstd::prelude::*;
use crate::bitboard::Square;
use crate::piece::{Color, PieceType};

verus! {

pub open spec fn spec_xorshift(x: u64) -> u64 {
    let a = x ^ (x << 13u64);
    let b = a ^ (a >> 7u64);
    b ^ (b << 17u64)
}

/// One round of the xorshift64 generator.
pub fn xorshift(x: u64) -> (r: u64)
    ensures
        r == spec_xorshift(x),
{
    let a = x ^ (x << 13u64);
    let b = a ^ (a >> 7u64);
    b ^ (b << 17u64)
}

pub const SEED: u64 = 0x9e37_79b9_7f4a_7c15;

pub open spec fn spec_key(i: u64) -> u64 {
    spec_xorshift(spec_xorshift(spec_xorshift(i ^ SEED)))
}

/// The hash key with index `i`.
pub fn key(i: u64) -> (r: u64)
    ensures
        r == spec_key(i),
{
    xorshift(xorshift(xorshift(i ^ SEED)))
}

pub open spec fn spec_piece_key(p: PieceType, s: int) -> u64 {
    spec_key((p.spec_index() * 64 + s + 1) as u64)
}

/// The key of piece `p` standing on square `s`.
pub fn piece_key(p: PieceType, s: Square) -> (r: u64)
    requires
        s < 64,
    ensures
        r == spec_piece_key(p, s as int),
{
    key((p.index() as u64) * 64 + s as u64 + 1)
}

pub open spec fn spec_castling_key(bits: u8) -> u64 {
    spec_key((1000 + bits) as u64)
}

/// The key of a castling-rights set.
pub fn castling_key(bits: u8) -> (r: u64)
    ensures
        r == spec_castling_key(bits),
{
    key(1000 + bits as u64)
}

pub open spec fn spec_ep_key(mask: u64) -> u64 {
    if mask == 0 {
        0
    } else {
        spec_key(mask ^ 0x5555_5555_5555_5555u64)
    }
}

/// The key of an en-passant target; no target has key 0.
pub fn ep_key(mask: u64) -> (r: u64)
    ensures
        r == spec_ep_key(mask),
{
    if mask == 0 {
        0
    } else {
        key(mask ^ 0x5555_5555_5555_5555u64)
    }
}

/// The key that marks black to move.
pub fn side_key() -> (r: u64)
    ensures
        r == spec_key(2000),
{
    key(2000)
}

/// The key of what stands on square `s`; an empty square has key 0.
pub open spec fn sq_key(o: Option<PieceType>, s: int) -> u64 {
    match o {
        Some(p) => spec_piece_key(p, s),
        None => 0,
    }
}

/// The keys of the first `n` squares' contents, combined by xor.
pub open spec fn pieces_hash(pieces: Seq<Option<PieceType>>, n: int) -> u64
    decreases n,
{
    if n <= 0 {
        0
    } else {
        pieces_hash(pieces, n - 1) ^ sq_key(pieces[n - 1], n - 1)
    }
}

pub open spec fn side_hash(c: Color) -> u64 {
    if c == Color::Black {
        spec_key(2000)
    } else {
        0
    }
}

/// The hash of a position: its placement, castling rights, en-passant
/// target and side to move.
pub open spec fn position_hash(pieces: Seq<Option<PieceType>>, castling: u8, ep: u64, side: Color) -> u64 {
    pieces_hash(pieces, 64) ^ spec_castling_key(castling) ^ spec_ep_key(ep) ^ side_hash(side)
}

pub proof fn lemma_xor_swap(x: u64, a: u64, b: u64, c: u64)
    ensures
        ((x ^ a) ^ b) ^ c == ((x ^ c) ^ a) ^ b,
        x ^ b == ((x ^ a) ^ a) ^ b,
        (x ^ a) ^ a == x,
        x ^ 0u64 == x,
{
    assert(((x ^ a) ^ b) ^ c == ((x ^ c) ^ a) ^ b && x ^ b == ((x ^ a) ^ a) ^ b && (x ^ a) ^ a == x
        && x ^ 0u64 == x) by (bit_vector);
}

/// Changing one square changes the hash by that square's old and new keys.
pub proof fn lemma_pieces_hash_update(pieces: Seq<Option<PieceType>>, s: int, v: Option<PieceType>, n: int)
    requires
        0 <= s < pieces.len(),
        n <= pieces.len(),
    ensures
        pieces_hash(pieces.update(s, v), n) == if s < n {
            (pieces_hash(pieces, n) ^ sq_key(pieces[s], s)) ^ sq_key(v, s)
        } else {
            pieces_hash(pieces, n)
        },
    decreases n,
{
    if n > 0 {
        lemma_pieces_hash_update(pieces, s, v, n - 1);
        let q = pieces.update(s, v);
        let x = pieces_hash(pieces, n - 1);
        if s == n - 1 {
            lemma_xor_swap(x, sq_key(pieces[s], s), sq_key(v, s), 0);
        } else if s < n - 1 {
            lemma_xor_swap(x, sq_key(pieces[s], s), sq_key(v, s), sq_key(pieces[n - 1], n - 1));
        }
    }
}

/// A placement with no piece on its first `n` squares hashes to 0 there.
pub proof fn lemma_pieces_hash_empty(pieces: Seq<Option<PieceType>>, n: int)
    requires
        n <= pieces.len(),
        forall|t: int| 0 <= t < n ==> pieces[t] is None,
    ensures
        pieces_hash(pieces, n) == 0,
    decreases n,
{
    if n > 0 {
        lemma_pieces_hash_empty(pieces, n - 1);
        lemma_xor_swap(0, 0, 0, 0);
    }
}

} // verus!
