//! Castling rights: four independent flags that a move can only clear.
use vstd::prelude::*;

verus! {

pub const WHITE_KING_SIDE: u8 = 1;
pub const WHITE_QUEEN_SIDE: u8 = 2;
pub const BLACK_KING_SIDE: u8 = 4;
pub const BLACK_QUEEN_SIDE: u8 = 8;

#[derive(Clone, Copy, PartialEq, Eq, Structural, Debug)]
pub struct CastlingFlags {
    pub bits: u8,
}

/// The rights lost when a move starts on or lands on `sq`: a rook's home
/// square takes that rook's right, a king's home square both of its side's.
pub open spec fn rights_lost(sq: int) -> u8 {
    if sq == 0 {
        WHITE_QUEEN_SIDE
    } else if sq == 7 {
        WHITE_KING_SIDE
    } else if sq == 4 {
        WHITE_KING_SIDE | WHITE_QUEEN_SIDE
    } else if sq == 56 {
        BLACK_QUEEN_SIDE
    } else if sq == 63 {
        BLACK_KING_SIDE
    } else if sq == 60 {
        BLACK_KING_SIDE | BLACK_QUEEN_SIDE
    } else {
        0
    }
}

fn lost_at(sq: u8) -> (r: u8)
    ensures
        r == rights_lost(sq as int),
{
    if sq == 0 {
        WHITE_QUEEN_SIDE
    } else if sq == 7 {
        WHITE_KING_SIDE
    } else if sq == 4 {
        WHITE_KING_SIDE | WHITE_QUEEN_SIDE
    } else if sq == 56 {
        BLACK_QUEEN_SIDE
    } else if sq == 63 {
        BLACK_KING_SIDE
    } else if sq == 60 {
        BLACK_KING_SIDE | BLACK_QUEEN_SIDE
    } else {
        0
    }
}

impl CastlingFlags {
    /// Well formed: only the four flag bits may be set.
    pub open spec fn wf(self) -> bool {
        self.bits < 16
    }

    /// The set given by `bits`, truncated to the four flag bits.
    pub fn new(bits: u8) -> (r: CastlingFlags)
        ensures
            r.bits == bits & 15,
            r.wf(),
    {
        let b = bits & 15;
        assert(bits & 15 < 16) by (bit_vector);
        CastlingFlags { bits: b }
    }

    /// All four rights.
    pub fn all() -> (r: CastlingFlags)
        ensures
            r.bits == 15,
            r.wf(),
    {
        CastlingFlags { bits: 15 }
    }

    /// No right at all.
    pub fn none() -> (r: CastlingFlags)
        ensures
            r.bits == 0,
            r.wf(),
    {
        CastlingFlags { bits: 0 }
    }

    pub fn bits(&self) -> (r: u8)
        ensures
            r == self.bits,
    {
        self.bits
    }

    /// Every flag of `flag` is set.
    pub fn contains(&self, flag: u8) -> (r: bool)
        ensures
            r == (self.bits & flag == flag),
    {
        self.bits & flag == flag
    }

    /// Clears exactly the rights that a move from `from` to `to` invalidates.
    /// A right is never set again.
    pub fn update(&mut self, from: u8, to: u8)
        requires
            old(self).wf(),
        ensures
            final(self).bits == old(self).bits & !rights_lost(from as int) & !rights_lost(to as int),
            final(self).bits & !old(self).bits == 0,
            final(self).wf(),
    {
        let a = lost_at(from);
        let b = lost_at(to);
        let old_bits = self.bits;
        let new_bits = old_bits & !a & !b;
        assert(new_bits & !old_bits == 0 && new_bits < 16) by (bit_vector)
            requires
                new_bits == old_bits & !a & !b,
                old_bits < 16,
        ;
        self.bits = new_bits;
    }
}

} // verus!
