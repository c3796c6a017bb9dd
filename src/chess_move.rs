//! Moves: a from-square, a to-square and a small set of flag bits.
use vstd::prelude::*;
use crate::bitboard::Square;
use crate::piece::{Color, PieceType, piece_of};

verus! {

/// A move: `from`, `to`, and flag bits. Bits 0 to 4 are single flags; bits
/// 5 to 7 select a promotion piece (0 none, 1 knight, 2 bishop, 3 rook,
/// 4 queen).
#[derive(Clone, Copy, PartialEq, Eq, Structural, Debug)]
pub struct Move {
    pub from: Square,
    pub to: Square,
    pub flags: u8,
}

pub const CAPTURE: u8 = 1;
pub const DOUBLE_PAWN_PUSH: u8 = 2;
pub const EN_PASSANT: u8 = 4;
pub const KING_CASTLE: u8 = 8;
pub const QUEEN_CASTLE: u8 = 16;
pub const PROMOTION_SHIFT: u8 = 5;

impl Move {
    pub open spec fn has(self, flag: u8) -> bool {
        self.flags & flag != 0
    }

    /// The promotion selector: 0 none, 1 knight, 2 bishop, 3 rook, 4 queen.
    pub open spec fn spec_promotion(self) -> u8 {
        self.flags >> 5u8
    }

    pub open spec fn spec_is_promotion(self) -> bool {
        1 <= self.spec_promotion() <= 4
    }

    /// No flag at all: a quiet move.
    pub open spec fn has_none(self) -> bool {
        !self.has(CAPTURE) && !self.has(DOUBLE_PAWN_PUSH) && !self.has(EN_PASSANT) && !self.has(
            KING_CASTLE,
        ) && !self.has(QUEEN_CASTLE) && !self.spec_is_promotion()
    }

    /// A move from `from` to `to` with flags `flags`; it never fails.
    pub fn new(from: Square, to: Square, flags: u8) -> (r: Move)
        ensures
            r == (Move { from, to, flags }),
            flags == 0 ==> r.has_none(),
            flags == CAPTURE ==> r.has(CAPTURE) && !r.has(DOUBLE_PAWN_PUSH) && !r.has(EN_PASSANT)
                && !r.has(KING_CASTLE) && !r.has(QUEEN_CASTLE) && !r.spec_is_promotion(),
            flags == DOUBLE_PAWN_PUSH ==> r.has(DOUBLE_PAWN_PUSH) && !r.has(CAPTURE) && !r.has(
                EN_PASSANT,
            ) && !r.has(KING_CASTLE) && !r.has(QUEEN_CASTLE) && !r.spec_is_promotion(),
            flags == EN_PASSANT ==> r.has(EN_PASSANT) && !r.has(CAPTURE) && !r.has(DOUBLE_PAWN_PUSH)
                && !r.has(KING_CASTLE) && !r.has(QUEEN_CASTLE) && !r.spec_is_promotion(),
            flags == KING_CASTLE ==> r.has(KING_CASTLE) && !r.has(CAPTURE) && !r.has(
                DOUBLE_PAWN_PUSH,
            ) && !r.has(EN_PASSANT) && !r.has(QUEEN_CASTLE) && !r.spec_is_promotion(),
            flags == QUEEN_CASTLE ==> r.has(QUEEN_CASTLE) && !r.has(CAPTURE) && !r.has(
                DOUBLE_PAWN_PUSH,
            ) && !r.has(EN_PASSANT) && !r.has(KING_CASTLE) && !r.spec_is_promotion(),
    {
        assert(0u8 & 1u8 == 0 && 0u8 & 2u8 == 0 && 0u8 & 4u8 == 0 && 0u8 & 8u8 == 0 && 0u8 & 16u8 == 0
            && 0u8 >> 5u8 == 0) by (bit_vector);
        assert(1u8 & 1u8 != 0 && 1u8 & 2u8 == 0 && 1u8 & 4u8 == 0 && 1u8 & 8u8 == 0 && 1u8 & 16u8 == 0
            && 1u8 >> 5u8 == 0) by (bit_vector);
        assert(2u8 & 1u8 == 0 && 2u8 & 2u8 != 0 && 2u8 & 4u8 == 0 && 2u8 & 8u8 == 0 && 2u8 & 16u8 == 0
            && 2u8 >> 5u8 == 0) by (bit_vector);
        assert(4u8 & 1u8 == 0 && 4u8 & 2u8 == 0 && 4u8 & 4u8 != 0 && 4u8 & 8u8 == 0 && 4u8 & 16u8 == 0
            && 4u8 >> 5u8 == 0) by (bit_vector);
        assert(8u8 & 1u8 == 0 && 8u8 & 2u8 == 0 && 8u8 & 4u8 == 0 && 8u8 & 8u8 != 0 && 8u8 & 16u8 == 0
            && 8u8 >> 5u8 == 0) by (bit_vector);
        assert(16u8 & 1u8 == 0 && 16u8 & 2u8 == 0 && 16u8 & 4u8 == 0 && 16u8 & 8u8 == 0 && 16u8 & 16u8
            != 0 && 16u8 >> 5u8 == 0) by (bit_vector);
        Move { from, to, flags }
    }

    /// A promotion move to the piece of kind `kind` (1 knight to 4 queen),
    /// with the further flags `flags` (bits 0 to 4).
    pub fn new_promotion(from: Square, to: Square, kind: u8, flags: u8) -> (r: Move)
        requires
            1 <= kind <= 4,
            flags < 32,
        ensures
            r.from == from,
            r.to == to,
            r.spec_promotion() == kind,
            r.spec_is_promotion(),
            r.flags & 31 == flags,
            r.flags == flags | (kind << 5u8),
            flags == 0 ==> !r.has(CAPTURE),
            flags == CAPTURE ==> r.has(CAPTURE),
            flags < 2 ==> !r.has(DOUBLE_PAWN_PUSH) && !r.has(EN_PASSANT) && !r.has(KING_CASTLE)
                && !r.has(QUEEN_CASTLE),
    {
        let f: u8 = flags | (kind << 5u8);
        assert((flags | (kind << 5u8)) >> 5u8 == kind && (flags | (kind << 5u8)) & 31 == flags)
            by (bit_vector)
            requires
                1 <= kind <= 4,
                flags < 32,
        ;
        assert(flags < 2 ==> f & 2 == 0 && f & 4 == 0 && f & 8 == 0 && f & 16 == 0) by (bit_vector)
            requires
                f == flags | (kind << 5u8),
                1 <= kind <= 4,
        ;
        assert(flags == 0 ==> f & 1 == 0) by (bit_vector)
            requires
                f == flags | (kind << 5u8),
                1 <= kind <= 4,
        ;
        assert(flags == 1 ==> f & 1 != 0) by (bit_vector)
            requires
                f == flags | (kind << 5u8),
                1 <= kind <= 4,
        ;
        Move { from, to, flags: f }
    }

    pub fn get_from(&self) -> (r: Square)
        ensures
            r == self.from,
    {
        self.from
    }

    pub fn get_to(&self) -> (r: Square)
        ensures
            r == self.to,
    {
        self.to
    }

    /// Some flag of `flag` is set.
    pub fn intersects(&self, flag: u8) -> (r: bool)
        ensures
            r == self.has(flag),
    {
        self.flags & flag != 0
    }

    /// Every flag of `flag` is set.
    pub fn contains(&self, flag: u8) -> (r: bool)
        ensures
            r == (self.flags & flag == flag),
    {
        self.flags & flag == flag
    }

    pub fn is_capture(&self) -> (r: bool)
        ensures
            r == self.has(CAPTURE),
    {
        self.intersects(CAPTURE)
    }

    pub fn is_ep(&self) -> (r: bool)
        ensures
            r == self.has(EN_PASSANT),
    {
        self.intersects(EN_PASSANT)
    }

    pub fn is_double_pawn_push(&self) -> (r: bool)
        ensures
            r == self.has(DOUBLE_PAWN_PUSH),
    {
        self.intersects(DOUBLE_PAWN_PUSH)
    }

    pub fn is_king_castle(&self) -> (r: bool)
        ensures
            r == self.has(KING_CASTLE),
    {
        self.intersects(KING_CASTLE)
    }

    pub fn is_queen_castle(&self) -> (r: bool)
        ensures
            r == self.has(QUEEN_CASTLE),
    {
        self.intersects(QUEEN_CASTLE)
    }

    /// The promotion selector: 0 none, 1 knight, 2 bishop, 3 rook, 4 queen.
    pub fn promotion_kind(&self) -> (r: u8)
        ensures
            r == self.spec_promotion(),
    {
        self.flags >> 5u8
    }

    pub fn is_promotion(&self) -> (r: bool)
        ensures
            r == self.spec_is_promotion(),
    {
        let k = self.promotion_kind();
        1 <= k && k <= 4
    }

    /// The piece that a promotion move makes, in colour `color`.
    pub fn get_promotion_piece(&self, color: Color) -> (r: PieceType)
        requires
            self.spec_is_promotion(),
        ensures
            r == piece_of(self.spec_promotion() as int, color),
            r.spec_kind() == self.spec_promotion(),
            r.spec_color() == color,
    {
        let k = self.promotion_kind() as usize;
        match color {
            Color::White => PieceType::from_index(k),
            Color::Black => PieceType::from_index(k + 6),
        }
    }
}

} // verus!
