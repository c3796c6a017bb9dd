//! Piece colours and the twelve concrete piece types.
use vstd::prelude::*;

verus! {

#[derive(Clone, Copy, PartialEq, Eq, Structural, Debug)]
pub enum Color {
    White,
    Black,
}

impl Color {
    pub open spec fn spec_other(self) -> Color {
        match self {
            Color::White => Color::Black,
            Color::Black => Color::White,
        }
    }

    /// The opposing colour.
    pub fn other(&self) -> (r: Color)
        ensures
            r == self.spec_other(),
    {
        match self {
            Color::White => Color::Black,
            Color::Black => Color::White,
        }
    }
}

#[derive(Clone, Copy, PartialEq, Eq, Structural, Debug)]
pub enum PieceType {
    WPawn,
    WKnight,
    WBishop,
    WRook,
    WQueen,
    WKing,
    BPawn,
    BKnight,
    BBishop,
    BRook,
    BQueen,
    BKing,
}

/// The piece of kind `kind` (0 pawn, 1 knight, 2 bishop, 3 rook, 4 queen,
/// 5 king) and colour `color`.
pub open spec fn piece_of(kind: int, color: Color) -> PieceType {
    piece_at_index(kind + if color == Color::White {
        0int
    } else {
        6int
    })
}

/// The piece type whose bitboard has index `i` (0 to 11).
pub open spec fn piece_at_index(i: int) -> PieceType {
    if i == 0 {
        PieceType::WPawn
    } else if i == 1 {
        PieceType::WKnight
    } else if i == 2 {
        PieceType::WBishop
    } else if i == 3 {
        PieceType::WRook
    } else if i == 4 {
        PieceType::WQueen
    } else if i == 5 {
        PieceType::WKing
    } else if i == 6 {
        PieceType::BPawn
    } else if i == 7 {
        PieceType::BKnight
    } else if i == 8 {
        PieceType::BBishop
    } else if i == 9 {
        PieceType::BRook
    } else if i == 10 {
        PieceType::BQueen
    } else {
        PieceType::BKing
    }
}

impl PieceType {
    pub open spec fn spec_index(self) -> int {
        match self {
            PieceType::WPawn => 0,
            PieceType::WKnight => 1,
            PieceType::WBishop => 2,
            PieceType::WRook => 3,
            PieceType::WQueen => 4,
            PieceType::WKing => 5,
            PieceType::BPawn => 6,
            PieceType::BKnight => 7,
            PieceType::BBishop => 8,
            PieceType::BRook => 9,
            PieceType::BQueen => 10,
            PieceType::BKing => 11,
        }
    }

    pub open spec fn spec_kind(self) -> int {
        self.spec_index() % 6
    }

    pub open spec fn spec_color(self) -> Color {
        if self.spec_index() < 6 {
            Color::White
        } else {
            Color::Black
        }
    }

    /// The index of this piece type's bitboard.
    pub fn index(&self) -> (r: usize)
        ensures
            r == self.spec_index(),
            r < 12,
            piece_at_index(r as int) == *self,
    {
        match self {
            PieceType::WPawn => 0,
            PieceType::WKnight => 1,
            PieceType::WBishop => 2,
            PieceType::WRook => 3,
            PieceType::WQueen => 4,
            PieceType::WKing => 5,
            PieceType::BPawn => 6,
            PieceType::BKnight => 7,
            PieceType::BBishop => 8,
            PieceType::BRook => 9,
            PieceType::BQueen => 10,
            PieceType::BKing => 11,
        }
    }

    /// The piece type with bitboard index `i`.
    pub fn from_index(i: usize) -> (r: PieceType)
        requires
            i < 12,
        ensures
            r == piece_at_index(i as int),
            r.spec_index() == i,
    {
        if i == 0 {
            PieceType::WPawn
        } else if i == 1 {
            PieceType::WKnight
        } else if i == 2 {
            PieceType::WBishop
        } else if i == 3 {
            PieceType::WRook
        } else if i == 4 {
            PieceType::WQueen
        } else if i == 5 {
            PieceType::WKing
        } else if i == 6 {
            PieceType::BPawn
        } else if i == 7 {
            PieceType::BKnight
        } else if i == 8 {
            PieceType::BBishop
        } else if i == 9 {
            PieceType::BRook
        } else if i == 10 {
            PieceType::BQueen
        } else {
            PieceType::BKing
        }
    }

    /// The colour of this piece.
    pub fn color(&self) -> (r: Color)
        ensures
            r == self.spec_color(),
    {
        if self.index() < 6 {
            Color::White
        } else {
            Color::Black
        }
    }

    /// The kind of this piece: 0 pawn, 1 knight, 2 bishop, 3 rook, 4 queen, 5 king.
    pub fn kind(&self) -> (r: usize)
        ensures
            r == self.spec_kind(),
            r < 6,
    {
        self.index() % 6
    }

    /// The piece of the same kind as `base`, in colour `color`.
    pub fn from_color(base: PieceType, color: Color) -> (r: PieceType)
        ensures
            r == piece_of(base.spec_kind(), color),
            r.spec_kind() == base.spec_kind(),
            r.spec_color() == color,
    {
        let k = base.kind();
        match color {
            Color::White => PieceType::from_index(k),
            Color::Black => PieceType::from_index(k + 6),
        }
    }
}

} // verus!
