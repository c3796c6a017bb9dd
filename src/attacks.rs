//! Which squares a side attacks, read from the piece placement.
use vstd::prelude::*;
use crate::bitboard::{Square, file_of, rank_of, in_bounds};
use crate::board::Board;
use crate::geometry::{knight_offsets, king_offsets, rook_dirs, bishop_dirs, knight_offset_seq, king_offset_seq, rook_dir_seq, bishop_dir_seq};
use crate::piece::{Color, PieceType, piece_of};

verus! {

/// The piece on file `x`, rank `y`; none off the board.
pub open spec fn piece_on(pieces: Seq<Option<PieceType>>, x: int, y: int) -> Option<PieceType> {
    if in_bounds(x, y) {
        pieces[8 * y + x]
    } else {
        None
    }
}

/// The first piece met walking at most `n` steps from (`x`, `y`) in
/// direction (`dx`, `dy`).
pub open spec fn first_on_ray(pieces: Seq<Option<PieceType>>, x: int, y: int, dx: int, dy: int, n: nat) -> Option<PieceType>
    decreases n,
{
    if n == 0 || !in_bounds(x + dx, y + dy) {
        None
    } else if piece_on(pieces, x + dx, y + dy) is Some {
        piece_on(pieces, x + dx, y + dy)
    } else {
        first_on_ray(pieces, x + dx, y + dy, dx, dy, (n - 1) as nat)
    }
}

/// One of the first `n` offsets from (`x`, `y`) holds piece `p`.
pub open spec fn offset_holds(pieces: Seq<Option<PieceType>>, x: int, y: int, offs: Seq<(i8, i8)>, n: int, p: PieceType) -> bool
    decreases n,
{
    n > 0 && (offset_holds(pieces, x, y, offs, n - 1, p) || piece_on(
        pieces,
        x + offs[n - 1].0,
        y + offs[n - 1].1,
    ) == Some(p))
}

/// Along one of the first `n` directions, the first piece met is `a` or `b`.
pub open spec fn slider_hits(pieces: Seq<Option<PieceType>>, x: int, y: int, dirs: Seq<(i8, i8)>, n: int, a: PieceType, b: PieceType) -> bool
    decreases n,
{
    n > 0 && (slider_hits(pieces, x, y, dirs, n - 1, a, b) || {
        let f = first_on_ray(pieces, x, y, dirs[n - 1].0 as int, dirs[n - 1].1 as int, 7);
        f == Some(a) || f == Some(b)
    })
}

/// The rank step of `c`'s pawns.
pub open spec fn pawn_step(c: Color) -> int {
    if c == Color::White {
        1
    } else {
        -1
    }
}

/// Square `sq` is attacked by a piece of colour `by`.
pub open spec fn attacked(pieces: Seq<Option<PieceType>>, sq: int, by: Color) -> bool {
    let x = file_of(sq);
    let y = rank_of(sq);
    let pawn = Some(piece_of(0, by));
    ||| piece_on(pieces, x - 1, y - pawn_step(by)) == pawn
    ||| piece_on(pieces, x + 1, y - pawn_step(by)) == pawn
    ||| offset_holds(pieces, x, y, knight_offset_seq(), 8, piece_of(1, by))
    ||| offset_holds(pieces, x, y, king_offset_seq(), 8, piece_of(5, by))
    ||| slider_hits(pieces, x, y, rook_dir_seq(), 4, piece_of(3, by), piece_of(4, by))
    ||| slider_hits(pieces, x, y, bishop_dir_seq(), 4, piece_of(2, by), piece_of(4, by))
}

/// Every king of colour `c` stands on a square that `by` does not attack.
pub open spec fn king_safe(pieces: Seq<Option<PieceType>>, c: Color, by: Color) -> bool {
    forall|s: int| 0 <= s < 64 && pieces[s] == Some(piece_of(5, c)) ==> !attacked(pieces, s, by)
}

/// `o` holds piece `p`.
pub fn is_piece(o: Option<PieceType>, p: PieceType) -> (r: bool)
    ensures
        r == (o == Some(p)),
{
    match o {
        Some(q) => q == p,
        None => false,
    }
}

impl Board {
    /// The piece on file `x`, rank `y`; none off the board.
    pub fn piece_on(&self, x: i16, y: i16) -> (r: Option<PieceType>)
        requires
            self.piece_list.len() == 64,
        ensures
            r == piece_on(self.piece_list@, x as int, y as int),
    {
        if 0 <= x && x < 8 && 0 <= y && y < 8 {
            self.piece_list[(8 * y + x) as usize]
        } else {
            None
        }
    }

    fn first_on_ray(&self, x: i16, y: i16, dx: i8, dy: i8) -> (r: Option<PieceType>)
        requires
            self.piece_list.len() == 64,
            -1 <= dx <= 1,
            -1 <= dy <= 1,
            0 <= x < 8,
            0 <= y < 8,
        ensures
            r == first_on_ray(self.piece_list@, x as int, y as int, dx as int, dy as int, 7),
    {
        let mut cx = x;
        let mut cy = y;
        let mut k: u8 = 0;
        while k < 7
            invariant
                self.piece_list.len() == 64,
                -1 <= dx <= 1,
                -1 <= dy <= 1,
                0 <= cx < 8,
                0 <= cy < 8,
                k <= 7,
                first_on_ray(self.piece_list@, x as int, y as int, dx as int, dy as int, 7)
                    == first_on_ray(self.piece_list@, cx as int, cy as int, dx as int, dy as int, (7 - k) as nat),
            decreases 7 - k,
        {
            let nx = cx + dx as i16;
            let ny = cy + dy as i16;
            if !(0 <= nx && nx < 8 && 0 <= ny && ny < 8) {
                return None;
            }
            let here = self.piece_on(nx, ny);
            if here.is_some() {
                return here;
            }
            cx = nx;
            cy = ny;
            k += 1;
        }
        None
    }

    fn offset_holds(&self, x: i16, y: i16, offs: [(i8, i8); 8], p: PieceType) -> (r: bool)
        requires
            self.piece_list.len() == 64,
            0 <= x < 8,
            0 <= y < 8,
        ensures
            r == offset_holds(self.piece_list@, x as int, y as int, offs@, 8, p),
    {
        let mut acc = false;
        let mut j: usize = 0;
        while j < 8
            invariant
                self.piece_list.len() == 64,
                0 <= x < 8,
                0 <= y < 8,
                j <= 8,
                acc == offset_holds(self.piece_list@, x as int, y as int, offs@, j as int, p),
            decreases 8 - j,
        {
            let (dx, dy) = offs[j];
            let here = self.piece_on(x + dx as i16, y + dy as i16);
            acc = acc || is_piece(here, p);
            j += 1;
        }
        acc
    }

    fn slider_hits(&self, x: i16, y: i16, dirs: [(i8, i8); 4], a: PieceType, b: PieceType) -> (r: bool)
        requires
            self.piece_list.len() == 64,
            0 <= x < 8,
            0 <= y < 8,
            forall|d: int| 0 <= d < 4 ==> -1 <= #[trigger] dirs@[d].0 <= 1 && -1 <= dirs@[d].1 <= 1,
        ensures
            r == slider_hits(self.piece_list@, x as int, y as int, dirs@, 4, a, b),
    {
        let mut acc = false;
        let mut j: usize = 0;
        while j < 4
            invariant
                self.piece_list.len() == 64,
                0 <= x < 8,
                0 <= y < 8,
                forall|d: int| 0 <= d < 4 ==> -1 <= #[trigger] dirs@[d].0 <= 1 && -1 <= dirs@[d].1 <= 1,
                j <= 4,
                acc == slider_hits(self.piece_list@, x as int, y as int, dirs@, j as int, a, b),
            decreases 4 - j,
        {
            let (dx, dy) = dirs[j];
            assert(-1 <= dirs@[j as int].0 <= 1);
            let f = self.first_on_ray(x, y, dx, dy);
            acc = acc || is_piece(f, a) || is_piece(f, b);
            j += 1;
        }
        acc
    }

    /// Square `sq` is attacked by a piece of colour `by`.
    pub fn is_attacked(&self, sq: Square, by: Color) -> (r: bool)
        requires
            self.piece_list.len() == 64,
            sq < 64,
        ensures
            r == attacked(self.piece_list@, sq as int, by),
    {
        let x = (sq % 8) as i16;
        let y = (sq / 8) as i16;
        let back: i16 = match by {
            Color::White => -1,
            Color::Black => 1,
        };
        let pawn = PieceType::from_color(PieceType::WPawn, by);
        let knight = PieceType::from_color(PieceType::WKnight, by);
        let bishop = PieceType::from_color(PieceType::WBishop, by);
        let rook = PieceType::from_color(PieceType::WRook, by);
        let queen = PieceType::from_color(PieceType::WQueen, by);
        let king = PieceType::from_color(PieceType::WKing, by);
        is_piece(self.piece_on(x - 1, y + back), pawn) || is_piece(self.piece_on(x + 1, y + back), pawn)
            || self.offset_holds(x, y, knight_offsets(), knight) || self.offset_holds(
            x,
            y,
            king_offsets(),
            king,
        ) || self.slider_hits(x, y, rook_dirs(), rook, queen) || self.slider_hits(
            x,
            y,
            bishop_dirs(),
            bishop,
            queen,
        )
    }

    /// Every king of colour `c` stands on a square that `by` does not attack.
    pub fn king_safe(&self, c: Color, by: Color) -> (r: bool)
        requires
            self.piece_list.len() == 64,
        ensures
            r == king_safe(self.piece_list@, c, by),
    {
        let king = PieceType::from_color(PieceType::WKing, c);
        let mut s: usize = 0;
        while s < 64
            invariant
                self.piece_list.len() == 64,
                king == piece_of(5, c),
                s <= 64,
                forall|t: int|
                    0 <= t < s && self.piece_list@[t] == Some(piece_of(5, c)) ==> !attacked(
                        self.piece_list@,
                        t,
                        by,
                    ),
            decreases 64 - s,
        {
            if is_piece(self.piece_list[s], king) && self.is_attacked(s as u8, by) {
                return false;
            }
            s += 1;
        }
        true
    }

    /// The side to move's king is attacked.
    pub fn in_check(&self) -> (r: bool)
        requires
            self.wf(),
        ensures
            r == (self.gs.playing_king_square < 64 && attacked(
                self.piece_list@,
                self.gs.playing_king_square as int,
                self.gs.opponent_color,
            )),
    {
        let ks = self.gs.playing_king_square;
        ks < 64 && self.is_attacked(ks, self.gs.opponent_color)
    }
}

} // verus!
