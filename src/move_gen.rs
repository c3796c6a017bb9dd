//! Legal move generation: pseudo-legal candidates, then a filter that
//! applies each candidate and rejects those leaving the mover's king attacked.
use vstd::prelude::*;
use crate::attacks::{attacked, king_safe, is_piece, pawn_step, piece_on};
use crate::bitboard::{Bitboard, has_sq, file_of, rank_of, in_bounds, lemma_empty};
use crate::board::{Board, GameState, move_fits, apply_pieces, kind_of, ep_victim};
use crate::castling_flags::{WHITE_KING_SIDE, WHITE_QUEEN_SIDE, BLACK_KING_SIDE, BLACK_QUEEN_SIDE};
use crate::chess_move::{Move, CAPTURE, DOUBLE_PAWN_PUSH, EN_PASSANT, KING_CASTLE, QUEEN_CASTLE};
use crate::geometry::{steps, on_ray, strictly_between, precompute_slider_rays, merge_slider_rays, precompute_between_bitboards, precompute_direct_piece_moves, knight_offsets, king_offsets, rook_dirs, bishop_dirs, leaps_to, knight_offset_seq, king_offset_seq, rook_dir_seq, bishop_dir_seq};
use crate::piece::{Color, PieceType, piece_of};

verus! {

/// The most legal moves that any legal chess position has.
pub const MAX_MOVE_COUNT: usize = 218;

/// The geometry tables, computed once and shared read-only: leaper moves,
/// merged slider moves (full and without the edge square), and the squares
/// between two aligned squares.
pub struct Tables {
    pub knight_moves: Vec<Bitboard>,
    pub king_moves: Vec<Bitboard>,
    pub rook_moves: Vec<Bitboard>,
    pub bishop_moves: Vec<Bitboard>,
    pub rook_moves_no_border: Vec<Bitboard>,
    pub bishop_moves_no_border: Vec<Bitboard>,
    pub between: Vec<Vec<Bitboard>>,
}

/// `t` is on one of the four rays from `s` along `dirs`.
pub open spec fn on_some_ray(s: int, dirs: Seq<(i8, i8)>, no_border: bool, t: int) -> bool {
    ||| on_ray(s, dirs[0].0 as int, dirs[0].1 as int, no_border, t)
    ||| on_ray(s, dirs[1].0 as int, dirs[1].1 as int, no_border, t)
    ||| on_ray(s, dirs[2].0 as int, dirs[2].1 as int, no_border, t)
    ||| on_ray(s, dirs[3].0 as int, dirs[3].1 as int, no_border, t)
}

/// `table` holds, for each square, the squares on its rays along `dirs`.
pub open spec fn slider_table(table: Seq<Bitboard>, dirs: Seq<(i8, i8)>, no_border: bool) -> bool {
    &&& table.len() == 64
    &&& forall|s: int, t: u64|
        0 <= s < 64 && t < 64 ==> (#[trigger] has_sq(table[s], t) <==> on_some_ray(s, dirs, no_border, t as int))
}

/// `table` holds, for each square, the squares that the offsets reach.
pub open spec fn leaper_table(table: Seq<Bitboard>, offsets: Seq<(i8, i8)>) -> bool {
    &&& table.len() == 64
    &&& forall|s: int, t: u64|
        0 <= s < 64 && t < 64 ==> (#[trigger] has_sq(table[s], t) <==> leaps_to(offsets, 8, s, t as int))
}

fn slider_moves(dirs: [(i8, i8); 4], no_border: bool) -> (table: Vec<Bitboard>)
    requires
        dirs@ == rook_dir_seq() || dirs@ == bishop_dir_seq(),
    ensures
        slider_table(table@, dirs@, no_border),
{
    let rays = precompute_slider_rays(dirs, no_border);
    merge_slider_rays(&rays)
}

impl Tables {
    pub open spec fn wf(&self) -> bool {
        &&& leaper_table(self.knight_moves@, knight_offset_seq())
        &&& leaper_table(self.king_moves@, king_offset_seq())
        &&& slider_table(self.rook_moves@, rook_dir_seq(), false)
        &&& slider_table(self.bishop_moves@, bishop_dir_seq(), false)
        &&& slider_table(self.rook_moves_no_border@, rook_dir_seq(), true)
        &&& slider_table(self.bishop_moves_no_border@, bishop_dir_seq(), true)
        &&& self.between.len() == 64
        &&& forall|a: int| 0 <= a < 64 ==> (#[trigger] self.between[a]).len() == 64
        &&& forall|a: int, b: int, t: u64|
            0 <= a < 64 && 0 <= b < 64 && t < 64 ==> (#[trigger] has_sq(self.between[a][b], t)
                <==> strictly_between(a, b, t as int))
    }

    /// Computes every table.
    pub fn new() -> (t: Tables)
        ensures
            t.wf(),
    {
        Tables {
            knight_moves: precompute_direct_piece_moves(knight_offsets()),
            king_moves: precompute_direct_piece_moves(king_offsets()),
            rook_moves: slider_moves(rook_dirs(), false),
            bishop_moves: slider_moves(bishop_dirs(), false),
            rook_moves_no_border: slider_moves(rook_dirs(), true),
            bishop_moves_no_border: slider_moves(bishop_dirs(), true),
            between: precompute_between_bitboards(),
        }
    }
}

/// A castle passes only over squares that the opponent does not attack:
/// the king's start, the square it crosses and its destination.
pub open spec fn castle_safe(pieces: Seq<Option<PieceType>>, gs: GameState, m: Move) -> bool {
    let from = m.from as int;
    let castling = pieces[m.to as int] is None && kind_of(pieces[from]) == 5;
    &&& (castling && m.has(QUEEN_CASTLE)) ==> {
        &&& !attacked(pieces, from, gs.opponent_color)
        &&& !attacked(pieces, from - 1, gs.opponent_color)
        &&& !attacked(pieces, from - 2, gs.opponent_color)
    }
    &&& (castling && !m.has(QUEEN_CASTLE) && m.has(KING_CASTLE)) ==> {
        &&& !attacked(pieces, from, gs.opponent_color)
        &&& !attacked(pieces, from + 1, gs.opponent_color)
        &&& !attacked(pieces, from + 2, gs.opponent_color)
    }
}

/// What holds of every generated candidate.
pub open spec fn candidate(pieces: Seq<Option<PieceType>>, gs: GameState, m: Move) -> bool {
    move_fits(pieces, gs, m) && castle_safe(pieces, gs, m)
}

/// What holds of every generated legal move: a candidate after which no king
/// of the mover is attacked.
pub open spec fn legal(pieces: Seq<Option<PieceType>>, gs: GameState, m: Move) -> bool {
    candidate(pieces, gs, m) && king_safe(
        apply_pieces(pieces, gs, m),
        gs.player_to_move,
        gs.opponent_color,
    )
}

/// Square `t` is empty or holds an enemy piece.
pub open spec fn lands_ok(pieces: Seq<Option<PieceType>>, gs: GameState, t: int) -> bool {
    pieces[t] is None || pieces[t].unwrap().spec_color() == gs.opponent_color
}

/// The flags of an ordinary move onto `t`: a capture when `t` is occupied.
pub open spec fn plain_flags(pieces: Seq<Option<PieceType>>, t: int) -> u8 {
    if pieces[t] is Some {
        CAPTURE
    } else {
        0
    }
}

/// `m` is an ordinary move from `s` onto a square of `targets`.
pub open spec fn table_move(pieces: Seq<Option<PieceType>>, gs: GameState, targets: u64, s: int, m: Move) -> bool {
    &&& m.from == s
    &&& m.to < 64
    &&& m.to != s
    &&& has_sq(targets, m.to as u64)
    &&& lands_ok(pieces, gs, m.to as int)
    &&& m.flags == plain_flags(pieces, m.to as int)
}

/// `m` castles the king on `s`: the right is held, the squares between
/// king and rook are empty, the rook is at home, and the king's square, the
/// square it crosses and its destination are not attacked.
pub open spec fn castle_move(pieces: Seq<Option<PieceType>>, gs: GameState, s: int, m: Move) -> bool {
    let white = gs.player_to_move == Color::White;
    let home: int = if white {
        4
    } else {
        60
    };
    let kf = if white {
        WHITE_KING_SIDE
    } else {
        BLACK_KING_SIDE
    };
    let qf = if white {
        WHITE_QUEEN_SIDE
    } else {
        BLACK_QUEEN_SIDE
    };
    let rook = Some(piece_of(3, gs.player_to_move));
    let opp = gs.opponent_color;
    &&& m.from == s
    &&& s == home
    &&& {
        ||| {
            &&& m.to == s + 2
            &&& m.flags == KING_CASTLE
            &&& gs.castling_rights.bits & kf == kf
            &&& pieces[s + 1] is None
            &&& pieces[s + 2] is None
            &&& pieces[s + 3] == rook
            &&& !attacked(pieces, s, opp)
            &&& !attacked(pieces, s + 1, opp)
            &&& !attacked(pieces, s + 2, opp)
        }
        ||| {
            &&& m.to == s - 2
            &&& m.flags == QUEEN_CASTLE
            &&& gs.castling_rights.bits & qf == qf
            &&& pieces[s - 1] is None
            &&& pieces[s - 2] is None
            &&& pieces[s - 3] is None
            &&& pieces[s - 4] == rook
            &&& !attacked(pieces, s, opp)
            &&& !attacked(pieces, s - 1, opp)
            &&& !attacked(pieces, s - 2, opp)
        }
    }
}

/// `m` is one of the promotions of the pawn on `s` onto `t`, with the
/// further flags `f`.
pub open spec fn promotion_onto(s: int, t: int, f: u8, m: Move) -> bool {
    &&& m.from == s
    &&& m.to == t
    &&& 1 <= m.spec_promotion() <= 4
    &&& m.flags == f | (m.spec_promotion() << 5u8)
}

/// `m` takes the pawn on `s` onto `t` with flags `f`: one of the four
/// promotions when `t` is on the last rank, the plain move otherwise.
pub open spec fn pawn_onto(s: int, t: int, f: u8, last: bool, m: Move) -> bool {
    if last {
        promotion_onto(s, t, f, m)
    } else {
        m == (Move { from: s as u8, to: t as u8, flags: f })
    }
}

/// `m` is a capture of the pawn on `s` onto file `tx` of rank `fy`: an
/// enemy piece stands there, or it is the en-passant target with the enemy
/// pawn behind it.
pub open spec fn pawn_capture_move(pieces: Seq<Option<PieceType>>, gs: GameState, s: int, tx: int, fy: int, last: bool, m: Move) -> bool {
    let t = 8 * fy + tx;
    &&& 0 <= tx < 8
    &&& {
        ||| {
            &&& pieces[t] is Some
            &&& pieces[t].unwrap().spec_color() == gs.opponent_color
            &&& pawn_onto(s, t, CAPTURE, last, m)
        }
        ||| {
            &&& pieces[t] is None
            &&& has_sq(gs.en_passant_mask, t as u64)
            &&& ep_victim(t as u8) != s
            &&& pieces[ep_victim(t as u8)] == Some(piece_of(0, gs.opponent_color))
            &&& m == (Move { from: s as u8, to: t as u8, flags: EN_PASSANT })
        }
    }
}

/// `m` is a move of the side to move's pawn on `s`: a push onto the empty
/// square ahead, a double push from the starting rank over two empty
/// squares, or a capture; a move onto the last rank is one of four
/// promotions.
pub open spec fn pawn_move(pieces: Seq<Option<PieceType>>, gs: GameState, s: int, m: Move) -> bool {
    let white = gs.player_to_move == Color::White;
    let x = file_of(s);
    let y = rank_of(s);
    let step = pawn_step(gs.player_to_move);
    let fy = y + step;
    let last = fy == if white {
        7int
    } else {
        0int
    };
    let one = 8 * fy + x;
    let two = one + 8 * step;
    let start: int = if white {
        1
    } else {
        6
    };
    &&& 0 <= fy < 8
    &&& {
        ||| pieces[one] is None && pawn_onto(s, one, 0, last, m)
        ||| {
            &&& pieces[one] is None
            &&& !last
            &&& y == start
            &&& pieces[two] is None
            &&& m == (Move { from: s as u8, to: two as u8, flags: DOUBLE_PAWN_PUSH })
        }
        ||| pawn_capture_move(pieces, gs, s, x - 1, fy, last, m)
        ||| pawn_capture_move(pieces, gs, s, x + 1, fy, last, m)
    }
}

/// The squares before the `j`-th along the ray from (`x0`, `y0`) in
/// direction (`dx`, `dy`) are on the board and empty.
pub open spec fn path_clear(pieces: Seq<Option<PieceType>>, x0: int, y0: int, dx: int, dy: int, j: int) -> bool
    decreases j,
{
    if j <= 1 {
        true
    } else {
        &&& path_clear(pieces, x0, y0, dx, dy, j - 1)
        &&& in_bounds(x0 + steps(j - 1, dx), y0 + steps(j - 1, dy))
        &&& piece_on(pieces, x0 + steps(j - 1, dx), y0 + steps(j - 1, dy)) is None
    }
}

/// A slider on (`x0`, `y0`) reaches `t` as the `j`-th square of the ray.
pub open spec fn slide_hit(pieces: Seq<Option<PieceType>>, x0: int, y0: int, dx: int, dy: int, j: int, t: int) -> bool {
    &&& path_clear(pieces, x0, y0, dx, dy, j)
    &&& in_bounds(x0 + steps(j, dx), y0 + steps(j, dy))
    &&& t == 8 * (y0 + steps(j, dy)) + x0 + steps(j, dx)
}

/// A slider reaches `t` within `n` squares of the ray.
pub open spec fn slides_upto(pieces: Seq<Option<PieceType>>, x0: int, y0: int, dx: int, dy: int, n: int, t: int) -> bool
    decreases n,
{
    n > 0 && (slides_upto(pieces, x0, y0, dx, dy, n - 1, t) || slide_hit(pieces, x0, y0, dx, dy, n, t))
}

/// A slider on `s` reaches `t` along one of the first `n` directions.
pub open spec fn slides_along(pieces: Seq<Option<PieceType>>, s: int, dirs: Seq<(i8, i8)>, n: int, t: int) -> bool
    decreases n,
{
    n > 0 && (slides_along(pieces, s, dirs, n - 1, t) || slides_upto(
        pieces,
        file_of(s),
        rank_of(s),
        dirs[n - 1].0 as int,
        dirs[n - 1].1 as int,
        7,
        t,
    ))
}

/// `m` is a move of the slider on `s` along `dirs` onto a square it reaches,
/// empty or held by an enemy.
pub open spec fn slider_move(pieces: Seq<Option<PieceType>>, gs: GameState, s: int, dirs: Seq<(i8, i8)>, m: Move) -> bool {
    &&& m.from == s
    &&& m.to < 64
    &&& m.to != s
    &&& slides_along(pieces, s, dirs, 4, m.to as int)
    &&& lands_ok(pieces, gs, m.to as int)
    &&& m.flags == plain_flags(pieces, m.to as int)
}

proof fn lemma_path_blocked(pieces: Seq<Option<PieceType>>, x0: int, y0: int, dx: int, dy: int, a: int, j: int)
    requires
        !path_clear(pieces, x0, y0, dx, dy, a),
        a <= j,
    ensures
        !path_clear(pieces, x0, y0, dx, dy, j),
    decreases j - a,
{
    if a < j {
        lemma_path_blocked(pieces, x0, y0, dx, dy, a, j - 1);
    }
}

proof fn lemma_slides_stable(pieces: Seq<Option<PieceType>>, x0: int, y0: int, dx: int, dy: int, k: int, n: int, t: int)
    requires
        0 <= k <= n,
        forall|j: int| k < j <= n ==> !#[trigger] slide_hit(pieces, x0, y0, dx, dy, j, t),
    ensures
        slides_upto(pieces, x0, y0, dx, dy, n, t) == slides_upto(pieces, x0, y0, dx, dy, k, t),
    decreases n - k,
{
    if k < n {
        lemma_slides_stable(pieces, x0, y0, dx, dy, k, n - 1, t);
    }
}

/// `m` is an ordinary move of the leaper on `s` with offsets `offsets`.
pub open spec fn leaper_move(pieces: Seq<Option<PieceType>>, gs: GameState, offsets: Seq<(i8, i8)>, s: int, m: Move) -> bool {
    &&& m.from == s
    &&& m.to < 64
    &&& m.to != s
    &&& leaps_to(offsets, 8, s, m.to as int)
    &&& lands_ok(pieces, gs, m.to as int)
    &&& m.flags == plain_flags(pieces, m.to as int)
}

/// `m` is a pseudo-legal move: a move of a piece of the side to move by its
/// own rule, before testing whether it leaves the mover's king attacked.
pub open spec fn pseudo_legal(pieces: Seq<Option<PieceType>>, gs: GameState, m: Move) -> bool {
    let s = m.from as int;
    let p = pieces[s];
    let kind = p.unwrap().spec_kind();
    &&& 0 <= s < 64
    &&& p is Some
    &&& p.unwrap().spec_color() == gs.player_to_move
    &&& if kind == 0 {
        pawn_move(pieces, gs, s, m)
    } else if kind == 1 {
        leaper_move(pieces, gs, knight_offset_seq(), s, m)
    } else if kind == 2 {
        slider_move(pieces, gs, s, bishop_dir_seq(), m)
    } else if kind == 3 {
        slider_move(pieces, gs, s, rook_dir_seq(), m)
    } else if kind == 4 {
        slider_move(pieces, gs, s, rook_dir_seq(), m) || slider_move(pieces, gs, s, bishop_dir_seq(), m)
    } else {
        leaper_move(pieces, gs, king_offset_seq(), s, m) || castle_move(pieces, gs, s, m)
    }
}

/// `v` holds `m`.
pub fn contains_move(v: &Vec<Move>, m: Move) -> (r: bool)
    ensures
        r == v@.contains(m),
{
    let mut i: usize = 0;
    while i < v.len()
        invariant
            i <= v.len(),
            forall|k: int| 0 <= k < i ==> v@[k] != m,
        decreases v.len() - i,
    {
        if v[i] == m {
            return true;
        }
        i += 1;
    }
    false
}

pub open spec fn all_candidates(b: &Board, moves: Seq<Move>) -> bool {
    &&& moves.no_duplicates()
    &&& forall|i: int| 0 <= i < moves.len() ==> candidate(b.piece_list@, b.gs, #[trigger] moves[i])
}

impl Board {
    /// Square `t` is empty or holds an enemy piece.
    fn can_land(&self, t: usize) -> (r: bool)
        requires
            self.wf(),
            t < 64,
        ensures
            r == (self.piece_list@[t as int] is None || self.piece_list@[t as int].unwrap().spec_color()
                == self.gs.opponent_color),
    {
        match self.piece_list[t] {
            None => true,
            Some(q) => q.color() == self.gs.opponent_color,
        }
    }

    fn flags_for(&self, t: usize) -> (r: u8)
        requires
            self.wf(),
            t < 64,
        ensures
            self.piece_list@[t as int] is None ==> r == 0,
            self.piece_list@[t as int] is Some ==> r == CAPTURE,
    {
        if self.piece_list[t].is_some() {
            CAPTURE
        } else {
            0
        }
    }

    /// Adds `m` to `moves` unless it is there already.
    fn push_candidate(&self, moves: &mut Vec<Move>, m: Move)
        requires
            all_candidates(self, old(moves)@),
            candidate(self.piece_list@, self.gs, m),
        ensures
            all_candidates(self, final(moves)@),
            forall|x: Move| #[trigger] final(moves)@.contains(x) <==> (old(moves)@.contains(x) || x == m),
    {
        let ghost start = moves@;
        if contains_move(moves, m) {
            return;
        }
        moves.push(m);
        proof {
            assert forall|a: int, b: int| 0 <= a < b < moves@.len() implies moves@[a] != moves@[b] by {
                if b == moves@.len() - 1 {
                    assert(start[a] == moves@[a]);
                } else {
                    assert(start[a] == moves@[a] && start[b] == moves@[b]);
                }
            }
            assert forall|x: Move| #[trigger] moves@.contains(x) <==> (start.contains(x) || x == m) by {
                if moves@.contains(x) {
                    let k = choose|k: int| 0 <= k < moves@.len() && moves@[k] == x;
                    if k < start.len() {
                        assert(start[k] == x);
                    }
                }
                if start.contains(x) {
                    let k = choose|k: int| 0 <= k < start.len() && start[k] == x;
                    assert(moves@[k] == x);
                }
                if x == m {
                    assert(moves@[moves@.len() - 1] == m);
                }
            }
        }
    }

    /// Knight or king moves from `s`, read from its table entry `targets`.
    fn gen_leaper(&self, s: usize, targets: Bitboard, moves: &mut Vec<Move>)
        requires
            self.wf(),
            s < 64,
            self.piece_list@[s as int] is Some,
            self.piece_list@[s as int].unwrap().spec_color() == self.gs.player_to_move,
            all_candidates(self, old(moves)@),
        ensures
            all_candidates(self, final(moves)@),
            forall|x: Move| #[trigger] final(moves)@.contains(x) <==> (old(moves)@.contains(x) || table_move(
                self.piece_list@,
                self.gs,
                targets,
                s as int,
                x,
            )),
    {
        let ghost start = moves@;
        let mut t: usize = 0;
        while t < 64
            invariant
                self.wf(),
                s < 64,
                self.piece_list@[s as int] is Some,
                self.piece_list@[s as int].unwrap().spec_color() == self.gs.player_to_move,
                all_candidates(self, moves@),
                t <= 64,
                forall|x: Move| #[trigger] moves@.contains(x) <==> (start.contains(x) || (table_move(
                    self.piece_list@,
                    self.gs,
                    targets,
                    s as int,
                    x,
                ) && x.to < t)),
            decreases 64 - t,
        {
            if (targets >> (t as u64)) & 1 == 1 && t != s && self.can_land(t) {
                let m = Move::new(s as u8, t as u8, self.flags_for(t));
                self.push_candidate(moves, m);
            }
            t += 1;
        }
    }

    /// Rook, bishop or queen moves from `s` along `dirs`: each ray runs to
    /// the first occupied square, which is taken only when it holds an enemy.
    fn gen_slider(&self, s: usize, dirs: [(i8, i8); 4], moves: &mut Vec<Move>)
        requires
            self.wf(),
            s < 64,
            self.piece_list@[s as int] is Some,
            self.piece_list@[s as int].unwrap().spec_color() == self.gs.player_to_move,
            forall|d: int| 0 <= d < 4 ==> -1 <= #[trigger] dirs@[d].0 <= 1 && -1 <= dirs@[d].1 <= 1,
            all_candidates(self, old(moves)@),
        ensures
            all_candidates(self, final(moves)@),
            forall|x: Move| #[trigger] final(moves)@.contains(x) <==> (old(moves)@.contains(x)
                || slider_move(self.piece_list@, self.gs, s as int, dirs@, x)),
    {
        let ghost pieces = self.piece_list@;
        let ghost gs = self.gs;
        let ghost start = moves@;
        let x0 = (s % 8) as i16;
        let y0 = (s / 8) as i16;
        let mut d: usize = 0;
        while d < 4
            invariant
                self.wf(),
                pieces == self.piece_list@,
                gs == self.gs,
                s < 64,
                self.piece_list@[s as int] is Some,
                self.piece_list@[s as int].unwrap().spec_color() == self.gs.player_to_move,
                forall|d: int| 0 <= d < 4 ==> -1 <= #[trigger] dirs@[d].0 <= 1 && -1 <= dirs@[d].1 <= 1,
                all_candidates(self, moves@),
                x0 == file_of(s as int),
                y0 == rank_of(s as int),
                d <= 4,
                forall|x: Move| #[trigger] moves@.contains(x) <==> (start.contains(x) || (x.from == s
                    && x.to < 64 && x.to != s && slides_along(pieces, s as int, dirs@, d as int, x.to as int)
                    && lands_ok(pieces, gs, x.to as int) && x.flags == plain_flags(pieces, x.to as int))),
            decreases 4 - d,
        {
            let (dx, dy) = dirs[d];
            assert(-1 <= dirs@[d as int].0 <= 1 && -1 <= dirs@[d as int].1 <= 1);
            let ghost start_d = moves@;
            let mut cx = x0;
            let mut cy = y0;
            let mut k: u8 = 0;
            let mut blocked = false;
            while k < 7 && !blocked
                invariant
                    self.wf(),
                    pieces == self.piece_list@,
                    gs == self.gs,
                    s < 64,
                    self.piece_list@[s as int] is Some,
                    self.piece_list@[s as int].unwrap().spec_color() == self.gs.player_to_move,
                    all_candidates(self, moves@),
                    -1 <= dx <= 1,
                    -1 <= dy <= 1,
                    x0 == file_of(s as int),
                    y0 == rank_of(s as int),
                    !blocked ==> cx == x0 + steps(k as int, dx as int),
                    !blocked ==> cy == y0 + steps(k as int, dy as int),
                    0 <= cx < 8,
                    0 <= cy < 8,
                    k <= 7,
                    !blocked ==> path_clear(pieces, x0 as int, y0 as int, dx as int, dy as int, k + 1),
                    blocked ==> forall|j: int, t: int|
                        k < j <= 7 ==> !#[trigger] slide_hit(pieces, x0 as int, y0 as int, dx as int, dy as int, j, t),
                    forall|x: Move| #[trigger] moves@.contains(x) <==> (start_d.contains(x) || (x.from == s
                        && x.to < 64 && x.to != s && slides_upto(pieces, x0 as int, y0 as int, dx as int, dy as int, k as int, x.to as int)
                        && lands_ok(pieces, gs, x.to as int) && x.flags == plain_flags(pieces, x.to as int))),
                decreases 7 - k,
            {
                let nx = cx + dx as i16;
                let ny = cy + dy as i16;
                k += 1;
                if !(0 <= nx && nx < 8 && 0 <= ny && ny < 8) {
                    blocked = true;
                    proof {
                        assert forall|j: int, t: int| k - 1 < j <= 7 implies !#[trigger] slide_hit(pieces, x0 as int, y0 as int, dx as int, dy as int, j, t) by {
                            assert(!in_bounds(x0 + steps(j, dx as int), y0 + steps(j, dy as int)));
                        }
                    }
                } else {
                    cx = nx;
                    cy = ny;
                    let t = (8 * cy + cx) as usize;
                    let ghost before = moves@;
                    if t == s {
                        blocked = true;
                    } else {
                        match self.piece_list[t] {
                            None => {
                                self.push_candidate(moves, Move::new(s as u8, t as u8, 0));
                            },
                            Some(q) => {
                                if q.color() == self.gs.opponent_color {
                                    self.push_candidate(moves, Move::new(s as u8, t as u8, CAPTURE));
                                }
                                blocked = true;
                            },
                        }
                    }
                    proof {
                        if blocked {
                            assert(!path_clear(pieces, x0 as int, y0 as int, dx as int, dy as int, k + 1));
                            assert forall|j: int, tt: int| k < j <= 7 implies !#[trigger] slide_hit(pieces, x0 as int, y0 as int, dx as int, dy as int, j, tt) by {
                                lemma_path_blocked(pieces, x0 as int, y0 as int, dx as int, dy as int, k + 1, j);
                            }
                        }
                    }
                }
            }
            proof {
                assert forall|x: Move| #[trigger] moves@.contains(x) <==> (start.contains(x) || (x.from == s
                    && x.to < 64 && x.to != s && slides_along(pieces, s as int, dirs@, d + 1, x.to as int)
                    && lands_ok(pieces, gs, x.to as int) && x.flags == plain_flags(pieces, x.to as int))) by {
                    if !blocked {
                        assert(k == 7);
                    } else {
                        lemma_slides_stable(pieces, x0 as int, y0 as int, dx as int, dy as int, k as int, 7, x.to as int);
                    }
                }
            }
            d += 1;
        }
    }

    /// The four promotions of the pawn on `s` arriving on `t`.
    fn push_promotions(&self, s: usize, t: usize, flags: u8, moves: &mut Vec<Move>)
        requires
            self.wf(),
            s < 64,
            t < 64,
            s != t,
            self.piece_list@[s as int] == Some(piece_of(0, self.gs.player_to_move)),
            self.piece_list@[t as int] is None ==> flags == 0,
            self.piece_list@[t as int] is Some ==> flags == CAPTURE
                && self.piece_list@[t as int].unwrap().spec_color() == self.gs.opponent_color,
            all_candidates(self, old(moves)@),
        ensures
            all_candidates(self, final(moves)@),
            forall|x: Move| #[trigger] final(moves)@.contains(x) <==> (old(moves)@.contains(x)
                || promotion_onto(s as int, t as int, flags, x)),
    {
        let ghost start = moves@;
        let mut kind: u8 = 1;
        while kind <= 4
            invariant
                self.wf(),
                s < 64,
                t < 64,
                s != t,
                self.piece_list@[s as int] == Some(piece_of(0, self.gs.player_to_move)),
                self.piece_list@[t as int] is None ==> flags == 0,
                self.piece_list@[t as int] is Some ==> flags == CAPTURE
                    && self.piece_list@[t as int].unwrap().spec_color() == self.gs.opponent_color,
                all_candidates(self, moves@),
                1 <= kind <= 5,
                forall|x: Move| #[trigger] moves@.contains(x) <==> (start.contains(x) || (promotion_onto(
                    s as int,
                    t as int,
                    flags,
                    x,
                ) && x.spec_promotion() < kind)),
            decreases 5 - kind,
        {
            let m = Move::new_promotion(s as u8, t as u8, kind, flags);
            self.push_candidate(moves, m);
            kind += 1;
        }
    }

    /// A pawn capture from `s` towards file `tx` on rank `fy`, en passant
    /// included.
    fn gen_pawn_capture(&self, s: usize, tx: i16, fy: i16, last: bool, moves: &mut Vec<Move>)
        requires
            self.wf(),
            s < 64,
            0 <= fy < 8,
            fy != (s / 8) as int,
            -1 <= tx <= 8,
            self.piece_list@[s as int] == Some(piece_of(0, self.gs.player_to_move)),
            all_candidates(self, old(moves)@),
        ensures
            all_candidates(self, final(moves)@),
            forall|x: Move| #[trigger] final(moves)@.contains(x) <==> (old(moves)@.contains(x)
                || pawn_capture_move(self.piece_list@, self.gs, s as int, tx as int, fy as int, last, x)),
    {
        if 0 <= tx && tx < 8 {
            let t = (8 * fy + tx) as usize;
            match self.piece_list[t] {
                Some(q) => {
                    if q.color() == self.gs.opponent_color {
                        if last {
                            self.push_promotions(s, t, CAPTURE, moves);
                        } else {
                            self.push_candidate(moves, Move::new(s as u8, t as u8, CAPTURE));
                        }
                    }
                },
                None => {
                    if (self.gs.en_passant_mask >> (t as u64)) & 1 == 1 {
                        let v = (t as u8) ^ 8u8;
                        proof {
                            crate::board::lemma_ep_victim(t as u8);
                        }
                        let victim = PieceType::from_color(PieceType::WPawn, self.gs.opponent_color);
                        if v as usize != s && is_piece(self.piece_list[v as usize], victim) {
                            self.push_candidate(moves, Move::new(s as u8, t as u8, EN_PASSANT));
                        }
                    }
                },
            }
        }
    }

    /// Pushes, double pushes, captures, en passant and promotions of the
    /// pawn on `s`.
    fn gen_pawn(&self, s: usize, moves: &mut Vec<Move>)
        requires
            self.wf(),
            s < 64,
            self.piece_list@[s as int] == Some(piece_of(0, self.gs.player_to_move)),
            all_candidates(self, old(moves)@),
        ensures
            all_candidates(self, final(moves)@),
            forall|m: Move| #[trigger] final(moves)@.contains(m) <==> (old(moves)@.contains(m)
                || pawn_move(self.piece_list@, self.gs, s as int, m)),
    {
        let white = self.gs.player_to_move == Color::White;
        let x = (s % 8) as i16;
        let y = (s / 8) as i16;
        let fy: i16 = if white {
            y + 1
        } else {
            y - 1
        };
        if 0 <= fy && fy < 8 {
            let last = if white {
                fy == 7
            } else {
                fy == 0
            };
            let one = (8 * fy + x) as usize;
            if self.piece_list[one].is_none() {
                if last {
                    self.push_promotions(s, one, 0, moves);
                } else {
                    self.push_candidate(moves, Move::new(s as u8, one as u8, 0));
                    let start: i16 = if white {
                        1
                    } else {
                        6
                    };
                    if y == start {
                        let ty: i16 = if white {
                            fy + 1
                        } else {
                            fy - 1
                        };
                        let two = (8 * ty + x) as usize;
                        if self.piece_list[two].is_none() {
                            self.push_candidate(moves, Move::new(s as u8, two as u8, DOUBLE_PAWN_PUSH));
                        }
                    }
                }
            }
            self.gen_pawn_capture(s, x - 1, fy, last, moves);
            self.gen_pawn_capture(s, x + 1, fy, last, moves);
        }
    }

    /// Castles of the king on `s`: the right is held, the squares between
    /// king and rook are empty, the rook is at home, and neither the king's
    /// square, the square it crosses nor its destination is attacked.
    fn gen_castles(&self, s: usize, moves: &mut Vec<Move>)
        requires
            self.wf(),
            s < 64,
            self.piece_list@[s as int] == Some(piece_of(5, self.gs.player_to_move)),
            all_candidates(self, old(moves)@),
        ensures
            all_candidates(self, final(moves)@),
            forall|x: Move| #[trigger] final(moves)@.contains(x) <==> (old(moves)@.contains(x) || castle_move(
                self.piece_list@,
                self.gs,
                s as int,
                x,
            )),
    {
        let white = self.gs.player_to_move == Color::White;
        let home: usize = if white {
            4
        } else {
            60
        };
        if s != home {
            return;
        }
        let (kf, qf) = if white {
            (WHITE_KING_SIDE, WHITE_QUEEN_SIDE)
        } else {
            (BLACK_KING_SIDE, BLACK_QUEEN_SIDE)
        };
        let rights = self.gs.castling_rights;
        let rook = PieceType::from_color(PieceType::WRook, self.gs.player_to_move);
        let opp = self.gs.opponent_color;
        if rights.contains(kf) && self.piece_list[s + 1].is_none() && self.piece_list[s + 2].is_none()
            && is_piece(self.piece_list[s + 3], rook) && !self.is_attacked(s as u8, opp)
            && !self.is_attacked((s + 1) as u8, opp) && !self.is_attacked((s + 2) as u8, opp) {
            self.push_candidate(moves, Move::new(s as u8, (s + 2) as u8, KING_CASTLE));
        }
        if rights.contains(qf) && self.piece_list[s - 1].is_none() && self.piece_list[s - 2].is_none()
            && self.piece_list[s - 3].is_none() && is_piece(self.piece_list[s - 4], rook)
            && !self.is_attacked(s as u8, opp) && !self.is_attacked((s - 1) as u8, opp)
            && !self.is_attacked((s - 2) as u8, opp) {
            self.push_candidate(moves, Move::new(s as u8, (s - 2) as u8, QUEEN_CASTLE));
        }
    }

    /// Every pseudo-legal move of the side to move, and nothing else.
    pub fn pseudo_legal_moves(&self, tables: &Tables) -> (moves: Vec<Move>)
        requires
            self.wf(),
            tables.wf(),
        ensures
            all_candidates(self, moves@),
            moves@.no_duplicates(),
            forall|m: Move| #[trigger] moves@.contains(m) <==> pseudo_legal(self.piece_list@, self.gs, m),
    {
        let ghost pieces = self.piece_list@;
        let ghost gs = self.gs;
        let mut moves: Vec<Move> = Vec::new();
        let mut s: usize = 0;
        while s < 64
            invariant
                self.wf(),
                tables.wf(),
                pieces == self.piece_list@,
                gs == self.gs,
                s <= 64,
                all_candidates(self, moves@),
                forall|m: Move| #[trigger] moves@.contains(m) <==> (pseudo_legal(pieces, gs, m) && m.from < s),
            decreases 64 - s,
        {
            let ghost before = moves@;
            match self.piece_list[s] {
                None => {},
                Some(p) => {
                    if p.color() == self.gs.player_to_move {
                        let kind = p.kind();
                        if kind == 0 {
                            self.gen_pawn(s, &mut moves);
                        } else if kind == 1 {
                            self.gen_leaper(s, tables.knight_moves[s], &mut moves);
                        } else if kind == 2 {
                            self.gen_slider(s, bishop_dirs(), &mut moves);
                        } else if kind == 3 {
                            self.gen_slider(s, rook_dirs(), &mut moves);
                        } else if kind == 4 {
                            self.gen_slider(s, rook_dirs(), &mut moves);
                            self.gen_slider(s, bishop_dirs(), &mut moves);
                        } else {
                            self.gen_leaper(s, tables.king_moves[s], &mut moves);
                            self.gen_castles(s, &mut moves);
                        }
                    }
                },
            }
            proof {
                assert forall|m: Move| #[trigger] moves@.contains(m) <==> (pseudo_legal(pieces, gs, m)
                    && m.from < s + 1) by {
                    if m.to < 64 {
                        assert(has_sq(tables.knight_moves[s as int], m.to as u64) <==> leaps_to(
                            knight_offset_seq(),
                            8,
                            s as int,
                            m.to as int,
                        ));
                        assert(has_sq(tables.king_moves[s as int], m.to as u64) <==> leaps_to(
                            king_offset_seq(),
                            8,
                            s as int,
                            m.to as int,
                        ));
                    }
                }
            }
            s += 1;
        }
        moves
    }

    /// Keeps exactly those `candidates` after which no king of the mover is
    /// attacked: each is applied, tested and undone. The board is left as it
    /// was.
    pub fn filter_legal(&mut self, candidates: &Vec<Move>) -> (moves: Vec<Move>)
        requires
            old(self).wf(),
            forall|j: int|
                0 <= j < candidates@.len() ==> candidate(old(self).piece_list@, old(self).gs, #[trigger] candidates@[j]),
        ensures
            final(self).wf(),
            final(self).piece_list@ == old(self).piece_list@,
            final(self).gs == old(self).gs,
            final(self).gs_history@ == old(self).gs_history@,
            final(self).past@ == old(self).past@,
            moves@.no_duplicates(),
            forall|m: Move|
                #[trigger] moves@.contains(m) <==> (candidates@.contains(m) && king_safe(
                    apply_pieces(old(self).piece_list@, old(self).gs, m),
                    old(self).gs.player_to_move,
                    old(self).gs.opponent_color,
                )),
    {
        let ghost pieces0 = self.piece_list@;
        let ghost gs0 = self.gs;
        let ghost h0 = self.gs_history@;
        let ghost past0 = self.past@;
        let mut moves: Vec<Move> = Vec::new();
        let mut i: usize = 0;
        while i < candidates.len()
            invariant
                self.wf(),
                self.piece_list@ == pieces0,
                self.gs == gs0,
                self.gs_history@ == h0,
                self.past@ == past0,
                forall|j: int| 0 <= j < candidates@.len() ==> candidate(pieces0, gs0, #[trigger] candidates@[j]),
                i <= candidates.len(),
                moves@.no_duplicates(),
                forall|m: Move|
                    #[trigger] moves@.contains(m) <==> (candidates@.take(i as int).contains(m) && king_safe(
                        apply_pieces(pieces0, gs0, m),
                        gs0.player_to_move,
                        gs0.opponent_color,
                    )),
            decreases candidates.len() - i,
        {
            let m = candidates[i];
            assert(candidate(pieces0, gs0, candidates@[i as int]));
            let mover = self.gs.player_to_move;
            let opp = self.gs.opponent_color;
            self.make_move(&m);
            let safe = self.king_safe(mover, opp);
            self.undo_move();
            assert(self.gs_history@ =~= h0);
            assert(self.past@ =~= past0);
            let ghost before = moves@;
            if safe && !contains_move(&moves, m) {
                moves.push(m);
                proof {
                    assert forall|a: int, b: int| 0 <= a < b < moves@.len() implies moves@[a] != moves@[b] by {
                        if b == moves@.len() - 1 {
                            assert(before[a] == moves@[a]);
                        } else {
                            assert(before[a] == moves@[a] && before[b] == moves@[b]);
                        }
                    }
                }
            }
            proof {
                let t0 = candidates@.take(i as int);
                let t1 = candidates@.take(i as int + 1);
                assert(t1 =~= t0.push(m));
                assert forall|x: Move| #[trigger] moves@.contains(x) <==> (t1.contains(x) && king_safe(
                    apply_pieces(pieces0, gs0, x),
                    gs0.player_to_move,
                    gs0.opponent_color,
                )) by {
                    let ks = king_safe(apply_pieces(pieces0, gs0, x), gs0.player_to_move, gs0.opponent_color);
                    if moves@.contains(x) {
                        let k = choose|k: int| 0 <= k < moves@.len() && moves@[k] == x;
                        if k < before.len() {
                            assert(before[k] == x);
                            assert(before.contains(x));
                            assert(t0.contains(x) && ks);
                            let k2 = choose|k2: int| 0 <= k2 < t0.len() && t0[k2] == x;
                            assert(t1[k2] == x);
                            assert(t1.contains(x));
                        } else {
                            assert(x == m && safe);
                            assert(t1[i as int] == x);
                            assert(t1.contains(x));
                        }
                    }
                    if t1.contains(x) && ks {
                        let k = choose|k: int| 0 <= k < t1.len() && t1[k] == x;
                        if k < i {
                            assert(t0[k] == x);
                            assert(t0.contains(x));
                            assert(before.contains(x));
                            let k2 = choose|k2: int| 0 <= k2 < before.len() && before[k2] == x;
                            assert(moves@[k2] == x);
                        } else {
                            assert(x == m);
                            assert(safe);
                            if !before.contains(m) {
                                assert(moves@[moves@.len() - 1] == m);
                            } else {
                                let k2 = choose|k2: int| 0 <= k2 < before.len() && before[k2] == x;
                                assert(moves@[k2] == x);
                            }
                        }
                        assert(moves@.contains(x));
                    }
                }
            }
            i += 1;
        }
        assert(candidates@.take(candidates.len() as int) =~= candidates@);
        moves
    }

    /// The legal moves of the side to move: exactly the pseudo-legal moves
    /// that leave no king of the mover attacked. The board is left as it was. An
    /// empty list means checkmate or stalemate.
    pub fn legal_moves(&mut self, tables: &Tables) -> (moves: Vec<Move>)
        requires
            old(self).wf(),
            tables.wf(),
        ensures
            final(self).wf(),
            final(self).piece_list@ == old(self).piece_list@,
            final(self).gs == old(self).gs,
            final(self).gs_history@ == old(self).gs_history@,
            final(self).past@ == old(self).past@,
            moves@.no_duplicates(),
            forall|m: Move|
                #[trigger] moves@.contains(m) ==> legal(final(self).piece_list@, final(self).gs, m),
            forall|m: Move|
                #[trigger] moves@.contains(m) <==> (pseudo_legal(final(self).piece_list@, final(self).gs, m)
                    && king_safe(
                    apply_pieces(final(self).piece_list@, final(self).gs, m),
                    final(self).gs.player_to_move,
                    final(self).gs.opponent_color,
                )),
    {
        let pseudo = self.pseudo_legal_moves(tables);
        let moves = self.filter_legal(&pseudo);
        proof {
            assert forall|m: Move| #[trigger] moves@.contains(m) implies legal(self.piece_list@, self.gs, m) by {
                let k = choose|k: int| 0 <= k < pseudo@.len() && pseudo@[k] == m;
                assert(candidate(self.piece_list@, self.gs, pseudo@[k]));
            }
        }
        moves
    }
}

/// En passant needs a target: in a position without one, no pseudo-legal
/// move is an en-passant capture. Since `make_move` leaves a target only
/// after a double push, an unused target is gone one ply later.
pub proof fn lemma_no_target_no_en_passant(pieces: Seq<Option<PieceType>>, gs: GameState, m: Move)
    requires
        pieces.len() == 64,
        gs.en_passant_mask == 0,
        pseudo_legal(pieces, gs, m),
    ensures
        m.flags != EN_PASSANT,
{
    if m.to < 64 {
        lemma_empty(m.to as u64);
    }
    let p = m.spec_promotion();
    let f = m.flags;
    assert((1 <= p <= 4 && (f == 0u8 | (p << 5u8) || f == 1u8 | (p << 5u8))) ==> f != 4u8)
        by (bit_vector);
}

} // verus!
