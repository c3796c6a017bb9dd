//! The board: piece placement kept twice (a piece list and one bitboard per
//! piece type), the game state, and a history that makes every move undoable.
use vstd::prelude::*;
use crate::bitboard::{Bitboard, Square, EMPTY, has_sq, lemma_and_not, lemma_or, lemma_single, lemma_empty};
use crate::castling_flags::{CastlingFlags, rights_lost};
use crate::chess_move::{Move, EN_PASSANT, QUEEN_CASTLE, KING_CASTLE, DOUBLE_PAWN_PUSH};
use crate::piece::{Color, PieceType, piece_of, piece_at_index};
use crate::zobrist::{piece_key, castling_key, ep_key, side_key, spec_piece_key, spec_key, spec_ep_key, spec_castling_key, pieces_hash, position_hash, side_hash, lemma_pieces_hash_update, lemma_pieces_hash_empty};

verus! {

/// The state that a move cannot be reconstructed from: it is saved before
/// each move and restored verbatim on undo.
#[derive(Clone, Copy, PartialEq, Eq, Structural, Debug)]
pub struct GameState {
    pub player_to_move: Color,
    pub opponent_color: Color,
    pub castling_rights: CastlingFlags,
    pub en_passant_mask: Bitboard,
    /// The square of the side to move's king, 64 when it has none.
    pub playing_king_square: Square,
    pub key: u64,
}

/// What undo needs: the state before the move, the piece it captured on its
/// destination square, and the move itself.
#[derive(Clone, Copy, PartialEq, Eq, Structural, Debug)]
pub struct HistoryEntry {
    pub gs: GameState,
    pub captured_piece: Option<PieceType>,
    pub mv: Move,
}

pub struct Board {
    pub piece_list: Vec<Option<PieceType>>,
    pub bitboards: Vec<Bitboard>,
    pub gs: GameState,
    pub gs_history: Vec<HistoryEntry>,
    /// The piece placement before each move of the history.
    pub past: Ghost<Seq<Seq<Option<PieceType>>>>,
}

/// The kind of the piece that starts on file `file` of a back rank.
pub open spec fn back_rank_kind(file: int) -> int {
    if file == 0 || file == 7 {
        3
    } else if file == 1 || file == 6 {
        1
    } else if file == 2 || file == 5 {
        2
    } else if file == 3 {
        4
    } else {
        5
    }
}

/// What stands on square `s` in the standard starting position.
pub open spec fn start_piece(s: int) -> Option<PieceType> {
    if s < 8 {
        Some(piece_of(back_rank_kind(s % 8), Color::White))
    } else if s < 16 {
        Some(piece_of(0, Color::White))
    } else if s >= 56 {
        Some(piece_of(back_rank_kind(s % 8), Color::Black))
    } else if s >= 48 {
        Some(piece_of(0, Color::Black))
    } else {
        None
    }
}

/// The placement of the standard starting position.
pub open spec fn start_pieces() -> Seq<Option<PieceType>> {
    Seq::new(64, |s: int| start_piece(s))
}

/// The king of colour `c`.
pub open spec fn king_of(c: Color) -> PieceType {
    piece_of(5, c)
}

/// `ks` is the square of `c`'s king, or 64 where `c` has none.
pub open spec fn king_square_ok(pieces: Seq<Option<PieceType>>, c: Color, ks: u8) -> bool {
    &&& ks <= 64
    &&& ks < 64 ==> pieces[ks as int] == Some(king_of(c))
    &&& ks == 64 ==> forall|s: int| 0 <= s < 64 ==> pieces[s] != Some(king_of(c))
}

/// An en-passant target holds at most one square.
pub open spec fn ep_ok(mask: u64) -> bool {
    mask == 0 || exists|s: u64| s < 64 && mask == 1u64 << s
}

/// The game state fits the placement.
pub open spec fn state_ok(pieces: Seq<Option<PieceType>>, gs: GameState) -> bool {
    &&& pieces.len() == 64
    &&& gs.opponent_color == gs.player_to_move.spec_other()
    &&& gs.castling_rights.wf()
    &&& ep_ok(gs.en_passant_mask)
    &&& king_square_ok(pieces, gs.player_to_move, gs.playing_king_square)
    &&& gs.key == position_hash(
        pieces,
        gs.castling_rights.bits,
        gs.en_passant_mask,
        gs.player_to_move,
    )
}

/// The square of the pawn that an en-passant capture onto `to` removes.
pub open spec fn ep_victim(to: u8) -> int {
    (to ^ 8u8) as int
}

pub open spec fn kind_of(p: Option<PieceType>) -> int {
    match p {
        Some(q) => q.spec_kind(),
        None => -1,
    }
}

/// `m` is a move that `make_move` can apply to `pieces` with state `gs`,
/// as the move generator produces them: a piece of the side to move on
/// `from`; no own piece on `to`; a promoting piece is a pawn; an en-passant
/// capture finds the enemy pawn behind `to`; a castle finds its rook at home
/// and the rook's destination empty.
pub open spec fn move_fits(pieces: Seq<Option<PieceType>>, gs: GameState, m: Move) -> bool {
    let from = m.from as int;
    let to = m.to as int;
    let moving = pieces[from];
    let own_rook = Some(piece_of(3, gs.player_to_move));
    &&& pieces.len() == 64
    &&& 0 <= from < 64 && 0 <= to < 64 && from != to
    &&& moving is Some && moving.unwrap().spec_color() == gs.player_to_move
    &&& pieces[to] is Some ==> pieces[to].unwrap().spec_color() == gs.opponent_color
    &&& m.spec_is_promotion() ==> moving == Some(piece_of(0, gs.player_to_move))
    &&& (pieces[to] is None && kind_of(moving) == 0 && m.has(EN_PASSANT)) ==> {
        &&& ep_victim(m.to) != from
        &&& pieces[ep_victim(m.to)] == Some(piece_of(0, gs.opponent_color))
    }
    &&& (pieces[to] is None && kind_of(moving) == 5 && m.has(QUEEN_CASTLE)) ==> {
        &&& from >= 4 && to == from - 2
        &&& pieces[from - 4] == own_rook
        &&& pieces[from - 1] is None
    }
    &&& (pieces[to] is None && kind_of(moving) == 5 && !m.has(QUEEN_CASTLE) && m.has(KING_CASTLE))
        ==> {
        &&& from + 3 < 64 && to == from + 2
        &&& pieces[from + 3] == own_rook
        &&& pieces[from + 1] is None
    }
}

/// The piece that stands on `to` after `m`: the promotion piece, or the mover.
pub open spec fn arriving_piece(pieces: Seq<Option<PieceType>>, gs: GameState, m: Move) -> PieceType {
    if m.spec_is_promotion() {
        piece_of(m.spec_promotion() as int, gs.player_to_move)
    } else {
        pieces[m.from as int].unwrap()
    }
}

/// The placement after `m`: a piece on `to` is captured; otherwise an
/// en-passant capture removes the pawn behind `to` and a castle moves its
/// rook; then the mover leaves `from` and the arriving piece takes `to`.
pub open spec fn apply_pieces(pieces: Seq<Option<PieceType>>, gs: GameState, m: Move) -> Seq<
    Option<PieceType>,
> {
    let from = m.from as int;
    let to = m.to as int;
    let kind = kind_of(pieces[from]);
    let own_rook = Some(piece_of(3, gs.player_to_move));
    let side = if pieces[to] is Some {
        pieces
    } else if kind == 0 && m.has(EN_PASSANT) {
        pieces.update(ep_victim(m.to), None)
    } else if kind == 5 && m.has(QUEEN_CASTLE) {
        pieces.update(from - 4, None).update(from - 1, own_rook)
    } else if kind == 5 && m.has(KING_CASTLE) {
        pieces.update(from + 3, None).update(from + 1, own_rook)
    } else {
        pieces
    };
    side.update(from, None).update(to, Some(arriving_piece(pieces, gs, m)))
}

/// The placement that undoing the move of entry `e` gives back.
pub open spec fn revert_pieces(pieces: Seq<Option<PieceType>>, e: HistoryEntry) -> Seq<
    Option<PieceType>,
> {
    let m = e.mv;
    let from = m.from as int;
    let to = m.to as int;
    let own_rook = Some(piece_of(3, e.gs.player_to_move));
    let returning = if m.spec_is_promotion() {
        piece_of(0, e.gs.player_to_move)
    } else {
        pieces[to].unwrap()
    };
    let back = pieces.update(to, e.captured_piece).update(from, Some(returning));
    if e.captured_piece is Some {
        back
    } else if returning.spec_kind() == 0 && m.has(EN_PASSANT) {
        back.update(ep_victim(m.to), Some(piece_of(0, e.gs.opponent_color)))
    } else if returning.spec_kind() == 5 && m.has(QUEEN_CASTLE) {
        back.update(from - 1, None).update(from - 4, own_rook)
    } else if returning.spec_kind() == 5 && m.has(KING_CASTLE) {
        back.update(from + 1, None).update(from + 3, own_rook)
    } else {
        back
    }
}

/// The en-passant target after `m`: the square behind `to` after a pawn's
/// double push, none otherwise.
pub open spec fn ep_after(pieces: Seq<Option<PieceType>>, m: Move) -> u64 {
    if pieces[m.to as int] is None && kind_of(pieces[m.from as int]) == 0 && !m.has(EN_PASSANT)
        && m.has(DOUBLE_PAWN_PUSH) {
        1u64 << ((m.to ^ 8u8) as u64)
    } else {
        0
    }
}

/// Only the hash key differs between `a` and `b`.
pub open spec fn same_but_key(a: GameState, b: GameState) -> bool {
    &&& a.player_to_move == b.player_to_move
    &&& a.opponent_color == b.opponent_color
    &&& a.castling_rights == b.castling_rights
    &&& a.en_passant_mask == b.en_passant_mask
    &&& a.playing_king_square == b.playing_king_square
}

/// `b1` is `b0` after `make_move(m)`: the placement is `apply_pieces`, the
/// side to move changes, castling rights lose what `from` and `to` take, the
/// en-passant target is set only by a double push, and the history grows by
/// the state before the move.
pub open spec fn made_move(b0: Board, m: Move, b1: Board) -> bool {
    &&& b1.wf()
    &&& b1.piece_list@ == apply_pieces(b0.piece_list@, b0.gs, m)
    &&& b1.gs_history@ == b0.gs_history@.push(
        HistoryEntry { gs: b0.gs, captured_piece: b0.piece_list@[m.to as int], mv: m },
    )
    &&& b1.gs.player_to_move == b0.gs.opponent_color
    &&& b1.gs.opponent_color == b0.gs.player_to_move
    &&& b1.gs.castling_rights.bits == b0.gs.castling_rights.bits & !rights_lost(m.from as int)
        & !rights_lost(m.to as int)
    &&& b1.gs.en_passant_mask == ep_after(b0.piece_list@, m)
    &&& b1.past@ == b0.past@.push(b0.piece_list@)
}

/// `b1` is `b0` after `undo_move()`: the last history entry is gone, its
/// state is back verbatim and the placement is the one before its move.
pub open spec fn undone(b0: Board, b1: Board) -> bool {
    &&& b1.wf()
    &&& b1.piece_list@ == revert_pieces(b0.piece_list@, b0.gs_history@.last())
    &&& b1.piece_list@ == b0.past@.last()
    &&& b1.gs == b0.gs_history@.last().gs
    &&& b1.gs_history@ == b0.gs_history@.drop_last()
    &&& b1.past@ == b0.past@.drop_last()
}

impl Board {
    /// The piece list and the per-type bitboards agree: square `s` is in the
    /// bitboard of type `i` exactly when the list holds that type on `s`.
    pub open spec fn consistent(&self) -> bool {
        &&& self.piece_list.len() == 64
        &&& self.bitboards.len() == 12
        &&& forall|s: u64, i: int|
            s < 64 && 0 <= i < 12 ==> (#[trigger] has_sq(self.bitboards@[i], s) <==> self.piece_list@[s as int]
                == Some(piece_at_index(i)))
    }

    /// Each history entry holds a state and a move that fit the placement
    /// before it, and applying that move gives the next placement.
    pub open spec fn history_ok(&self) -> bool {
        let past = self.past@;
        let h = self.gs_history@;
        &&& past.len() == h.len()
        &&& forall|i: int|
            0 <= i < h.len() ==> {
                &&& state_ok(#[trigger] past[i], h[i].gs)
                &&& move_fits(past[i], h[i].gs, h[i].mv)
                &&& h[i].captured_piece == past[i][h[i].mv.to as int]
                &&& apply_pieces(past[i], h[i].gs, h[i].mv) == if i + 1 < h.len() {
                    past[i + 1]
                } else {
                    self.piece_list@
                }
            }
    }

    pub open spec fn wf(&self) -> bool {
        &&& self.consistent()
        &&& state_ok(self.piece_list@, self.gs)
        &&& self.history_ok()
    }

    /// Takes piece `p` off square `s`.
    pub fn remove_piece(&mut self, p: PieceType, s: Square)
        requires
            old(self).consistent(),
            s < 64,
            old(self).piece_list@[s as int] == Some(p),
        ensures
            final(self).consistent(),
            final(self).piece_list@ == old(self).piece_list@.update(s as int, None),
            same_but_key(final(self).gs, old(self).gs),
            final(self).gs.key == old(self).gs.key ^ spec_piece_key(p, s as int),
            final(self).gs_history == old(self).gs_history,
            final(self).past == old(self).past,
            final(self).gs.key ^ pieces_hash(final(self).piece_list@, 64) == old(self).gs.key
                ^ pieces_hash(old(self).piece_list@, 64),
    {
        let i = p.index();
        let old_bb = self.bitboards[i];
        let bb = old_bb & !(1u64 << (s as u64));
        let ghost old_self = *self;
        self.bitboards.set(i, bb);
        self.piece_list.set(s as usize, None);
        self.gs.key = self.gs.key ^ piece_key(p, s);
        proof {
            let ghost pk = spec_piece_key(p, s as int);
            let ghost k0 = old_self.gs.key;
            let ghost p0 = pieces_hash(old_self.piece_list@, 64);
            lemma_pieces_hash_update(old_self.piece_list@, s as int, None, 64);
            assert((k0 ^ pk) ^ ((p0 ^ pk) ^ 0u64) == k0 ^ p0) by (bit_vector);
            assert forall|t: u64, j: int| t < 64 && 0 <= j < 12 implies (#[trigger] has_sq(
                self.bitboards@[j],
                t,
            ) <==> self.piece_list@[t as int] == Some(piece_at_index(j))) by {
                assert(has_sq(old_self.bitboards@[j], t) <==> old_self.piece_list@[t as int] == Some(
                    piece_at_index(j),
                ));
                if j == i {
                    lemma_and_not(old_bb, 1u64 << (s as u64), t);
                    lemma_single(s as u64, t);
                }
            }
        }
    }

    /// Puts piece `p` on the empty square `s`.
    pub fn place_piece(&mut self, p: PieceType, s: Square)
        requires
            old(self).consistent(),
            s < 64,
            old(self).piece_list@[s as int] is None,
        ensures
            final(self).consistent(),
            final(self).piece_list@ == old(self).piece_list@.update(s as int, Some(p)),
            same_but_key(final(self).gs, old(self).gs),
            final(self).gs.key == old(self).gs.key ^ spec_piece_key(p, s as int),
            final(self).gs_history == old(self).gs_history,
            final(self).past == old(self).past,
            final(self).gs.key ^ pieces_hash(final(self).piece_list@, 64) == old(self).gs.key
                ^ pieces_hash(old(self).piece_list@, 64),
    {
        let i = p.index();
        let old_bb = self.bitboards[i];
        let bb = old_bb | (1u64 << (s as u64));
        let ghost old_self = *self;
        self.bitboards.set(i, bb);
        self.piece_list.set(s as usize, Some(p));
        self.gs.key = self.gs.key ^ piece_key(p, s);
        proof {
            let ghost pk = spec_piece_key(p, s as int);
            let ghost k0 = old_self.gs.key;
            let ghost p0 = pieces_hash(old_self.piece_list@, 64);
            lemma_pieces_hash_update(old_self.piece_list@, s as int, Some(p), 64);
            assert((k0 ^ pk) ^ ((p0 ^ 0u64) ^ pk) == k0 ^ p0) by (bit_vector);
            assert forall|t: u64, j: int| t < 64 && 0 <= j < 12 implies (#[trigger] has_sq(
                self.bitboards@[j],
                t,
            ) <==> self.piece_list@[t as int] == Some(piece_at_index(j))) by {
                assert(has_sq(old_self.bitboards@[j], t) <==> old_self.piece_list@[t as int] == Some(
                    piece_at_index(j),
                ));
                if j == i {
                    lemma_or(old_bb, 1u64 << (s as u64), t);
                    lemma_single(s as u64, t);
                }
            }
        }
    }

    /// A board with the placement `pieces`, `player` to move, castling
    /// rights `castling` and en-passant target `ep`, and no history.
    pub fn from_pieces(pieces: &Vec<Option<PieceType>>, player: Color, castling: CastlingFlags, ep: Bitboard) -> (b: Board)
        requires
            pieces.len() == 64,
            castling.wf(),
            ep_ok(ep),
        ensures
            b.wf(),
            b.piece_list@ == pieces@,
            b.gs.player_to_move == player,
            b.gs.castling_rights == castling,
            b.gs.en_passant_mask == ep,
            b.gs_history.len() == 0,
    {
        let mut piece_list: Vec<Option<PieceType>> = Vec::new();
        let mut i: usize = 0;
        while i < 64
            invariant
                i <= 64,
                piece_list.len() == i,
                forall|t: int| 0 <= t < i ==> piece_list@[t] is None,
            decreases 64 - i,
        {
            piece_list.push(None);
            i += 1;
        }
        let mut bitboards: Vec<Bitboard> = Vec::new();
        let mut j: usize = 0;
        while j < 12
            invariant
                j <= 12,
                bitboards.len() == j,
                forall|t: int| 0 <= t < j ==> bitboards@[t] == 0,
            decreases 12 - j,
        {
            bitboards.push(EMPTY);
            j += 1;
        }
        let gs = GameState {
            player_to_move: player,
            opponent_color: player.other(),
            castling_rights: castling,
            en_passant_mask: ep,
            playing_king_square: 64,
            key: 0,
        };
        let mut b = Board { piece_list, bitboards, gs, gs_history: Vec::new(), past: Ghost(Seq::empty()) };
        proof {
            lemma_pieces_hash_empty(b.piece_list@, 64);
            assert(0u64 ^ 0u64 == 0u64) by (bit_vector);
            assert forall|s: u64, i: int| s < 64 && 0 <= i < 12 implies (#[trigger] has_sq(b.bitboards@[i], s)
                <==> b.piece_list@[s as int] == Some(piece_at_index(i))) by {
                lemma_empty(s);
            }
        }
        let mut s: usize = 0;
        while s < 64
            invariant
                pieces.len() == 64,
                s <= 64,
                b.consistent(),
                b.gs.player_to_move == player,
                b.gs.opponent_color == player.spec_other(),
                b.gs.castling_rights == castling,
                b.gs.en_passant_mask == ep,
                b.gs_history.len() == 0,
                b.past@.len() == 0,
                b.gs.key ^ pieces_hash(b.piece_list@, 64) == 0,
                forall|t: int| 0 <= t < s ==> b.piece_list@[t] == pieces@[t],
                forall|t: int| s <= t < 64 ==> b.piece_list@[t] is None,
            decreases 64 - s,
        {
            match pieces[s] {
                Some(p) => {
                    b.place_piece(p, s as u8);
                },
                None => {},
            }
            s += 1;
        }
        assert(b.piece_list@ =~= pieces@);
        let ghost k0 = b.gs.key;
        let ghost p0 = pieces_hash(b.piece_list@, 64);
        assert(k0 == p0) by (bit_vector)
            requires
                k0 ^ p0 == 0u64,
        ;
        b.gs.key = b.gs.key ^ castling_key(castling.bits()) ^ ep_key(ep);
        if player == Color::Black {
            b.gs.key = b.gs.key ^ side_key();
        } else {
            let ghost k1 = b.gs.key;
            assert(k1 ^ 0u64 == k1) by (bit_vector);
        }
        b.update_board_data();
        b
    }

    /// The standard starting position.
    pub fn starting_position() -> (b: Board)
        ensures
            b.wf(),
            b.piece_list@ == start_pieces(),
            b.gs.player_to_move == Color::White,
            b.gs.castling_rights.bits == 15,
            b.gs.en_passant_mask == 0,
            b.gs_history.len() == 0,
    {
        let mut pieces: Vec<Option<PieceType>> = Vec::new();
        let mut s: usize = 0;
        while s < 64
            invariant
                s <= 64,
                pieces.len() == s,
                forall|t: int| 0 <= t < s ==> pieces@[t] == start_piece(t),
            decreases 64 - s,
        {
            let file = s % 8;
            let back: PieceType = if file == 0 || file == 7 {
                PieceType::WRook
            } else if file == 1 || file == 6 {
                PieceType::WKnight
            } else if file == 2 || file == 5 {
                PieceType::WBishop
            } else if file == 3 {
                PieceType::WQueen
            } else {
                PieceType::WKing
            };
            let p: Option<PieceType> = if s < 8 {
                Some(back)
            } else if s < 16 {
                Some(PieceType::WPawn)
            } else if s >= 56 {
                Some(PieceType::from_color(back, Color::Black))
            } else if s >= 48 {
                Some(PieceType::BPawn)
            } else {
                None
            };
            pieces.push(p);
            s += 1;
        }
        assert(pieces@ =~= start_pieces());
        Board::from_pieces(&pieces, Color::White, CastlingFlags::all(), EMPTY)
    }

    /// The position hash.
    pub fn hash(&self) -> (r: u64)
        ensures
            r == self.gs.key,
            self.wf() ==> r == position_hash(
                self.piece_list@,
                self.gs.castling_rights.bits,
                self.gs.en_passant_mask,
                self.gs.player_to_move,
            ),
    {
        self.gs.key
    }

    /// The piece on square `s`, if any.
    pub fn piece_at(&self, s: Square) -> (r: Option<PieceType>)
        requires
            self.piece_list.len() == 64,
            s < 64,
        ensures
            r == self.piece_list@[s as int],
    {
        self.piece_list[s as usize]
    }

    /// The number of applied moves not yet undone.
    pub fn history_len(&self) -> (r: usize)
        ensures
            r == self.gs_history.len(),
    {
        self.gs_history.len()
    }

    /// The square of `c`'s king, 64 when it has none.
    pub fn find_king(&self, c: Color) -> (r: Square)
        requires
            self.piece_list.len() == 64,
        ensures
            king_square_ok(self.piece_list@, c, r),
    {
        let k = PieceType::from_color(PieceType::WKing, c);
        let mut s: usize = 0;
        while s < 64
            invariant
                self.piece_list.len() == 64,
                k == king_of(c),
                s <= 64,
                forall|t: int| 0 <= t < s ==> self.piece_list@[t] != Some(king_of(c)),
            decreases 64 - s,
        {
            match self.piece_list[s] {
                Some(q) => {
                    if q == k {
                        return s as u8;
                    }
                },
                None => {},
            }
            s += 1;
        }
        64
    }

    /// Hands the move to the other side.
    fn switch_sides(&mut self)
        ensures
            final(self).gs.player_to_move == old(self).gs.opponent_color,
            final(self).gs.opponent_color == old(self).gs.player_to_move,
            final(self).gs.castling_rights == old(self).gs.castling_rights,
            final(self).gs.en_passant_mask == old(self).gs.en_passant_mask,
            final(self).gs.key == old(self).gs.key ^ spec_key(2000),
            final(self).piece_list == old(self).piece_list,
            final(self).bitboards == old(self).bitboards,
            final(self).gs_history == old(self).gs_history,
            final(self).past == old(self).past,
    {
        let p = self.gs.player_to_move;
        self.gs.player_to_move = self.gs.opponent_color;
        self.gs.opponent_color = p;
        self.gs.key = self.gs.key ^ side_key();
    }

    /// Recomputes the side to move's king square.
    fn update_board_data(&mut self)
        requires
            old(self).piece_list.len() == 64,
        ensures
            king_square_ok(final(self).piece_list@, final(self).gs.player_to_move, final(self).gs.playing_king_square),
            final(self).gs.player_to_move == old(self).gs.player_to_move,
            final(self).gs.opponent_color == old(self).gs.opponent_color,
            final(self).gs.castling_rights == old(self).gs.castling_rights,
            final(self).gs.en_passant_mask == old(self).gs.en_passant_mask,
            final(self).gs.key == old(self).gs.key,
            final(self).piece_list == old(self).piece_list,
            final(self).bitboards == old(self).bitboards,
            final(self).gs_history == old(self).gs_history,
            final(self).past == old(self).past,
    {
        let ks = self.find_king(self.gs.player_to_move);
        self.gs.playing_king_square = ks;
    }

    /// Applies `mv`, a move that fits the position (as generated moves do),
    /// and records what undo needs.
    pub fn make_move(&mut self, mv: &Move)
        requires
            old(self).wf(),
            move_fits(old(self).piece_list@, old(self).gs, *mv),
        ensures
            made_move(*old(self), *mv, *final(self)),
    {
        let ghost old_self = *self;
        let ghost before = self.piece_list@;
        let from = mv.get_from();
        let to = mv.get_to();
        let moving_piece = self.piece_list[from as usize].unwrap();
        let capturing_piece = self.piece_list[to as usize];
        let player = self.gs.player_to_move;
        let new_piece_type = if mv.is_promotion() {
            mv.get_promotion_piece(player)
        } else {
            moving_piece
        };
        proof {
            lemma_ep_victim(to);
        }
        self.gs_history.push(HistoryEntry { gs: self.gs, captured_piece: capturing_piece, mv: *mv });
        self.past = Ghost(self.past@.push(before));

        let ghost k0 = self.gs.key;
        let ghost p0 = pieces_hash(before, 64);
        let ghost e0 = spec_ep_key(self.gs.en_passant_mask);
        let ghost c0 = spec_castling_key(self.gs.castling_rights.bits);
        let ghost sd0 = side_hash(self.gs.player_to_move);
        self.gs.key = self.gs.key ^ ep_key(self.gs.en_passant_mask);
        self.gs.en_passant_mask = EMPTY;

        self.gs.key = self.gs.key ^ castling_key(self.gs.castling_rights.bits());
        let mut rights = self.gs.castling_rights;
        rights.update(from, to);
        self.gs.castling_rights = rights;
        self.gs.key = self.gs.key ^ castling_key(self.gs.castling_rights.bits());
        let ghost k3 = self.gs.key;
        let ghost c1 = spec_castling_key(self.gs.castling_rights.bits);
        proof {
            assert(k3 ^ p0 == (k3 ^ p0) ^ 0u64) by (bit_vector);
        }

        match capturing_piece {
            Some(pt) => {
                self.remove_piece(pt, to);
            },
            None => {
                let kind = moving_piece.kind();
                if kind == 0 {
                    if mv.is_ep() {
                        let victim = PieceType::from_color(PieceType::WPawn, self.gs.opponent_color);
                        self.remove_piece(victim, to ^ 8u8);
                    } else if mv.intersects(DOUBLE_PAWN_PUSH) {
                        let target = to ^ 8u8;
                        self.gs.en_passant_mask = 1u64 << (target as u64);
                        assert(ep_ok(self.gs.en_passant_mask)) by {
                            assert((target as u64) < 64);
                        }
                        self.gs.key = self.gs.key ^ ep_key(self.gs.en_passant_mask);
                        proof {
                            let e1 = spec_ep_key(self.gs.en_passant_mask);
                            assert((k3 ^ e1) ^ p0 == (k3 ^ p0) ^ e1) by (bit_vector);
                        }
                    }
                } else if kind == 5 {
                    let rook_type = PieceType::from_color(PieceType::WRook, player);
                    if mv.is_queen_castle() {
                        self.remove_piece(rook_type, from - 4);
                        self.place_piece(rook_type, from - 1);
                    } else if mv.is_king_castle() {
                        self.remove_piece(rook_type, from + 3);
                        self.place_piece(rook_type, from + 1);
                    }
                }
            },
        }

        let ghost e1 = spec_ep_key(self.gs.en_passant_mask);
        assert(self.gs.key ^ pieces_hash(self.piece_list@, 64) == (k3 ^ p0) ^ e1);
        self.remove_piece(moving_piece, from);
        self.place_piece(new_piece_type, to);
        let ghost km = self.gs.key;
        let ghost pm = pieces_hash(self.piece_list@, 64);

        self.switch_sides();
        proof {
            let s = spec_key(2000);
            let kf = self.gs.key;
            let sd1 = side_hash(self.gs.player_to_move);
            assert(sd1 == sd0 ^ s) by {
                assert(0u64 ^ s == s && s ^ s == 0u64) by (bit_vector);
            }
            assert(kf == ((pm ^ c1) ^ e1) ^ sd1) by (bit_vector)
                requires
                    k0 == ((p0 ^ c0) ^ e0) ^ sd0,
                    k3 == ((k0 ^ e0) ^ c0) ^ c1,
                    km ^ pm == (k3 ^ p0) ^ e1,
                    kf == km ^ s,
                    sd1 == sd0 ^ s,
            ;
        }
        self.update_board_data();
        proof {
            assert(self.piece_list@ =~= apply_pieces(before, old_self.gs, *mv));
            let h = self.gs_history@;
            let past = self.past@;
            assert forall|i: int| 0 <= i < h.len() implies {
                &&& state_ok(#[trigger] past[i], h[i].gs)
                &&& move_fits(past[i], h[i].gs, h[i].mv)
                &&& h[i].captured_piece == past[i][h[i].mv.to as int]
                &&& apply_pieces(past[i], h[i].gs, h[i].mv) == if i + 1 < h.len() {
                    past[i + 1]
                } else {
                    self.piece_list@
                }
            } by {
                if i + 1 < h.len() {
                    assert(old_self.history_ok());
                    assert(past[i] == old_self.past@[i]);
                }
            }
        }
    }

    /// Takes back the last move: the placement and the whole game state
    /// return to what they were before it.
    pub fn undo_move(&mut self)
        requires
            old(self).wf(),
            old(self).gs_history.len() > 0,
        ensures
            undone(*old(self), *final(self)),
    {
        let ghost old_self = *self;
        let ghost n = self.gs_history.len() - 1;
        let ghost prev = self.past@[n as int];
        let e = self.gs_history.pop().unwrap();
        proof {
            assert(old_self.gs_history@[n as int] == e);
            lemma_ep_victim(e.mv.to);
            lemma_round_trip(prev, e.gs, e.mv);
        }
        self.past = Ghost(self.past@.drop_last());
        let from = e.mv.get_from();
        let to = e.mv.get_to();
        let now = self.piece_list[to as usize].unwrap();
        let returning = if e.mv.is_promotion() {
            PieceType::from_color(PieceType::WPawn, e.gs.player_to_move)
        } else {
            now
        };
        self.remove_piece(now, to);
        match e.captured_piece {
            Some(c) => {
                self.place_piece(c, to);
                self.place_piece(returning, from);
            },
            None => {
                self.place_piece(returning, from);
                let kind = returning.kind();
                if kind == 0 && e.mv.is_ep() {
                    let victim = PieceType::from_color(PieceType::WPawn, e.gs.opponent_color);
                    self.place_piece(victim, to ^ 8u8);
                } else if kind == 5 && e.mv.is_queen_castle() {
                    let rook_type = PieceType::from_color(PieceType::WRook, e.gs.player_to_move);
                    self.remove_piece(rook_type, from - 1);
                    self.place_piece(rook_type, from - 4);
                } else if kind == 5 && e.mv.is_king_castle() {
                    let rook_type = PieceType::from_color(PieceType::WRook, e.gs.player_to_move);
                    self.remove_piece(rook_type, from + 1);
                    self.place_piece(rook_type, from + 3);
                }
            },
        }
        self.gs = e.gs;
        proof {
            assert(self.piece_list@ =~= revert_pieces(old_self.piece_list@, e));
            let h = self.gs_history@;
            let past = self.past@;
            assert forall|i: int| 0 <= i < h.len() implies {
                &&& state_ok(#[trigger] past[i], h[i].gs)
                &&& move_fits(past[i], h[i].gs, h[i].mv)
                &&& h[i].captured_piece == past[i][h[i].mv.to as int]
                &&& apply_pieces(past[i], h[i].gs, h[i].mv) == if i + 1 < h.len() {
                    past[i + 1]
                } else {
                    self.piece_list@
                }
            } by {
                assert(old_self.history_ok());
                assert(past[i] == old_self.past@[i]);
                assert(h[i] == old_self.gs_history@[i]);
            }
        }
    }
}

/// Round trip: applying a move that fits the board and undoing it gives
/// back the same placement, the same bitboard contents, the same game state
/// (side to move, castling rights, en-passant target, hash) and history.
pub proof fn lemma_make_undo_round_trip(b0: Board, m: Move, b1: Board, b2: Board)
    requires
        b0.wf(),
        move_fits(b0.piece_list@, b0.gs, m),
        made_move(b0, m, b1),
        undone(b1, b2),
    ensures
        b2.piece_list@ == b0.piece_list@,
        b2.gs == b0.gs,
        b2.gs_history@ == b0.gs_history@,
        forall|s: u64, i: int|
            s < 64 && 0 <= i < 12 ==> (has_sq(b2.bitboards@[i], s) <==> #[trigger] has_sq(
                b0.bitboards@[i],
                s,
            )),
{
    assert(b2.gs_history@ =~= b0.gs_history@);
}

/// The hash is a function of the position: two boards with the same
/// placement, side to move, castling rights and en-passant target have the
/// same hash, whatever moves led to them.
pub proof fn lemma_hash_determined(b1: Board, b2: Board)
    requires
        b1.wf(),
        b2.wf(),
        b1.piece_list@ == b2.piece_list@,
        b1.gs.player_to_move == b2.gs.player_to_move,
        b1.gs.castling_rights == b2.gs.castling_rights,
        b1.gs.en_passant_mask == b2.gs.en_passant_mask,
    ensures
        b1.gs.key == b2.gs.key,
{
}

/// Each square is in the bitboard of at most one piece type, and it is in
/// the bitboard of `p` exactly when the piece list holds `p` there.
pub proof fn lemma_one_bitboard_per_square(b: Board, s: u64, i: int, j: int)
    requires
        b.wf(),
        s < 64,
        0 <= i < 12,
        0 <= j < 12,
    ensures
        has_sq(b.bitboards@[i], s) && has_sq(b.bitboards@[j], s) ==> i == j,
        has_sq(b.bitboards@[i], s) <==> b.piece_list@[s as int] == Some(piece_at_index(i)),
{
    assert(has_sq(b.bitboards@[i], s) <==> b.piece_list@[s as int] == Some(piece_at_index(i)));
    assert(has_sq(b.bitboards@[j], s) <==> b.piece_list@[s as int] == Some(piece_at_index(j)));
}

/// En passant lasts one ply: a move sets a target only when it is a pawn's
/// double push, and then the target is the square the pawn passed over; any
/// other move clears it.
pub proof fn lemma_en_passant_one_ply(pieces: Seq<Option<PieceType>>, m: Move)
    requires
        pieces.len() == 64,
        m.to < 64,
    ensures
        !(kind_of(pieces[m.from as int]) == 0 && m.has(DOUBLE_PAWN_PUSH)) ==> ep_after(pieces, m)
            == 0,
        ep_after(pieces, m) != 0 ==> forall|t: u64|
            t < 64 ==> (#[trigger] has_sq(ep_after(pieces, m), t) <==> t == (m.to ^ 8u8) as u64),
{
    lemma_ep_victim(m.to);
    if ep_after(pieces, m) != 0 {
        assert forall|t: u64| t < 64 implies (#[trigger] has_sq(ep_after(pieces, m), t) <==> t == (
        m.to ^ 8u8) as u64) by {
            lemma_single((m.to ^ 8u8) as u64, t);
        }
    }
}

/// Round trip: undoing a move restores the placement it was applied to.
/// (`undo_move` restores the game state, hash included, from the history.)
pub proof fn lemma_round_trip(pieces: Seq<Option<PieceType>>, gs: GameState, m: Move)
    requires
        move_fits(pieces, gs, m),
    ensures
        revert_pieces(
            apply_pieces(pieces, gs, m),
            HistoryEntry { gs, captured_piece: pieces[m.to as int], mv: m },
        ) == pieces,
{
    lemma_ep_victim(m.to);
    let e = HistoryEntry { gs, captured_piece: pieces[m.to as int], mv: m };
    assert(revert_pieces(apply_pieces(pieces, gs, m), e) =~= pieces);
}

/// An en-passant victim's square is on the board and differs from the
/// capture's destination.
pub proof fn lemma_ep_victim(to: u8)
    requires
        to < 64,
    ensures
        0 <= ep_victim(to) < 64,
        ep_victim(to) != to,
{
    assert((to ^ 8u8) < 64 && (to ^ 8u8) != to) by (bit_vector)
        requires
            to < 64,
    ;
}

} // verus!
