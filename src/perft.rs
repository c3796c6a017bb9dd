//! Perft: the number of leaf positions reachable in exactly `depth` plies.
use vstd::prelude::*;
use crate::attacks::king_safe;
use crate::board::{Board, GameState, apply_pieces, ep_after};
use crate::castling_flags::{CastlingFlags, rights_lost};
use crate::chess_move::Move;
use crate::move_gen::{Tables, pseudo_legal};
use crate::piece::{Color, PieceType};

verus! {

/// The number of move encodings: 64 from-squares, 64 to-squares, 256 flag sets.
pub open spec fn n_encodings() -> nat {
    1048576
}

/// The move with encoding `i`.
pub open spec fn decode(i: int) -> Move {
    Move { from: (i / 16384) as u8, to: ((i / 256) % 64) as u8, flags: (i % 256) as u8 }
}

/// The encoding of `m`.
pub open spec fn encode(m: Move) -> int {
    m.from * 16384 + m.to * 256 + m.flags
}

/// The game state that the move generator reads, for a position with
/// `player` to move, castling rights `rights` and en-passant target `ep`.
pub open spec fn position_state(player: Color, rights: u8, ep: u64) -> GameState {
    GameState {
        player_to_move: player,
        opponent_color: player.spec_other(),
        castling_rights: CastlingFlags { bits: rights },
        en_passant_mask: ep,
        playing_king_square: 64,
        key: 0,
    }
}

/// `m` is a legal move of the position: pseudo-legal, and no king of the
/// mover is attacked after it.
pub open spec fn legal_move(pieces: Seq<Option<PieceType>>, player: Color, rights: u8, ep: u64, m: Move) -> bool {
    let gs = position_state(player, rights, ep);
    pseudo_legal(pieces, gs, m) && king_safe(apply_pieces(pieces, gs, m), player, player.spec_other())
}

/// The leaves below the position reached by the legal move `m`, `depth - 1`
/// plies further.
pub open spec fn child_count(pieces: Seq<Option<PieceType>>, player: Color, rights: u8, ep: u64, depth: nat, m: Move) -> nat
    decreases depth, 0nat,
{
    if depth == 0 {
        0
    } else {
        leaf_count(
            apply_pieces(pieces, position_state(player, rights, ep), m),
            player.spec_other(),
            rights & !rights_lost(m.from as int) & !rights_lost(m.to as int),
            ep_after(pieces, m),
            (depth - 1) as nat,
        )
    }
}

/// The number of leaves of the legal-move tree of depth `depth`.
pub open spec fn leaf_count(pieces: Seq<Option<PieceType>>, player: Color, rights: u8, ep: u64, depth: nat) -> nat
    decreases depth, 1048578nat,
{
    if depth == 0 {
        1
    } else {
        moves_sum(pieces, player, rights, ep, depth, 1048576)
    }
}

/// The sum of `child_count` over the legal moves among the first `n`
/// encodings.
pub open spec fn moves_sum(pieces: Seq<Option<PieceType>>, player: Color, rights: u8, ep: u64, depth: nat, n: nat) -> nat
    decreases depth, n + 1,
{
    if n == 0 || depth == 0 {
        0
    } else {
        moves_sum(pieces, player, rights, ep, depth, (n - 1) as nat) + if legal_move(
            pieces,
            player,
            rights,
            ep,
            decode(n - 1),
        ) {
            child_count(pieces, player, rights, ep, depth, decode(n - 1))
        } else {
            0
        }
    }
}

/// `x`, saturated at `u64::MAX`.
pub open spec fn saturated(x: nat) -> u64 {
    if x > u64::MAX {
        u64::MAX
    } else {
        x as u64
    }
}

/// The sum of `child_count` over the moves of `ms`.
pub open spec fn list_sum(pieces: Seq<Option<PieceType>>, player: Color, rights: u8, ep: u64, depth: nat, ms: Seq<Move>) -> nat
    decreases ms.len(),
{
    if ms.len() == 0 {
        0
    } else {
        list_sum(pieces, player, rights, ep, depth, ms.drop_last()) + child_count(
            pieces,
            player,
            rights,
            ep,
            depth,
            ms.last(),
        )
    }
}

/// The sum of `child_count` over the moves of `ms` among the first `n`
/// encodings.
pub open spec fn range_sum_in(pieces: Seq<Option<PieceType>>, player: Color, rights: u8, ep: u64, depth: nat, ms: Seq<Move>, n: nat) -> nat
    decreases n,
{
    if n == 0 {
        0
    } else {
        range_sum_in(pieces, player, rights, ep, depth, ms, (n - 1) as nat) + if ms.contains(
            decode(n - 1),
        ) {
            child_count(pieces, player, rights, ep, depth, decode(n - 1))
        } else {
            0
        }
    }
}

proof fn lemma_encoding(i: int, m: Move)
    requires
        0 <= i < 1048576,
        m.from < 64,
        m.to < 64,
    ensures
        decode(i).from < 64,
        decode(i).to < 64,
        0 <= encode(m) < 1048576,
        decode(i) == m <==> i == encode(m),
{
    assert(0 <= encode(m) < 1048576) by (nonlinear_arith)
        requires
            m.from < 64,
            m.to < 64,
    ;
    let e = encode(m);
    assert(e / 16384 == m.from && (e / 256) % 64 == m.to && e % 256 == m.flags) by (nonlinear_arith)
        requires
            e == m.from * 16384 + m.to * 256 + m.flags,
            m.from < 64,
            m.to < 64,
            m.flags < 256,
    ;
    assert(i == (i / 16384) * 16384 + ((i / 256) % 64) * 256 + i % 256 && i / 16384 < 64)
        by (nonlinear_arith)
        requires
            0 <= i < 1048576,
    ;
}

proof fn lemma_range_sum_legal(pieces: Seq<Option<PieceType>>, player: Color, rights: u8, ep: u64, depth: nat, ms: Seq<Move>, n: nat)
    requires
        depth > 0,
        forall|m: Move| #[trigger] ms.contains(m) <==> legal_move(pieces, player, rights, ep, m),
    ensures
        moves_sum(pieces, player, rights, ep, depth, n) == range_sum_in(pieces, player, rights, ep, depth, ms, n),
    decreases n,
{
    if n > 0 {
        lemma_range_sum_legal(pieces, player, rights, ep, depth, ms, (n - 1) as nat);
        assert(ms.contains(decode(n - 1)) == legal_move(pieces, player, rights, ep, decode(n - 1)));
    }
}

proof fn lemma_range_sum_push(pieces: Seq<Option<PieceType>>, player: Color, rights: u8, ep: u64, depth: nat, ms: Seq<Move>, x: Move, n: nat)
    requires
        !ms.contains(x),
        x.from < 64,
        x.to < 64,
        n <= 1048576,
    ensures
        range_sum_in(pieces, player, rights, ep, depth, ms.push(x), n) == range_sum_in(pieces, player, rights, ep, depth, ms, n)
            + if encode(x) < n {
            child_count(pieces, player, rights, ep, depth, x)
        } else {
            0
        },
    decreases n,
{
    if n > 0 {
        lemma_range_sum_push(pieces, player, rights, ep, depth, ms, x, (n - 1) as nat);
        let y = decode(n - 1);
        lemma_encoding(n - 1, x);
        let ps = ms.push(x);
        if ps.contains(y) {
            let k = choose|k: int| 0 <= k < ps.len() && ps[k] == y;
            if k < ms.len() {
                assert(ms[k] == y);
            }
        }
        if ms.contains(y) {
            let k = choose|k: int| 0 <= k < ms.len() && ms[k] == y;
            assert(ps[k] == y);
        }
        if y == x {
            assert(ps[ms.len() as int] == x);
        }
    }
}

proof fn lemma_list_sum(pieces: Seq<Option<PieceType>>, player: Color, rights: u8, ep: u64, depth: nat, ms: Seq<Move>)
    requires
        ms.no_duplicates(),
        forall|k: int| 0 <= k < ms.len() ==> (#[trigger] ms[k]).from < 64 && ms[k].to < 64,
    ensures
        list_sum(pieces, player, rights, ep, depth, ms) == range_sum_in(pieces, player, rights, ep, depth, ms, 1048576),
    decreases ms.len(),
{
    if ms.len() == 0 {
        lemma_range_sum_empty(pieces, player, rights, ep, depth, ms, 1048576);
    } else {
        let init = ms.drop_last();
        let x = ms.last();
        assert(init.no_duplicates());
        assert forall|k: int| 0 <= k < init.len() implies (#[trigger] init[k]).from < 64 && init[k].to < 64 by {
            assert(init[k] == ms[k]);
        }
        lemma_list_sum(pieces, player, rights, ep, depth, init);
        if init.contains(x) {
            let k = choose|k: int| 0 <= k < init.len() && init[k] == x;
            assert(ms[k] == ms[ms.len() - 1]);
        }
        assert(init.push(x) =~= ms);
        lemma_encoding(0, x);
        lemma_range_sum_push(pieces, player, rights, ep, depth, init, x, 1048576);
    }
}

proof fn lemma_range_sum_empty(pieces: Seq<Option<PieceType>>, player: Color, rights: u8, ep: u64, depth: nat, ms: Seq<Move>, n: nat)
    requires
        ms.len() == 0,
    ensures
        range_sum_in(pieces, player, rights, ep, depth, ms, n) == 0,
    decreases n,
{
    if n > 0 {
        lemma_range_sum_empty(pieces, player, rights, ep, depth, ms, (n - 1) as nat);
    }
}

/// Counts the leaves of the legal-move tree of depth `depth` below `board`,
/// applying and undoing each move; the board is left as it was. The count
/// saturates at `u64::MAX`.
pub fn perft(board: &mut Board, tables: &Tables, depth: u32) -> (count: u64)
    requires
        old(board).wf(),
        tables.wf(),
    ensures
        final(board).wf(),
        final(board).piece_list@ == old(board).piece_list@,
        final(board).gs == old(board).gs,
        final(board).gs_history@ == old(board).gs_history@,
        final(board).past@ == old(board).past@,
        count == saturated(
            leaf_count(
                old(board).piece_list@,
                old(board).gs.player_to_move,
                old(board).gs.castling_rights.bits,
                old(board).gs.en_passant_mask,
                depth as nat,
            ),
        ),
    decreases depth,
{
    if depth == 0 {
        return 1;
    }
    let moves = board.legal_moves(tables);
    let ghost pieces0 = board.piece_list@;
    let ghost gs0 = board.gs;
    let ghost player = gs0.player_to_move;
    let ghost rights = gs0.castling_rights.bits;
    let ghost ep = gs0.en_passant_mask;
    let ghost d = depth as nat;
    let ghost h0 = board.gs_history@;
    let ghost past0 = board.past@;
    proof {
        assert forall|m: Move| #[trigger] moves@.contains(m) <==> legal_move(pieces0, player, rights, ep, m) by {
            assert(pseudo_legal(pieces0, gs0, m) == pseudo_legal(pieces0, position_state(player, rights, ep), m));
            assert(apply_pieces(pieces0, gs0, m) == apply_pieces(pieces0, position_state(player, rights, ep), m));
        }
    }
    let mut count: u64 = 0;
    let mut i: usize = 0;
    while i < moves.len()
        invariant
            board.wf(),
            tables.wf(),
            board.piece_list@ == pieces0,
            board.gs == gs0,
            board.gs_history@ == h0,
            board.past@ == past0,
            player == gs0.player_to_move,
            rights == gs0.castling_rights.bits,
            ep == gs0.en_passant_mask,
            d == depth as nat,
            forall|m: Move| #[trigger] moves@.contains(m) ==> crate::move_gen::legal(pieces0, gs0, m),
            i <= moves.len(),
            depth > 0,
            count == saturated(list_sum(pieces0, player, rights, ep, d, moves@.take(i as int))),
        decreases moves.len() - i,
    {
        let m = moves[i];
        assert(moves@.contains(moves@[i as int]));
        board.make_move(&m);
        let below = perft(board, tables, depth - 1);
        board.undo_move();
        assert(board.gs_history@ =~= h0);
        assert(board.past@ =~= past0);
        proof {
            let t1 = moves@.take(i as int + 1);
            assert(t1.drop_last() =~= moves@.take(i as int));
            assert(t1.last() == m);
            assert(apply_pieces(pieces0, gs0, m) == apply_pieces(pieces0, position_state(player, rights, ep), m));
        }
        count = count.saturating_add(below);
        i += 1;
    }
    proof {
        assert(moves@.take(moves.len() as int) =~= moves@);
        assert forall|k: int| 0 <= k < moves@.len() implies (#[trigger] moves@[k]).from < 64 && moves@[k].to < 64 by {
            assert(moves@.contains(moves@[k]));
        }
        lemma_list_sum(pieces0, player, rights, ep, d, moves@);
        lemma_range_sum_legal(pieces0, player, rights, ep, d, moves@, 1048576);
    }
    count
}

} // verus!
