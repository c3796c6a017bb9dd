use chess_core::board::Board;
use chess_core::castling_flags::{CastlingFlags, WHITE_KING_SIDE, WHITE_QUEEN_SIDE};
use chess_core::chess_move::{Move, EN_PASSANT, KING_CASTLE, QUEEN_CASTLE};
use chess_core::move_gen::Tables;
use chess_core::perft::perft;
use chess_core::piece::{Color, PieceType};

fn position(placed: &[(u8, PieceType)], player: Color, castling: u8, ep: u64) -> Board {
    let mut pieces: Vec<Option<PieceType>> = vec![None; 64];
    for &(s, p) in placed {
        pieces[s as usize] = Some(p);
    }
    Board::from_pieces(&pieces, player, CastlingFlags::new(castling), ep)
}

fn play(b: &mut Board, t: &Tables, from: u8, to: u8) {
    let moves = b.legal_moves(t);
    let m = moves
        .iter()
        .find(|m| m.get_from() == from && m.get_to() == to)
        .copied()
        .expect("move should be legal");
    b.make_move(&m);
}

#[test]
fn fools_mate_is_checkmate() {
    let t = Tables::new();
    let mut b = Board::starting_position();
    play(&mut b, &t, 13, 21); // f3
    play(&mut b, &t, 52, 36); // e5
    play(&mut b, &t, 14, 30); // g4
    play(&mut b, &t, 59, 31); // Qh4
    assert!(b.legal_moves(&t).is_empty());
    assert!(b.in_check());
}

#[test]
fn cornered_king_is_stalemated() {
    let t = Tables::new();
    let mut b = position(
        &[(63, PieceType::BKing), (46, PieceType::WQueen), (53, PieceType::WKing)],
        Color::Black,
        0,
        0,
    );
    assert!(b.legal_moves(&t).is_empty());
    assert!(!b.in_check());
}

#[test]
fn castling_through_attacked_square_is_rejected() {
    let t = Tables::new();
    let mut b = position(
        &[(4, PieceType::WKing), (7, PieceType::WRook), (56, PieceType::BKing), (61, PieceType::BRook)],
        Color::White,
        WHITE_KING_SIDE,
        0,
    );
    // f1 is attacked, g1 is not
    assert!(b.is_attacked(5, Color::Black));
    assert!(!b.is_attacked(6, Color::Black));
    let moves = b.legal_moves(&t);
    assert!(!moves.iter().any(|m| m.is_king_castle()));

    let mut free = position(
        &[(4, PieceType::WKing), (7, PieceType::WRook), (56, PieceType::BKing), (57, PieceType::BRook)],
        Color::White,
        WHITE_KING_SIDE,
        0,
    );
    let moves = free.legal_moves(&t);
    assert_eq!(moves.iter().filter(|m| m.contains(KING_CASTLE)).count(), 1);
}

#[test]
fn queen_side_castle_moves_the_rook() {
    let t = Tables::new();
    let mut b = position(
        &[(4, PieceType::WKing), (0, PieceType::WRook), (60, PieceType::BKing)],
        Color::White,
        WHITE_QUEEN_SIDE,
        0,
    );
    let h0 = b.hash();
    let moves = b.legal_moves(&t);
    let castle = moves.iter().find(|m| m.contains(QUEEN_CASTLE)).copied().expect("castle");
    assert_eq!(castle.get_to(), 2);
    b.make_move(&castle);
    assert_eq!(b.piece_at(2), Some(PieceType::WKing));
    assert_eq!(b.piece_at(3), Some(PieceType::WRook));
    assert_eq!(b.piece_at(0), None);
    assert_eq!(b.gs.castling_rights.bits(), 0);
    b.undo_move();
    assert_eq!(b.piece_at(0), Some(PieceType::WRook));
    assert_eq!(b.piece_at(4), Some(PieceType::WKing));
    assert_eq!(b.gs.castling_rights.bits(), WHITE_QUEEN_SIDE);
    assert_eq!(b.hash(), h0);
}

#[test]
fn en_passant_lasts_one_ply() {
    let t = Tables::new();
    let mut b = Board::starting_position();
    play(&mut b, &t, 12, 28); // e4
    play(&mut b, &t, 48, 40); // a6
    play(&mut b, &t, 28, 36); // e5
    play(&mut b, &t, 51, 35); // d5
    assert_eq!(b.gs.en_passant_mask, 1u64 << 43);
    let moves = b.legal_moves(&t);
    let ep: Vec<Move> = moves.iter().filter(|m| m.contains(EN_PASSANT)).copied().collect();
    assert_eq!(ep.len(), 1);
    assert_eq!((ep[0].get_from(), ep[0].get_to()), (36, 43));

    b.make_move(&ep[0]);
    assert_eq!(b.piece_at(35), None);
    assert_eq!(b.piece_at(43), Some(PieceType::WPawn));
    b.undo_move();
    assert_eq!(b.piece_at(35), Some(PieceType::BPawn));

    play(&mut b, &t, 8, 16); // a3, declining the capture
    assert_eq!(b.gs.en_passant_mask, 0);
    play(&mut b, &t, 40, 32); // a5
    let moves = b.legal_moves(&t);
    assert!(!moves.iter().any(|m| m.is_ep()));
}

#[test]
fn promotion_yields_four_moves() {
    let t = Tables::new();
    let mut b = position(
        &[(48, PieceType::WPawn), (4, PieceType::WKing), (62, PieceType::BKing)],
        Color::White,
        0,
        0,
    );
    let moves = b.legal_moves(&t);
    let promos: Vec<Move> = moves.iter().filter(|m| m.get_from() == 48).copied().collect();
    assert_eq!(promos.len(), 4);
    let mut kinds: Vec<u8> = promos.iter().map(|m| m.promotion_kind()).collect();
    kinds.sort();
    assert_eq!(kinds, vec![1, 2, 3, 4]);
    let queen = promos.iter().find(|m| m.promotion_kind() == 4).copied().unwrap();
    b.make_move(&queen);
    assert_eq!(b.piece_at(56), Some(PieceType::WQueen));
    b.undo_move();
    assert_eq!(b.piece_at(48), Some(PieceType::WPawn));
    assert_eq!(b.piece_at(56), None);
}

#[test]
fn transposition_gives_same_hash() {
    let t = Tables::new();
    let mut b = Board::starting_position();
    let h0 = b.hash();
    play(&mut b, &t, 6, 21); // Nf3
    play(&mut b, &t, 62, 45); // Nf6
    play(&mut b, &t, 21, 6); // Ng1
    play(&mut b, &t, 45, 62); // Ng8
    assert_eq!(b.hash(), h0);
}

#[test]
fn random_sequences_round_trip() {
    let t = Tables::new();
    let mut b = Board::starting_position();
    let mut seed: u64 = 0x1234_5678;
    let mut trail: Vec<(u64, Vec<Option<PieceType>>, u64, u8)> = Vec::new();
    for _ in 0..80 {
        let moves = b.legal_moves(&t);
        if moves.is_empty() {
            break;
        }
        seed = seed.wrapping_mul(6364136223846793005).wrapping_add(1442695040888963407);
        let m = moves[((seed >> 33) as usize) % moves.len()];
        trail.push((b.hash(), b.piece_list.clone(), b.gs.en_passant_mask, b.gs.castling_rights.bits()));
        b.make_move(&m);
        for s in 0..64usize {
            for i in 0..12usize {
                let set = (b.bitboards[i] >> s) & 1 == 1;
                assert_eq!(set, b.piece_list[s] == Some(PieceType::from_index(i)));
            }
        }
    }
    while let Some((h, pieces, ep, rights)) = trail.pop() {
        b.undo_move();
        assert_eq!(b.hash(), h);
        assert_eq!(b.piece_list, pieces);
        assert_eq!(b.gs.en_passant_mask, ep);
        assert_eq!(b.gs.castling_rights.bits(), rights);
    }
    assert_eq!(b.history_len(), 0);
}

#[test]
fn perft_depth_zero_and_one() {
    let t = Tables::new();
    let mut b = Board::starting_position();
    assert_eq!(perft(&mut b, &t, 0), 1);
    assert_eq!(perft(&mut b, &t, 1), 20);
}

#[test]
fn perft_depth_two() {
    let t = Tables::new();
    let mut b = Board::starting_position();
    assert_eq!(perft(&mut b, &t, 2), 400);
}

#[test]
fn perft_depth_three() {
    let t = Tables::new();
    let mut b = Board::starting_position();
    assert_eq!(perft(&mut b, &t, 3), 8902);
}

#[test]
fn perft_depth_four() {
    let t = Tables::new();
    let mut b = Board::starting_position();
    assert_eq!(perft(&mut b, &t, 4), 197281);
    assert_eq!(b.history_len(), 0);
}

#[test]
fn perft_depth_five() {
    let t = Tables::new();
    let mut b = Board::starting_position();
    assert_eq!(perft(&mut b, &t, 5), 4865609);
}

#[test]
fn generated_moves_have_no_repeats() {
    let t = Tables::new();
    let mut b = Board::starting_position();
    let moves = b.legal_moves(&t);
    for i in 0..moves.len() {
        for j in (i + 1)..moves.len() {
            assert_ne!(moves[i], moves[j]);
        }
    }
    let pseudo = b.pseudo_legal_moves(&t);
    assert_eq!(pseudo.len(), 20);
}

#[test]
fn starting_position_layout() {
    let b = Board::starting_position();
    assert_eq!(b.piece_at(0), Some(PieceType::WRook));
    assert_eq!(b.piece_at(1), Some(PieceType::WKnight));
    assert_eq!(b.piece_at(3), Some(PieceType::WQueen));
    assert_eq!(b.piece_at(59), Some(PieceType::BQueen));
    assert_eq!(b.piece_at(62), Some(PieceType::BKnight));
    assert_eq!(b.piece_at(52), Some(PieceType::BPawn));
    assert_eq!(b.piece_at(30), None);
}
