use chess_core::board::Board;
use chess_core::chess_move::{Move, CAPTURE, DOUBLE_PAWN_PUSH};
use chess_core::piece::{Color, PieceType};

#[test]
fn double_push_sets_and_undo_restores() {
    let mut b = Board::starting_position();
    let h0 = b.hash();
    b.make_move(&Move::new(12, 28, DOUBLE_PAWN_PUSH));
    assert_eq!(b.gs.en_passant_mask, 1u64 << 20);
    assert_eq!(b.piece_at(28), Some(PieceType::WPawn));
    assert_eq!(b.piece_at(12), None);
    assert_eq!(b.gs.player_to_move, Color::Black);
    assert_ne!(b.hash(), h0);
    assert_eq!(b.history_len(), 1);
    b.undo_move();
    assert_eq!(b.hash(), h0);
    assert_eq!(b.piece_at(12), Some(PieceType::WPawn));
    assert_eq!(b.piece_at(28), None);
    assert_eq!(b.gs.en_passant_mask, 0);
    assert_eq!(b.history_len(), 0);
}

#[test]
fn capture_and_undo() {
    let mut b = Board::starting_position();
    let h0 = b.hash();
    b.make_move(&Move::new(12, 28, DOUBLE_PAWN_PUSH));
    b.make_move(&Move::new(51, 35, DOUBLE_PAWN_PUSH));
    b.make_move(&Move::new(28, 35, CAPTURE));
    assert_eq!(b.piece_at(35), Some(PieceType::WPawn));
    assert_eq!(b.gs.en_passant_mask, 0);
    b.undo_move();
    assert_eq!(b.piece_at(35), Some(PieceType::BPawn));
    assert_eq!(b.piece_at(28), Some(PieceType::WPawn));
    b.undo_move();
    b.undo_move();
    assert_eq!(b.hash(), h0);
}
