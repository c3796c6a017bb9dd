use chess_core::chess_move::{Move, CAPTURE, DOUBLE_PAWN_PUSH, EN_PASSANT};
use chess_core::piece::{Color, PieceType};

#[test]
fn move_accessors() {
    let m = Move::new(12, 28, DOUBLE_PAWN_PUSH);
    assert_eq!(m.get_from(), 12);
    assert_eq!(m.get_to(), 28);
    assert!(m.is_double_pawn_push());
    assert!(!m.is_capture());
    assert!(!m.is_promotion());
    let e = Move::new(36, 43, EN_PASSANT);
    assert!(e.is_ep());
    assert!(!e.is_king_castle() && !e.is_queen_castle());
}

#[test]
fn promotion_encoding() {
    let m = Move::new_promotion(52, 61, 2, CAPTURE);
    assert!(m.is_promotion());
    assert!(m.is_capture());
    assert_eq!(m.promotion_kind(), 2);
    assert_eq!(m.get_promotion_piece(Color::Black), PieceType::BBishop);
    assert_eq!(m.get_promotion_piece(Color::White), PieceType::WBishop);
}

#[test]
fn piece_colours_and_kinds() {
    assert_eq!(PieceType::from_color(PieceType::WRook, Color::Black), PieceType::BRook);
    assert_eq!(PieceType::BKing.color(), Color::Black);
    assert_eq!(PieceType::WQueen.kind(), 4);
    assert_eq!(PieceType::from_index(PieceType::BKnight.index()), PieceType::BKnight);
    assert_eq!(Color::White.other(), Color::Black);
}
