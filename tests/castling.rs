use chess_core::castling_flags::{
    CastlingFlags, BLACK_KING_SIDE, BLACK_QUEEN_SIDE, WHITE_KING_SIDE, WHITE_QUEEN_SIDE,
};

#[test]
fn king_move_clears_both_rights_of_its_side() {
    let mut f = CastlingFlags::all();
    f.update(4, 12);
    assert_eq!(f.bits(), BLACK_KING_SIDE | BLACK_QUEEN_SIDE);
}

#[test]
fn rook_capture_clears_the_captured_rooks_right() {
    let mut f = CastlingFlags::all();
    f.update(0, 63);
    assert_eq!(f.bits(), WHITE_KING_SIDE | BLACK_QUEEN_SIDE);
}

#[test]
fn cleared_rights_never_return() {
    let mut f = CastlingFlags::new(WHITE_KING_SIDE);
    f.update(8, 16);
    assert_eq!(f.bits(), WHITE_KING_SIDE);
    f.update(7, 15);
    assert_eq!(f.bits(), 0);
    f.update(12, 20);
    assert_eq!(f.bits(), 0);
    assert!(!f.contains(WHITE_QUEEN_SIDE));
}
