use chess_core::geometry::{
    bishop_dirs, king_offsets, knight_offsets, merge_slider_rays, precompute_between_bitboards,
    precompute_direct_piece_moves, precompute_slider_rays, rook_dirs,
};

#[test]
fn knight_moves_from_corner() {
    let moves = precompute_direct_piece_moves(knight_offsets());
    assert_eq!(moves.len(), 64);
    assert_eq!(moves[0], (1u64 << 17) | (1u64 << 10));
    // d4 reaches eight squares
    assert_eq!(moves[27].count_ones(), 8);
}

#[test]
fn king_moves_from_corner_and_centre() {
    let moves = precompute_direct_piece_moves(king_offsets());
    assert_eq!(moves[0], 0x302);
    assert_eq!(moves[27].count_ones(), 8);
    assert_eq!(moves[63], (1u64 << 62) | (1u64 << 55) | (1u64 << 54));
}

#[test]
fn rook_rays_from_a1() {
    let rays = precompute_slider_rays(rook_dirs(), false);
    assert_eq!(rays[0][0], 0x0101_0101_0101_0100);
    assert_eq!(rays[0][1], 0xfe);
    assert_eq!(rays[0][2], 0);
    assert_eq!(rays[0][3], 0);
}

#[test]
fn no_border_rays_stop_before_edge() {
    let rays = precompute_slider_rays(rook_dirs(), true);
    assert_eq!(rays[0][0], 0x0001_0101_0101_0100);
    assert_eq!(rays[0][1], 0x7e);
    let diag = precompute_slider_rays(bishop_dirs(), true);
    // from a1 north-east: b2 .. g7
    assert_eq!(diag[0][1], 0x0040_2010_0804_0200);
}

#[test]
fn merged_rook_moves_from_a1() {
    let rays = precompute_slider_rays(rook_dirs(), false);
    let moves = merge_slider_rays(&rays);
    assert_eq!(moves[0], 0x0101_0101_0101_01fe);
    let no_border = merge_slider_rays(&precompute_slider_rays(rook_dirs(), true));
    assert_eq!(no_border[0], 0x0001_0101_0101_017e);
}

#[test]
fn merged_bishop_moves_from_d4() {
    let moves = merge_slider_rays(&precompute_slider_rays(bishop_dirs(), false));
    assert_eq!(moves[27].count_ones(), 13);
    assert_eq!(moves[27] & (1u64 << 27), 0);
}

#[test]
fn between_squares() {
    let between = precompute_between_bitboards();
    assert_eq!(between[0][63], 0x0040_2010_0804_0200);
    assert_eq!(between[63][0], 0x0040_2010_0804_0200);
    assert_eq!(between[0][7], 0x7e);
    assert_eq!(between[0][56], 0x0001_0101_0101_0100);
    assert_eq!(between[0][1], 0);
    assert_eq!(between[0][17], 0);
    assert_eq!(between[5][5], 0);
}

#[test]
fn shared_tables_agree_with_builders() {
    let t = chess_core::move_gen::Tables::new();
    assert_eq!(t.knight_moves[0], (1u64 << 17) | (1u64 << 10));
    assert_eq!(t.king_moves[0], 0x302);
    assert_eq!(t.rook_moves[0], 0x0101_0101_0101_01fe);
    assert_eq!(t.rook_moves_no_border[0], 0x0001_0101_0101_017e);
    assert_eq!(t.bishop_moves[0], 0x8040_2010_0804_0200);
    assert_eq!(t.bishop_moves_no_border[0], 0x0040_2010_0804_0200);
    assert_eq!(t.between[7][56], 0x0002_0408_1020_4000);
    assert_eq!(t.between[3][59], 0x0008_0808_0808_0800);
}
