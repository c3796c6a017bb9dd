use chess_core::board::Board;
use chess_core::castling_flags::{
    CastlingFlags, BLACK_KING_SIDE, BLACK_QUEEN_SIDE, WHITE_KING_SIDE, WHITE_QUEEN_SIDE,
};
use chess_core::move_gen::Tables;
use chess_core::perft::perft;
use chess_core::piece::{Color, PieceType};

fn piece_of_char(c: char) -> PieceType {
    match c {
        'P' => PieceType::WPawn,
        'N' => PieceType::WKnight,
        'B' => PieceType::WBishop,
        'R' => PieceType::WRook,
        'Q' => PieceType::WQueen,
        'K' => PieceType::WKing,
        'p' => PieceType::BPawn,
        'n' => PieceType::BKnight,
        'b' => PieceType::BBishop,
        'r' => PieceType::BRook,
        'q' => PieceType::BQueen,
        'k' => PieceType::BKing,
        _ => panic!("unknown piece"),
    }
}

/// Builds a board from the first four fields of a FEN string.
fn from_fen(fen: &str) -> Board {
    let fields: Vec<&str> = fen.split_whitespace().collect();
    let mut pieces: Vec<Option<PieceType>> = vec![None; 64];
    for (i, row) in fields[0].split('/').enumerate() {
        let rank = 7 - i;
        let mut file = 0usize;
        for c in row.chars() {
            if let Some(d) = c.to_digit(10) {
                file += d as usize;
            } else {
                pieces[rank * 8 + file] = Some(piece_of_char(c));
                file += 1;
            }
        }
    }
    let player = if fields[1] == "w" { Color::White } else { Color::Black };
    let mut rights = 0u8;
    for c in fields[2].chars() {
        rights |= match c {
            'K' => WHITE_KING_SIDE,
            'Q' => WHITE_QUEEN_SIDE,
            'k' => BLACK_KING_SIDE,
            'q' => BLACK_QUEEN_SIDE,
            _ => 0,
        };
    }
    let ep = if fields[3] == "-" {
        0
    } else {
        let b = fields[3].as_bytes();
        let sq = (b[1] - b'1') as u64 * 8 + (b[0] - b'a') as u64;
        1u64 << sq
    };
    Board::from_pieces(&pieces, player, CastlingFlags::new(rights), ep)
}

const KIWIPETE: &str = "r3k2r/p1ppqpb1/bn2pnp1/3PN3/1p2P3/2N2Q1p/PPPBBPPP/R3K2R w KQkq -";
const ENDGAME: &str = "8/2p5/3p4/KP5r/1R3p1k/8/4P1P1/8 w - -";
const PROMOTIONS: &str = "r3k2r/Pppp1ppp/1b3nbN/nP6/BBP1P3/q4N2/Pp1P2PP/R2Q1RK1 w kq - 0 1";

#[test]
fn starting_position_from_fen_matches() {
    let b = from_fen("rnbqkbnr/pppppppp/8/8/8/8/PPPPPPPP/RNBQKBNR w KQkq -");
    assert_eq!(b.hash(), Board::starting_position().hash());
}

#[test]
fn kiwipete_perft() {
    let t = Tables::new();
    let mut b = from_fen(KIWIPETE);
    assert_eq!(perft(&mut b, &t, 1), 48);
    assert_eq!(perft(&mut b, &t, 2), 2039);
    assert_eq!(perft(&mut b, &t, 3), 97862);
}

#[test]
fn endgame_perft() {
    let t = Tables::new();
    let mut b = from_fen(ENDGAME);
    assert_eq!(perft(&mut b, &t, 1), 14);
    assert_eq!(perft(&mut b, &t, 2), 191);
    assert_eq!(perft(&mut b, &t, 3), 2812);
    assert_eq!(perft(&mut b, &t, 4), 43238);
}

#[test]
fn promotions_perft() {
    let t = Tables::new();
    let mut b = from_fen(PROMOTIONS);
    assert_eq!(perft(&mut b, &t, 1), 6);
    assert_eq!(perft(&mut b, &t, 2), 264);
    assert_eq!(perft(&mut b, &t, 3), 9467);
}
