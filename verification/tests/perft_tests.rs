// Perft: exact leaf counts of the legal move tree for the standard test
// positions, at depths that run quickly.

use chesscore::game::Game;

fn perft_of(fen: &str, depth: u8) -> u64 {
    let mut game = Game::from_fen(fen).unwrap();
    game.perft(depth)
}

#[test]
fn test_perft_startpos() {
    let fen = "rnbqkbnr/pppppppp/8/8/8/8/PPPPPPPP/RNBQKBNR w KQkq - 0 1";
    assert_eq!(perft_of(fen, 1), 20);
    assert_eq!(perft_of(fen, 2), 400);
    assert_eq!(perft_of(fen, 3), 8902);
}

#[test]
fn test_perft_kiwipete() {
    let fen = "r3k2r/p1ppqpb1/bn2pnp1/3PN3/1p2P3/2N2Q1p/PPPBBPPP/R3K2R w KQkq - 0 1";
    assert_eq!(perft_of(fen, 1), 48);
    assert_eq!(perft_of(fen, 2), 2039);
}

#[test]
fn test_perft_position_three() {
    let fen = "8/2p5/3p4/KP5r/1R3p1k/8/4P1P1/8 w - - 0 1";
    assert_eq!(perft_of(fen, 1), 14);
    assert_eq!(perft_of(fen, 2), 191);
    assert_eq!(perft_of(fen, 3), 2812);
}

#[test]
fn test_perft_position_four() {
    let fen = "r3k2r/Pppp1ppp/1b3nbN/nP6/BBP1P3/q4N2/Pp1P2PP/R2Q1RK1 w kq - 0 1";
    assert_eq!(perft_of(fen, 1), 6);
    assert_eq!(perft_of(fen, 2), 264);
}

#[test]
fn test_perft_position_five() {
    let fen = "rnbq1k1r/pp1Pbppp/2p5/8/2B5/8/PPP1NnPP/RNBQK2R w KQ - 1 8";
    assert_eq!(perft_of(fen, 1), 44);
    assert_eq!(perft_of(fen, 2), 1486);
}
