// Move generation: the legality filter, en passant and castling.

use chesscore::game::Game;
use chesscore::moves::Move;
use chesscore::square::Square;

fn sq(file: u8, rank: u8) -> Square {
    Square { index: rank * 8 + file }
}

fn legal_filtered(fen: &str) -> (Game, Vec<Move>) {
    let mut game = Game::from_fen(fen).unwrap();
    let pseudo = game.pseudo_legal_moves();
    let mut moves = Vec::new();
    for m in pseudo {
        let player = game.player;
        game.make_move(m);
        let is_in_check = game.board.king_in_check(player);
        game.undo_move();
        if !is_in_check {
            moves.push(m);
        }
    }
    (game, moves)
}

fn should_allow_move(fen: &str, squares: (Square, Square)) {
    let (_, moves) = legal_filtered(fen);
    let (src, dst) = squares;
    let mv = Move::new(src, dst);
    assert!(moves.iter().any(|m| *m == mv));
}

#[test]
fn test_simple_rook_move() {
    should_allow_move(
        "rnbqkbnr/1ppppppp/p7/8/8/P7/1PPPPPPP/RNBQKBNR w KQkq - 0 2",
        (sq(0, 0), sq(0, 1)),
    );
}

#[test]
fn test_simple_bishop_move() {
    let fen = "rnbqkbnr/1ppppp1p/p5p1/8/8/1P6/PBPPPPPP/RN1QKBNR w KQkq - 0 3";
    should_allow_move(fen, (sq(1, 1), sq(2, 2)));
    should_allow_move(fen, (sq(1, 1), sq(7, 7)));
}

#[test]
fn test_en_passant_bug_20230308() {
    should_allow_move(
        "rnbqkbnr/2pppppp/p7/Pp6/8/8/1PPPPPPP/RNBQKBNR w KQkq b6 0 3",
        (sq(0, 4), sq(1, 5)),
    );
}

// The filtered pseudo-legal moves agree with legal_moves, and legal moves
// are a subset of pseudo-legal moves.
#[test]
fn test_legal_subset_of_pseudo() {
    let fen = "rnbqkbnr/2pppppp/p7/Pp6/8/8/1PPPPPPP/RNBQKBNR w KQkq b6 0 3";
    let (mut game, filtered) = legal_filtered(fen);
    let legal = game.legal_moves();
    let pseudo = game.pseudo_legal_moves();
    assert_eq!(legal.len(), filtered.len());
    for m in &legal {
        assert!(filtered.contains(m));
        assert!(pseudo.contains(m));
    }
}

// Castling through an attacked square is refused; the queenside castle of
// the same position is fine.
#[test]
fn test_castle_blocked_by_attack() {
    let mut game = Game::from_fen("r3k2r/8/8/8/8/8/8/R3K1nR w KQkq - 0 1").unwrap();
    let legal = game.legal_moves();
    let kingside = Move::new(sq(4, 0), sq(6, 0));
    let queenside = Move::new(sq(4, 0), sq(2, 0));
    assert!(!legal.contains(&kingside));
    assert!(legal.contains(&queenside));
}

// The en-passant capture of the scenario position is legal.
#[test]
fn test_en_passant_in_legal_moves() {
    let mut game =
        Game::from_fen("rnbqkbnr/2pppppp/p7/Pp6/8/8/1PPPPPPP/RNBQKBNR w KQkq b6 0 3").unwrap();
    let legal = game.legal_moves();
    assert!(legal.contains(&Move::new(sq(0, 4), sq(1, 5))));
}

#[test]
fn test_startpos_has_twenty_moves() {
    let mut game = Game::new();
    assert_eq!(game.legal_moves().len(), 20);
}

#[test]
fn test_king_in_check_detection() {
    // the black king on e8 is in check from the rook on e1
    let game = Game::from_fen("4k3/8/8/8/8/8/8/4R1K1 b - - 0 1").unwrap();
    assert!(game.board.king_in_check(chesscore::piece::Player::Black));
    assert!(!game.board.king_in_check(chesscore::piece::Player::White));
}
