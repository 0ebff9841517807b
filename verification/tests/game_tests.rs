// Make / unmake round trips, Zobrist reconstruction, and draw detection.

use chesscore::game::Game;
use chesscore::moves::Move;
use chesscore::square::Square;
use chesscore::zobrist::compute_zobrist;

fn sq(file: u8, rank: u8) -> Square {
    Square { index: rank * 8 + file }
}

fn assert_same_game(a: &Game, b: &Game) {
    assert_eq!(a.board.white_pieces, b.board.white_pieces);
    assert_eq!(a.board.black_pieces, b.board.black_pieces);
    assert_eq!(a.board.pieces[..], b.board.pieces[..]);
    assert_eq!(a.player, b.player);
    assert_eq!(a.white_castle_rights, b.white_castle_rights);
    assert_eq!(a.black_castle_rights, b.black_castle_rights);
    assert_eq!(a.en_passant_target, b.en_passant_target);
    assert_eq!(a.halfmove_clock, b.halfmove_clock);
    assert_eq!(a.fullmove_number, b.fullmove_number);
    assert_eq!(a.zobrist, b.zobrist);
    assert_eq!(a.history.len(), b.history.len());
}

// Making any legal move and undoing it restores the game bit for bit,
// also through captures, promotions, en passant and castling.
#[test]
fn test_make_undo_roundtrip() {
    let fens = [
        "rnbqkbnr/pppppppp/8/8/8/8/PPPPPPPP/RNBQKBNR w KQkq - 0 1",
        "r3k2r/p1ppqpb1/bn2pnp1/3PN3/1p2P3/2N2Q1p/PPPBBPPP/R3K2R w KQkq - 0 1",
        "rnbqkbnr/2pppppp/p7/Pp6/8/8/1PPPPPPP/RNBQKBNR w KQkq b6 0 3",
        "rnbq1k1r/pp1Pbppp/2p5/8/2B5/8/PPP1NnPP/RNBQK2R w KQ - 1 8",
    ];
    for fen in fens {
        let mut game = Game::from_fen(fen).unwrap();
        let saved = game.clone();
        let moves = game.legal_moves();
        assert!(!moves.is_empty());
        for m in moves {
            game.make_move(m);
            game.undo_move();
            assert_same_game(&game, &saved);
        }
    }
}

// The stored Zobrist key always equals the XOR reconstruction from
// pieces, rights, side to move and en passant.
#[test]
fn test_zobrist_reconstruction() {
    let mut game = Game::new();
    let check = |g: &Game| {
        let z = compute_zobrist(
            &g.board,
            g.player,
            g.white_castle_rights,
            g.black_castle_rights,
            g.en_passant_target,
        );
        assert_eq!(g.zobrist, z);
    };
    check(&game);
    // a few moves deep, including a double push that sets en passant
    for (s, d) in [(sq(4, 1), sq(4, 3)), (sq(4, 6), sq(4, 4)), (sq(6, 0), sq(5, 2))] {
        game.make_move(Move::new(s, d));
        check(&game);
    }
    game.undo_move();
    check(&game);
}

// Equal positions have equal keys: reaching the same position by
// different move orders gives the same Zobrist key.
#[test]
fn test_zobrist_transposition() {
    let mut a = Game::new();
    a.make_move(Move::new(sq(6, 0), sq(5, 2)));
    a.make_move(Move::new(sq(6, 7), sq(5, 5)));
    a.make_move(Move::new(sq(1, 0), sq(2, 2)));
    let mut b = Game::new();
    b.make_move(Move::new(sq(1, 0), sq(2, 2)));
    b.make_move(Move::new(sq(6, 7), sq(5, 5)));
    b.make_move(Move::new(sq(6, 0), sq(5, 2)));
    assert_eq!(a.zobrist, b.zobrist);
}

// Knights out and back twice: the position repeats.
#[test]
fn test_repetition_detected() {
    let mut game = Game::new();
    let loop_moves = [
        (sq(6, 0), sq(5, 2)),
        (sq(6, 7), sq(5, 5)),
        (sq(5, 2), sq(6, 0)),
        (sq(5, 5), sq(6, 7)),
    ];
    assert!(!game.is_repeated_position());
    for _ in 0..2 {
        for (s, d) in loop_moves {
            game.make_move(Move::new(s, d));
        }
    }
    assert!(game.is_repeated_position());
}

#[test]
fn test_fifty_move_rule() {
    let mut game = Game::from_fen("4k3/8/8/8/8/8/4P3/4K3 w - - 99 80").unwrap();
    assert!(!game.is_stalemate_by_fifty_move_rule());
    // a quiet king move pushes the clock to one hundred
    game.make_move(Move::new(sq(4, 0), sq(3, 0)));
    assert!(game.is_stalemate_by_fifty_move_rule());
}

#[test]
fn test_insufficient_material() {
    let draws = [
        "4k3/8/8/8/8/8/8/4K3 w - - 0 1",        // K vs K
        "4k3/8/8/8/8/8/5N2/4K3 w - - 0 1",      // K+N vs K
        "4k3/8/8/8/8/8/5B2/4K3 w - - 0 1",      // K+B vs K
        "2b1k3/8/8/8/8/8/8/3BK3 w - - 0 1",     // bishops on same color
    ];
    for fen in draws {
        let game = Game::from_fen(fen).unwrap();
        assert!(game.is_stalemate_by_insufficient_material(), "{}", fen);
    }
    let not_draws = [
        "4k3/8/8/8/8/8/4P3/4K3 w - - 0 1",      // a pawn can still win
        "4k3/8/8/8/8/8/5NN1/4K3 w - - 0 1",     // two knights
        "4kb2/8/8/8/8/8/8/4KB2 w - - 0 1",      // bishops on opposite colors
        "rnbqkbnr/pppppppp/8/8/8/8/PPPPPPPP/RNBQKBNR w KQkq - 0 1",
    ];
    for fen in not_draws {
        let game = Game::from_fen(fen).unwrap();
        assert!(!game.is_stalemate_by_insufficient_material(), "{}", fen);
    }
}

// A null move only changes the side to move, the clocks and the key, and
// undoes exactly.
#[test]
fn test_null_move_roundtrip() {
    let mut game = Game::from_fen("4k3/8/8/8/8/8/4P3/4K3 w - - 3 10").unwrap();
    let saved = game.clone();
    game.make_null_move();
    assert_ne!(game.player, saved.player);
    assert_ne!(game.zobrist, saved.zobrist);
    game.undo_null_move();
    assert_same_game(&game, &saved);
}
