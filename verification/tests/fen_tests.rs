// Reading positions from FEN: acceptance, each refusal, and the fields.

use chesscore::fen::FenError;
use chesscore::game::Game;
use chesscore::piece::Player;

#[test]
fn test_fen_startpos_fields() {
    let game = Game::from_fen("rnbqkbnr/pppppppp/8/8/8/8/PPPPPPPP/RNBQKBNR w KQkq - 0 1").unwrap();
    let fresh = Game::new();
    assert_eq!(game.player, Player::White);
    assert!(game.white_castle_rights.king_side && game.white_castle_rights.queen_side);
    assert!(game.black_castle_rights.king_side && game.black_castle_rights.queen_side);
    assert_eq!(game.en_passant_target, None);
    assert_eq!(game.halfmove_clock, 0);
    assert_eq!(game.fullmove_number, 1);
    assert_eq!(game.zobrist, fresh.zobrist);
}

#[test]
fn test_fen_side_and_clocks() {
    let game = Game::from_fen("4k3/8/8/8/8/8/4P3/4K3 b - - 13 42").unwrap();
    assert_eq!(game.player, Player::Black);
    assert_eq!(game.halfmove_clock, 13);
    assert_eq!(game.fullmove_number, 42);
    assert!(!game.white_castle_rights.can_castle());
}

#[test]
fn test_fen_en_passant_target() {
    let game =
        Game::from_fen("rnbqkbnr/2pppppp/p7/Pp6/8/8/1PPPPPPP/RNBQKBNR w KQkq b6 0 3").unwrap();
    assert_eq!(game.en_passant_target.unwrap().index, 5 * 8 + 1);
}

#[test]
fn test_fen_errors() {
    // a rank with nine squares
    assert_eq!(
        Game::from_fen("9/8/8/8/8/8/8/8 w - - 0 1").unwrap_err(),
        FenError::BadBoard
    );
    // no kings at all
    assert_eq!(
        Game::from_fen("8/8/8/8/8/8/8/8 w - - 0 1").unwrap_err(),
        FenError::BadKings
    );
    // two white kings
    assert_eq!(
        Game::from_fen("4k3/8/8/8/8/8/8/3KK3 w - - 0 1").unwrap_err(),
        FenError::BadKings
    );
    assert_eq!(
        Game::from_fen("4k3/8/8/8/8/8/8/4K3 x - - 0 1").unwrap_err(),
        FenError::BadSide
    );
    assert_eq!(
        Game::from_fen("4k3/8/8/8/8/8/8/4K3 w Kx - 0 1").unwrap_err(),
        FenError::BadCastling
    );
    assert_eq!(
        Game::from_fen("4k3/8/8/8/8/8/8/4K3 w - z9 0 1").unwrap_err(),
        FenError::BadEnPassant
    );
    assert_eq!(
        Game::from_fen("4k3/8/8/8/8/8/8/4K3 w - - x 1").unwrap_err(),
        FenError::BadNumber
    );
    // white to move, but the black king is already attacked
    assert_eq!(
        Game::from_fen("4k3/4R3/8/8/8/8/8/4K3 w - - 0 1").unwrap_err(),
        FenError::InvalidPosition
    );
}

#[test]
fn test_fen_drops_inconsistent_rights() {
    // rights claimed, but the rooks are gone
    let game = Game::from_fen("4k3/8/8/8/8/8/8/4K3 w KQkq - 0 1").unwrap();
    assert!(!game.white_castle_rights.can_castle());
    assert!(!game.black_castle_rights.can_castle());
}

#[test]
fn test_fen_error_messages() {
    assert!(FenError::BadKings.message().contains("king"));
    assert!(FenError::InvalidPosition.message().contains("check"));
}
