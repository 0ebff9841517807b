// Evaluation: exact values, symmetry, and the saturating score type.

use chesscore::eval::{eval, eval_components, Eval, EVAL_CLAMP, MATE_VALUE};
use chesscore::game::Game;

// The starting position is symmetric, so its evaluation is exactly zero.
#[test]
fn test_startpos_eval_is_zero() {
    let game = Game::new();
    assert_eq!(eval(&game).0, 0);
    let c = eval_components(&game);
    assert_eq!(c.piece_square_midgame.0, 0);
    assert_eq!(c.piece_square_endgame.0, 0);
    assert_eq!(c.phase_value, 24);
    assert_eq!(c.piece_square_tables.0, 0);
}

// Eval symmetry: mirroring the board vertically and swapping the colors
// negates the score, for the side to move.
#[test]
fn test_eval_mirror_symmetry() {
    let pairs = [
        (
            "r3k2r/p1ppqpb1/bn2pnp1/3PN3/1p2P3/2N2Q1p/PPPBBPPP/R3K2R w KQkq - 0 1",
            "r3k2r/pppbbppp/2n2q1P/1P2p3/3pn3/BN2PNP1/P1PPQPB1/R3K2R w KQkq - 0 1",
        ),
        (
            "4k3/8/8/8/8/8/4P3/4K3 w - - 0 1",
            "4k3/4p3/8/8/8/8/8/4K3 w - - 0 1",
        ),
        (
            "6k1/5ppp/8/8/8/8/5PPP/R5K1 w - - 0 1",
            "r5k1/5ppp/8/8/8/8/5PPP/6K1 w - - 0 1",
        ),
    ];
    for (a, b) in pairs {
        let ga = Game::from_fen(a).unwrap();
        let gb = Game::from_fen(b).unwrap();
        assert_eq!(eval(&ga).0, -eval(&gb).0, "{} vs {}", a, b);
    }
}

// A queen up is clearly winning for the mover.
#[test]
fn test_eval_material_advantage() {
    let game = Game::from_fen("4k3/8/8/8/8/8/3Q4/4K3 w - - 0 1").unwrap();
    assert!(eval(&game).0 > 500);
    // the same position seen by the losing side
    let game = Game::from_fen("4k3/8/8/8/8/8/3Q4/4K3 b - - 0 1").unwrap();
    assert!(eval(&game).0 < -500);
}

// The perspective flip: the same position scores opposite for the two
// sides to move.
#[test]
fn test_eval_perspective() {
    let w = Game::from_fen("4k3/8/8/8/8/8/3R4/4K3 w - - 0 1").unwrap();
    let b = Game::from_fen("4k3/8/8/8/8/8/3R4/4K3 b - - 0 1").unwrap();
    assert_eq!(eval(&w).0, -eval(&b).0);
}

#[test]
fn test_eval_saturating_arithmetic() {
    assert_eq!(Eval(32000).add(Eval(32000)).0, 32767);
    assert_eq!(Eval(-32000).sub(Eval(32000)).0, -32768);
    assert_eq!(Eval(-32768).neg().0, 32767);
    assert_eq!(Eval(100).add(Eval(-30)).0, 70);
    assert_eq!(Eval(3).mul(50).0, 150);
    assert_eq!(Eval(1000).mul(1000).0, 32767);
    assert_eq!(Eval(5).neg().0, -5);
}

#[test]
fn test_mate_scores() {
    assert_eq!(Eval::mate_in(1).0, MATE_VALUE - 1);
    assert_eq!(Eval::mated_in(2).0, -(MATE_VALUE - 2));
    assert_eq!(Eval::mate_in(1).is_mate_in_moves(), Some(1));
    assert_eq!(Eval::mate_in(3).is_mate_in_moves(), Some(2));
    assert_eq!(Eval::mated_in(2).is_mate_in_moves(), Some(-1));
    assert_eq!(Eval(42).is_mate_in_moves(), None);
    // normalisation to and from the stored form
    let s = Eval::mate_in(5);
    assert_eq!(s.with_mate_distance_from_position(2).0, MATE_VALUE - 3);
    assert_eq!(s.with_mate_distance_from_position(2).with_mate_distance_from_root(2), s);
}

#[test]
fn test_eval_clamped() {
    let game = Game::new();
    let e = eval(&game);
    assert!(e.0.abs() <= EVAL_CLAMP);
}

#[test]
fn test_pawn_string() {
    assert_eq!(Eval(-42).to_pawn_string(), "-0.42");
    assert_eq!(Eval(150).to_pawn_string(), "1.50");
    assert_eq!(Eval(0).to_pawn_string(), "0.00");
    assert_eq!(Eval(-205).to_pawn_string(), "-2.05");
}
