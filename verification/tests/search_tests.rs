// The search: opening sanity, mate finding, draw reporting, and the
// shape of the iterative-deepening reports.

use chesscore::eval::{Eval, MATE_VALUE};
use chesscore::game::Game;
use chesscore::moves::Move;
use chesscore::search::{negamax, search, PersistentState, PrincipalVariation, SearchState};
use chesscore::square::Square;
use chesscore::time_control::{SearchRestrictions, TimeStrategy};

fn run_search(fen: &str, depth: u8) -> (Game, Option<Move>, Eval, Vec<chesscore::search::SearchInfo>) {
    let mut game = Game::from_fen(fen).unwrap();
    let mut persistent = PersistentState::new(1 << 16);
    let mut state = SearchState::new();
    let restrictions = SearchRestrictions::depth_limit(depth);
    let tc = TimeStrategy::new(&restrictions);
    let (best, eval, reports) = search(&mut game, &mut persistent, &restrictions, &mut state, &tc);
    (game, best, eval, reports)
}

// From the start position, depth one: some legal opening move, scored
// within a pawn of level.
#[test]
fn test_startpos_depth_one() {
    let fen = "rnbqkbnr/pppppppp/8/8/8/8/PPPPPPPP/RNBQKBNR w KQkq - 0 1";
    let (mut game, best, eval, reports) = run_search(fen, 1);
    let m = best.expect("an opening move");
    assert!(game.legal_moves().contains(&m));
    assert!(eval.0.abs() <= 100);
    assert!(!reports.is_empty());
}

// The returned best move is always a member of the legal moves of the
// root position.
#[test]
fn test_best_move_is_legal() {
    let fens = [
        "r3k2r/p1ppqpb1/bn2pnp1/3PN3/1p2P3/2N2Q1p/PPPBBPPP/R3K2R w KQkq - 0 1",
        "rnbq1k1r/pp1Pbppp/2p5/8/2B5/8/PPP1NnPP/RNBQK2R w KQ - 1 8",
    ];
    for fen in fens {
        let (mut game, best, _, _) = run_search(fen, 2);
        let m = best.expect("a best move");
        assert!(game.legal_moves().contains(&m), "{}", fen);
    }
}

// Mate in one: the rook mates on the back rank, found at depth two with
// the exact mate score.
#[test]
fn test_mate_in_one() {
    let (_, best, eval, reports) = run_search("6k1/5ppp/8/8/8/8/5PPP/R5K1 w - - 0 1", 2);
    let ra8 = Move::new(Square { index: 0 }, Square { index: 56 });
    assert_eq!(best, Some(ra8));
    assert_eq!(eval.0, MATE_VALUE - 1);
    match reports.last().unwrap().score {
        chesscore::search::SearchScore::Mate(n) => assert_eq!(n, 1),
        _ => panic!("expected a mate score"),
    }
}

// King against king is reported drawn by dead material before any search.
#[test]
fn test_insufficient_material_draw() {
    let (_, best, eval, reports) = run_search("4k3/8/8/8/8/8/8/4K3 w - - 0 1", 3);
    assert_eq!(eval.0, 0);
    assert!(best.is_none());
    assert!(reports.is_empty());
}

// Reports come strictly deepening.
#[test]
fn test_reports_monotone_depths() {
    let (_, _, _, reports) = run_search("6k1/5ppp/8/8/8/8/5PPP/R5K1 w - - 0 1", 3);
    assert!(reports.len() >= 2);
    for w in reports.windows(2) {
        assert!(w[0].depth < w[1].depth);
    }
}

// A repeated position scores as a draw anywhere below the root.
#[test]
fn test_repetition_draw_in_search() {
    let mut game = Game::new();
    let loop_moves = [(6u8, 0u8, 5u8, 2u8), (6, 7, 5, 5), (5, 2, 6, 0), (5, 5, 6, 7)];
    for _ in 0..2 {
        for (sf, sr, df, dr) in loop_moves {
            game.make_move(Move::new(
                Square { index: sr * 8 + sf },
                Square { index: dr * 8 + df },
            ));
        }
    }
    assert!(game.is_repeated_position());
    let mut persistent = PersistentState::new(1 << 12);
    let mut state = SearchState::new();
    let restrictions = SearchRestrictions::depth_limit(1);
    let tc = TimeStrategy::new(&restrictions);
    let mut pv = PrincipalVariation::new();
    // at a non-root ply the repetition is an immediate draw
    let score = negamax(
        &mut game,
        Eval::min(),
        Eval::max(),
        1,
        1,
        &mut persistent,
        &mut pv,
        &tc,
        &mut state,
    );
    assert_eq!(score.0, 0);
}

// The plain alpha-beta reference finds the same mate in one.
#[test]
fn test_basic_negamax_mate_in_one() {
    let mut game = Game::from_fen("6k1/5ppp/8/8/8/8/5PPP/R5K1 w - - 0 1").unwrap();
    let mut persistent = PersistentState::new(1 << 14);
    let mut state = SearchState::new();
    let restrictions = SearchRestrictions::depth_limit(2);
    let tc = TimeStrategy::new(&restrictions);
    let score = chesscore::basic_search::negamax(
        &mut game,
        Eval::min(),
        Eval::max(),
        2,
        0,
        &mut persistent,
        &tc,
        &mut state,
    )
    .unwrap();
    assert_eq!(score.0, MATE_VALUE - 1);
}

// After a search, the stored principal variation can be read back from
// the table: it follows exact-bound entries and starts with the best move.
#[test]
fn test_get_pv_follows_exact_entries() {
    let mut game = Game::from_fen("6k1/5ppp/8/8/8/8/5PPP/R5K1 w - - 0 1").unwrap();
    let mut persistent = PersistentState::new(1 << 14);
    let mut state = SearchState::new();
    let restrictions = SearchRestrictions::depth_limit(2);
    let tc = TimeStrategy::new(&restrictions);
    let (best, _, _) = search(&mut game, &mut persistent, &restrictions, &mut state, &tc);
    let pv = chesscore::search::get_pv(2, &mut game, &persistent.tt);
    assert!(!pv.is_empty());
    assert!(pv.len() <= 2);
    assert_eq!(Some(pv[0]), best);
    assert_eq!(pv[0], Move::new(Square { index: 0 }, Square { index: 56 }));
}

// A stalemated root reports no move, no depths, and the draw score.
#[test]
fn test_stalemate_root_reports_draw() {
    let (_, best, eval, reports) = run_search("7k/5Q2/6K1/8/8/8/8/8 b - - 0 1", 3);
    assert!(best.is_none());
    assert!(reports.is_empty());
    assert_eq!(eval.0, 0);
}

// A checkmated root reports no move, no depths, and the mate-against score.
#[test]
fn test_checkmated_root_reports_mate() {
    let (_, best, eval, reports) = run_search("R6k/8/6K1/8/8/8/8/8 b - - 0 1", 3);
    assert!(best.is_none());
    assert!(reports.is_empty());
    assert_eq!(eval.0, -MATE_VALUE);
}

// A node limit stops the search.
#[test]
fn test_node_limit_stops() {
    let mut game = Game::new();
    let mut persistent = PersistentState::new(1 << 12);
    let mut state = SearchState::new();
    let restrictions = SearchRestrictions {
        depth: Some(50),
        nodes: Some(200),
        movetime_ms: None,
        infinite: false,
    };
    let tc = TimeStrategy::new(&restrictions);
    let (best, _, _) = search(&mut game, &mut persistent, &restrictions, &mut state, &tc);
    // the first depth completes fast enough to give a move; deeper
    // iterations abort on the node limit
    assert!(best.is_some());
}
