//! A plain fail-hard alpha-beta negamax without the selective heuristics:
//! no pruning, no reductions, every move searched at full depth. It is
//! kept beside the principal-variation search as a simple reference whose
//! results shallow searches can be checked against.

use vstd::prelude::*;
use crate::eval::Eval;
use crate::game::Game;
use crate::movegen::{is_legal, lemma_legal_valid, valid_pos};
use crate::search::{PersistentState, SearchState, MAX_PLIES, MAX_SEARCH_DEPTH};
use crate::time_control::TimeStrategy;
use crate::tt::{NodeBound, SearchTranspositionTableData};

verus! {

/// Plain alpha-beta negamax. `Err` reports that the time control asked to
/// stop; otherwise a score comes back and the game exactly as it went in.
/// Below the root a repeated position or an exhausted halfmove clock
/// scores as the draw, and a position without legal moves scores as mate
/// or stalemate; an unaborted node that ran its move loop leaves a table
/// entry for this position at least as deep as the search.
#[verifier::rlimit(100)]
pub fn negamax(
    game: &mut Game,
    alpha_in: Eval,
    beta: Eval,
    depth_in: u8,
    plies: u8,
    persistent_state: &mut PersistentState,
    time_control: &TimeStrategy,
    state: &mut SearchState,
) -> (r: Result<Eval, ()>)
    requires
        valid_pos(old(game)@),
        plies <= MAX_PLIES,
        depth_in <= MAX_SEARCH_DEPTH,
        -32767 <= alpha_in.0 <= 32767,
        -32767 <= beta.0 <= 32767,
        alpha_in.0 < beta.0,
        old(persistent_state).inv(),
        old(state).inv(),
    ensures
        final(game)@ == old(game)@,
        final(persistent_state).inv(),
        final(persistent_state).tt.generation == old(persistent_state).tt.generation,
        final(state).inv(),
        r matches Ok(e) ==> -32767 <= e.0 <= 32767,
        plies > 0 && (crate::game::repeated_position(old(game)@) || old(game)@.halfmove >= 100)
            && r is Ok ==> r == Ok::<Eval, ()>(Eval::draw()),
        plies > 0 && (crate::game::repeated_position(old(game)@) || old(game)@.halfmove >= 100)
            ==> final(persistent_state).tt.entries@ == old(persistent_state).tt.entries@
            && final(persistent_state).history_table == old(persistent_state).history_table
            && final(state).killer_moves == old(state).killer_moves,
        crate::movegen::no_legal_moves(old(game)@) && !(plies > 0 && (
        crate::game::repeated_position(old(game)@) || old(game)@.halfmove >= 100)) && plies
            < MAX_PLIES && (depth_in > 0 || crate::movegen::in_check(
            old(game)@.board,
            old(game)@.player,
        )) && r is Ok ==> r == Ok::<Eval, ()>(
            if crate::movegen::in_check(old(game)@.board, old(game)@.player) {
                Eval::mated_in(plies)
            } else {
                Eval::draw()
            },
        ),
        !crate::movegen::no_legal_moves(old(game)@) && !(plies > 0 && (
        crate::game::repeated_position(old(game)@) || old(game)@.halfmove >= 100)) && plies
            < MAX_PLIES && (depth_in > 0 || crate::movegen::in_check(
            old(game)@.board,
            old(game)@.player,
        )) && r is Ok ==> (crate::tt::slot_entry(
            final(persistent_state).tt.entries@,
            old(game)@.zobrist,
        ) matches Some(e) && e.depth >= depth_in && e.age == old(persistent_state).tt.generation),
        time_control.node_limit is None && time_control.movetime_ms is None ==> r is Ok,
    decreases MAX_PLIES - plies, 1int,
{
    let ghost g0 = old(game)@;
    let is_root = plies == 0;
    let mut alpha = alpha_in;
    let mut depth = depth_in;
    if state.max_depth_reached < plies {
        state.max_depth_reached = plies;
    }
    // check extension at the horizon
    let in_chk = game.board.king_in_check(game.player);
    if depth == 0 && in_chk && depth < MAX_SEARCH_DEPTH {
        depth = depth + 1;
    }
    if !is_root {
        state.nodes_visited = state.nodes_visited.checked_add(1).unwrap_or(u64::MAX);
    }
    if !is_root && (game.is_repeated_position() || game.is_stalemate_by_fifty_move_rule()) {
        return Ok(Eval::draw());
    }
    if plies == MAX_PLIES {
        return Ok(crate::eval::eval(game));
    }
    if depth == 0 {
        let q = crate::search::quiescence(game, alpha, beta, plies, time_control, state);
        if q == Eval::aborted() {
            return Err(());
        }
        return Ok(q);
    }
    // the table serves only as a move-ordering hint here
    let mut previous_best_move = None;
    match persistent_state.tt.get(game.zobrist) {
        None => {},
        Some(entry) => {
            previous_best_move = entry.best_move;
        },
    }
    if !is_root && time_control.should_stop(state.nodes_visited) {
        return Err(());
    }
    let mut moves = game.legal_moves();
    if moves.len() == 0 {
        proof {
            assert forall|m: crate::moves::Move| !is_legal(g0, m) by {
                if is_legal(g0, m) {
                    assert(moves@.contains(m));
                }
            }
        }
        return Ok(
            if in_chk {
                Eval::mated_in(plies)
            } else {
                Eval::draw()
            },
        );
    }
    proof {
        assert(moves@.contains(moves@[0]));
        assert(is_legal(g0, moves@[0]));
        assert(!crate::movegen::no_legal_moves(g0));
    }
    proof {
        assert forall|k: int| 0 <= k < moves@.len() implies (#[trigger] moves@[k]).wf() by {
            assert(moves@.contains(moves@[k]));
        }
    }
    let ghost unordered = moves@;
    crate::search::order_moves(
        game,
        &mut moves,
        previous_best_move,
        &persistent_state.history_table,
        &state.killer_moves,
        plies,
    );
    proof {
        assert forall|k: int| 0 <= k < moves@.len() implies is_legal(
            g0,
            #[trigger] moves@[k],
        ) by {
            assert(moves@.contains(moves@[k]));
            assert(unordered.contains(moves@[k]));
        }
    }
    let mut tt_node_bound = NodeBound::Upper;
    let mut best_move: Option<crate::moves::Move> = None;
    let mut best_eval = Eval::min();
    let n = moves.len();
    let mut i: usize = 0;
    while i < n
        invariant
            g0 == old(game)@,
            game@ == g0,
            valid_pos(g0),
            i <= n,
            n == moves@.len(),
            persistent_state.inv(),
            persistent_state.tt.generation == old(persistent_state).tt.generation,
            state.inv(),
            forall|k: int| 0 <= k < n ==> is_legal(g0, #[trigger] moves@[k]),
            -32767 <= alpha.0 <= 32767,
            -32767 <= beta.0 <= 32767,
            alpha.0 < beta.0,
            -32767 <= best_eval.0 <= 32767,
            best_move matches Some(bm) ==> bm.wf(),
            plies < MAX_PLIES,
            1 <= depth <= MAX_SEARCH_DEPTH,
            depth_in <= depth,
            0 < n,
            !(plies > 0 && (crate::game::repeated_position(g0) || g0.halfmove >= 100)),
            !crate::movegen::no_legal_moves(g0),
        decreases n - i,
    {
        let m = moves[i];
        proof {
            assert(moves@[i as int] == m);
            assert(is_legal(g0, m));
            lemma_legal_valid(g0, m);
        }
        game.make_move(m);
        let cr = negamax(
            game,
            beta.neg(),
            alpha.neg(),
            depth - 1,
            plies + 1,
            persistent_state,
            time_control,
            state,
        );
        proof {
            assert(crate::game::undoable(game@));
        }
        game.undo_move();
        proof {
            crate::game::lemma_make_undo(g0, m);
        }
        let move_score = match cr {
            Err(e) => {
                return Err(e);
            },
            Ok(child) => child.neg(),
        };
        if move_score.0 > best_eval.0 {
            best_move = Some(m);
            best_eval = move_score;
        }
        // fail hard: a score at or above beta ends the node at beta
        if move_score.0 >= beta.0 {
            let data = SearchTranspositionTableData {
                bound: NodeBound::Lower,
                eval: move_score.with_mate_distance_from_position(plies),
                best_move: None,
                depth,
                age: persistent_state.tt.generation,
            };
            persistent_state.tt.insert(game.zobrist, data);
            return Ok(beta);
        }
        if move_score.0 > alpha.0 {
            alpha = move_score;
            tt_node_bound = NodeBound::Exact;
        }
        i = i + 1;
    }
    let data = SearchTranspositionTableData {
        bound: tt_node_bound,
        eval: alpha.with_mate_distance_from_position(plies),
        best_move,
        depth,
        age: persistent_state.tt.generation,
    };
    persistent_state.tt.insert(game.zobrist, data);
    Ok(alpha)
}

} // verus!
