//! The search: iterative deepening driving a principal-variation negamax
//! with quiescence leaves, transposition-table move ordering, killer and
//! history heuristics, null-move, reverse-futility and futility pruning,
//! late-move reductions and a check extension.
//!
//! Every search function returns the game exactly as it found it, and
//! every score it returns is either the abort sentinel or a real score.

use vstd::prelude::*;
use crate::eval::{eval, spec_eval, Eval};
use crate::game::{spec_make, Game, GameV};
use crate::movegen::{
    gen_idx, idx_move, is_legal, lemma_gen_idx_roundtrip, lemma_legal_valid, valid_pos,
    MOVE_INDEX_BOUND,
};
use crate::moves::Move;
use crate::piece::Player;
use crate::square::Square;
use crate::time_control::{SearchRestrictions, TimeStrategy};
use crate::tt::{NodeBound, SearchTranspositionTable, SearchTranspositionTableData};

verus! {

/// The deepest nominal search depth.
pub const MAX_SEARCH_DEPTH: u8 = 60;

/// The hard ceiling on plies from the root, extensions included.
pub const MAX_PLIES: u8 = 100;

pub const REVERSE_FUTILITY_PRUNE_DEPTH: u8 = 4;

pub const REVERSE_FUTILITY_PRUNE_MARGIN_PER_PLY: i16 = 75;

pub const NULL_MOVE_PRUNING_DEPTH_LIMIT: u8 = 3;

pub const NULL_MOVE_PRUNING_DEPTH_REDUCTION: u8 = 2;

pub const LMR_DEPTH: u8 = 3;

pub const LMR_MOVE_THRESHOLD: usize = 4;

pub const FUTILITY_PRUNE_DEPTH: u8 = 2;

pub const FUTILITY_PRUNE_MAX_MOVE_VALUE: i16 = 300;

/// History counters saturate here so that they never dominate captures.
pub const HISTORY_MAX: u32 = 16384;

/// Two remembered quiet cutoff moves per ply.
pub struct KillerMoves {
    pub slots: Vec<(Option<Move>, Option<Move>)>,
}

impl KillerMoves {
    pub open spec fn inv(&self) -> bool {
        self.slots@.len() == MAX_PLIES + 1
    }

    pub fn new() -> (r: KillerMoves)
        ensures
            r.inv(),
    {
        let mut slots: Vec<(Option<Move>, Option<Move>)> = Vec::new();
        let mut i: usize = 0;
        while i < (MAX_PLIES + 1) as usize
            invariant
                slots@.len() == i,
                i <= (MAX_PLIES + 1) as usize,
            decreases (MAX_PLIES + 1) as usize - i,
        {
            slots.push((None, None));
            i = i + 1;
        }
        KillerMoves { slots }
    }

    /// Remember a quiet cutoff move, shifting the previous one aside; a
    /// move already in the first slot stays put.
    pub fn try_push(&mut self, plies: u8, mv: Move)
        requires
            old(self).inv(),
            plies <= MAX_PLIES,
        ensures
            final(self).inv(),
            final(self).slots@ == (if old(self).slots@[plies as int].0 == Some(mv) {
                old(self).slots@
            } else {
                old(self).slots@.update(
                    plies as int,
                    (Some(mv), old(self).slots@[plies as int].0),
                )
            }),
    {
        let (first, _) = self.slots[plies as usize];
        let keep = match first {
            Some(f) => if f == mv {
                return ;
            } else {
                Some(f)
            },
            None => None,
        };
        self.slots[plies as usize] = (Some(mv), keep);
    }

    pub fn get(&self, plies: u8) -> (r: (Option<Move>, Option<Move>))
        requires
            self.inv(),
            plies <= MAX_PLIES,
        ensures
            r == self.slots@[plies as int],
    {
        self.slots[plies as usize]
    }
}

/// The counter cell a quiet move of `player` is credited in.
pub open spec fn history_index(player: Player, m: Move) -> int {
    (if player is White {
        0int
    } else {
        4096int
    }) + m.src.index * 64 + m.dst.index
}

/// A cutoff counter per (side to move, source, destination), used to
/// order quiet moves.
pub struct HistoryTable {
    pub counters: Vec<u32>,
}

impl HistoryTable {
    pub open spec fn inv(&self) -> bool {
        &&& self.counters@.len() == 8192
        &&& forall|i: int| 0 <= i < 8192 ==> self.counters@[i] <= HISTORY_MAX
    }

    pub fn new() -> (r: HistoryTable)
        ensures
            r.inv(),
    {
        let mut counters: Vec<u32> = Vec::new();
        let mut i: usize = 0;
        while i < 8192
            invariant
                counters@.len() == i,
                i <= 8192,
                forall|j: int| 0 <= j < i ==> counters@[j] == 0,
            decreases 8192 - i,
        {
            counters.push(0);
            i = i + 1;
        }
        HistoryTable { counters }
    }

    fn index_of(player: Player, m: Move) -> (r: usize)
        requires
            m.wf(),
        ensures
            r < 8192,
            r as int == history_index(player, m),
    {
        let base: usize = match player {
            Player::White => 0,
            Player::Black => 4096,
        };
        base + (m.src.index as usize) * 64 + m.dst.index as usize
    }

    /// Credit a quiet move that caused a cutoff with the square of the
    /// depth it was found at, saturating at the cap.
    pub fn add_bonus_for(&mut self, player: Player, m: Move, depth: u8)
        requires
            old(self).inv(),
            m.wf(),
        ensures
            final(self).inv(),
            ({
                let idx = history_index(player, m);
                let raised = old(self).counters@[idx] + depth * depth;
                final(self).counters@ == old(self).counters@.update(
                    idx,
                    (if raised > HISTORY_MAX {
                        HISTORY_MAX as u32
                    } else {
                        raised as u32
                    }),
                )
            }),
    {
        let idx = Self::index_of(player, m);
        proof {
            assert(depth as int * depth as int <= 65025) by (nonlinear_arith)
                requires
                    0 <= depth as int <= 255,
            ;
        }
        let bonus = (depth as u32) * (depth as u32);
        let v = self.counters[idx];
        proof {
            assert(self.counters@[idx as int] <= HISTORY_MAX);
        }
        let nv = if v + bonus > HISTORY_MAX {
            HISTORY_MAX
        } else {
            v + bonus
        };
        self.counters[idx] = nv;
        proof {
            assert forall|i: int| 0 <= i < 8192 implies self.counters@[i] <= HISTORY_MAX by {
                if i != idx as int {
                    assert(old(self).counters@[i] <= HISTORY_MAX);
                }
            }
        }
    }

    pub fn get(&self, player: Player, m: Move) -> (r: u32)
        requires
            self.inv(),
            m.wf(),
        ensures
            r == self.counters@[history_index(player, m)],
            r <= HISTORY_MAX,
    {
        self.counters[Self::index_of(player, m)]
    }
}

/// The state that survives across searches: the transposition table and
/// the history counters.
pub struct PersistentState {
    pub tt: SearchTranspositionTable,
    pub history_table: HistoryTable,
}

impl PersistentState {
    pub open spec fn inv(&self) -> bool {
        self.tt.inv() && self.history_table.inv()
    }

    /// Fresh search state with a table of `tt_capacity` slots.
    pub fn new(tt_capacity: usize) -> (r: PersistentState)
        requires
            0 < tt_capacity,
        ensures
            r.inv(),
    {
        PersistentState {
            tt: SearchTranspositionTable::new(tt_capacity),
            history_table: HistoryTable::new(),
        }
    }
}

/// The per-search bookkeeping.
pub struct SearchState {
    pub nodes_visited: u64,
    pub max_depth_reached: u8,
    pub killer_moves: KillerMoves,
}

impl SearchState {
    pub open spec fn inv(&self) -> bool {
        self.killer_moves.inv()
    }

    pub fn new() -> (r: SearchState)
        ensures
            r.inv(),
    {
        SearchState { nodes_visited: 0, max_depth_reached: 0, killer_moves: KillerMoves::new() }
    }
}

/// The best line found from a node: the move played and the best line of
/// the child.
pub struct PrincipalVariation {
    pub moves: Vec<Move>,
}

impl PrincipalVariation {
    pub fn new() -> (r: PrincipalVariation)
        ensures
            r.moves@.len() == 0,
    {
        PrincipalVariation { moves: Vec::new() }
    }

    pub fn clear(&mut self)
        ensures
            final(self).moves@.len() == 0,
    {
        self.moves.clear();
    }

    /// Replace this line with `m` followed by the child's line.
    pub fn set_line(&mut self, m: Move, child: &PrincipalVariation)
        ensures
            final(self).moves@.len() > 0,
            final(self).moves@[0] == m,
    {
        self.moves.clear();
        self.moves.push(m);
        let n = child.moves.len();
        let mut i: usize = 0;
        while i < n
            invariant
                i <= n,
                n == child.moves@.len(),
                self.moves@.len() == i + 1,
                self.moves@[0] == m,
            decreases n - i,
        {
            self.moves.push(child.moves[i]);
            i = i + 1;
        }
    }

    pub fn first(&self) -> (r: Option<Move>)
        ensures
            r matches Some(m) ==> self.moves@.len() > 0 && m == self.moves@[0],
            r is None <==> self.moves@.len() == 0,
    {
        if self.moves.len() == 0 {
            None
        } else {
            Some(self.moves[0])
        }
    }

    /// A copy of the line.
    pub fn line(&self) -> (r: Vec<Move>)
        ensures
            r@ == self.moves@,
    {
        let mut out: Vec<Move> = Vec::new();
        let n = self.moves.len();
        let mut i: usize = 0;
        while i < n
            invariant
                i <= n,
                n == self.moves@.len(),
                out@ == self.moves@.subrange(0, i as int),
            decreases n - i,
        {
            out.push(self.moves[i]);
            proof {
                assert(out@ =~= self.moves@.subrange(0, i + 1 as int));
            }
            i = i + 1;
        }
        proof {
            assert(out@ =~= self.moves@);
        }
        out
    }
}

/// Swap two moves of the list, keeping its length and membership.
fn swap_moves(v: &mut Vec<Move>, i: usize, j: usize)
    requires
        i < old(v)@.len(),
        j < old(v)@.len(),
    ensures
        final(v)@.len() == old(v)@.len(),
        final(v)@ == old(v)@.update(i as int, old(v)@[j as int]).update(j as int, old(v)@[i as int]),
        forall|x: Move| #[trigger] final(v)@.contains(x) <==> old(v)@.contains(x),
{
    let a = v[i];
    let b = v[j];
    v[i] = b;
    v[j] = a;
    proof {
        let oldv = old(v)@;
        let newv = v@;
        assert(newv == oldv.update(i as int, oldv[j as int]).update(j as int, oldv[i as int]));
        assert forall|x: Move| #[trigger] newv.contains(x) <==> oldv.contains(x) by {
            if oldv.contains(x) {
                let k = choose|k: int| 0 <= k < oldv.len() && oldv[k] == x;
                if k == i as int {
                    assert(newv[j as int] == x);
                } else if k == j as int {
                    assert(newv[i as int] == x);
                } else {
                    assert(newv[k] == x);
                }
            }
            if newv.contains(x) {
                let k = choose|k: int| 0 <= k < newv.len() && newv[k] == x;
                if k == i as int {
                    assert(oldv[j as int] == x);
                } else if k == j as int {
                    assert(oldv[i as int] == x);
                } else {
                    assert(oldv[k] == x);
                }
            }
        }
    }
}

/// The ordering weight of a move: the table move first, then captures by
/// most-valuable-victim least-valuable-attacker, then killers, then quiet
/// moves by their history counters.
pub open spec fn spec_move_score(
    g: crate::game::GameV,
    m: Move,
    tt_move: Option<Move>,
    counters: Seq<u32>,
    killers: Seq<(Option<Move>, Option<Move>)>,
    plies: u8,
) -> int {
    if tt_move == Some(m) {
        1000000
    } else {
        match g.board.pieces[m.dst.index as int] {
            Some(victim) => 100000 + victim.kind.code() * 8 - (
            match g.board.pieces[m.src.index as int] {
                Some(a) => a.kind.code() as int,
                None => 0int,
            }),
            None => {
                let slot = killers[plies as int];
                if slot.0 == Some(m) {
                    90000
                } else if slot.1 == Some(m) {
                    80000
                } else {
                    counters[history_index(g.player, m)] as int
                }
            },
        }
    }
}

fn move_score(
    game: &Game,
    m: Move,
    tt_move: Option<Move>,
    history: &HistoryTable,
    killers: &KillerMoves,
    plies: u8,
) -> (r: i64)
    requires
        game.inv(),
        m.wf(),
        history.inv(),
        killers.inv(),
        plies <= MAX_PLIES,
    ensures
        r as int == spec_move_score(game@, m, tt_move, history.counters@, killers.slots@, plies),
{
    let is_tt = match tt_move {
        Some(t) => t == m,
        None => false,
    };
    if is_tt {
        return 1_000_000;
    }
    match game.board.piece_at(m.dst) {
        Some(victim) => {
            let attacker: i64 = match game.board.piece_at(m.src) {
                Some(a) => a.kind.code() as i64,
                None => 0,
            };
            return 100_000 + (victim.kind.code() as i64) * 8 - attacker;
        },
        None => {},
    }
    let (k1, k2) = killers.get(plies);
    let is_k1 = match k1 {
        Some(k) => k == m,
        None => false,
    };
    if is_k1 {
        return 90_000;
    }
    let is_k2 = match k2 {
        Some(k) => k == m,
        None => false,
    };
    if is_k2 {
        return 80_000;
    }
    history.get(game.player, m) as i64
}

/// Sort the moves by descending ordering weight; the list keeps exactly
/// its members.
pub(crate) fn order_moves(
    game: &Game,
    moves: &mut Vec<Move>,
    tt_move: Option<Move>,
    history: &HistoryTable,
    killers: &KillerMoves,
    plies: u8,
)
    requires
        game.inv(),
        history.inv(),
        killers.inv(),
        plies <= MAX_PLIES,
        forall|k: int| 0 <= k < old(moves)@.len() ==> (#[trigger] old(moves)@[k]).wf(),
    ensures
        final(moves)@.len() == old(moves)@.len(),
        forall|x: Move| #[trigger] final(moves)@.contains(x) <==> old(moves)@.contains(x),
        forall|k: int| 0 <= k < final(moves)@.len() ==> (#[trigger] final(moves)@[k]).wf(),
        forall|a: int, b: int|
            0 <= a < b < final(moves)@.len() ==> spec_move_score(
                game@,
                #[trigger] final(moves)@[a],
                tt_move,
                history.counters@,
                killers.slots@,
                plies,
            ) >= spec_move_score(
                game@,
                #[trigger] final(moves)@[b],
                tt_move,
                history.counters@,
                killers.slots@,
                plies,
            ),
{
    let ghost orig = moves@;
    proof {
        assert forall|x: Move| orig.contains(x) implies x.wf() by {
            let k = choose|k: int| 0 <= k < orig.len() && orig[k] == x;
        }
    }
    let n = moves.len();
    let mut i: usize = 0;
    while i < n
        invariant
            i <= n,
            n == moves@.len(),
            game.inv(),
            history.inv(),
            killers.inv(),
            plies <= MAX_PLIES,
            forall|x: Move| #[trigger] moves@.contains(x) <==> orig.contains(x),
            forall|x: Move| #[trigger] orig.contains(x) ==> x.wf(),
            forall|k: int| 0 <= k < moves@.len() ==> (#[trigger] moves@[k]).wf(),
            forall|a: int, b: int|
                0 <= a < b < i ==> spec_move_score(
                    game@,
                    #[trigger] moves@[a],
                    tt_move,
                    history.counters@,
                    killers.slots@,
                    plies,
                ) >= spec_move_score(
                    game@,
                    #[trigger] moves@[b],
                    tt_move,
                    history.counters@,
                    killers.slots@,
                    plies,
                ),
            forall|a: int, b: int|
                0 <= a < i && i <= b < n ==> spec_move_score(
                    game@,
                    #[trigger] moves@[a],
                    tt_move,
                    history.counters@,
                    killers.slots@,
                    plies,
                ) >= spec_move_score(
                    game@,
                    #[trigger] moves@[b],
                    tt_move,
                    history.counters@,
                    killers.slots@,
                    plies,
                ),
        decreases n - i,
    {
        let mut best: usize = i;
        let mut best_score = move_score(game, moves[i], tt_move, history, killers, plies);
        let mut j: usize = i + 1;
        while j < n
            invariant
                i <= best < n,
                i < j <= n,
                n == moves@.len(),
                game.inv(),
                history.inv(),
                killers.inv(),
                plies <= MAX_PLIES,
                forall|k: int| 0 <= k < moves@.len() ==> (#[trigger] moves@[k]).wf(),
                best_score as int == spec_move_score(
                    game@,
                    moves@[best as int],
                    tt_move,
                    history.counters@,
                    killers.slots@,
                    plies,
                ),
                forall|k: int|
                    i <= k < j ==> best_score as int >= spec_move_score(
                        game@,
                        #[trigger] moves@[k],
                        tt_move,
                        history.counters@,
                        killers.slots@,
                        plies,
                    ),
                forall|a: int, b: int|
                    0 <= a < b < i ==> spec_move_score(
                        game@,
                        #[trigger] moves@[a],
                        tt_move,
                        history.counters@,
                        killers.slots@,
                        plies,
                    ) >= spec_move_score(
                        game@,
                        #[trigger] moves@[b],
                        tt_move,
                        history.counters@,
                        killers.slots@,
                        plies,
                    ),
                forall|a: int, b: int|
                    0 <= a < i && i <= b < n ==> spec_move_score(
                        game@,
                        #[trigger] moves@[a],
                        tt_move,
                        history.counters@,
                        killers.slots@,
                        plies,
                    ) >= spec_move_score(
                        game@,
                        #[trigger] moves@[b],
                        tt_move,
                        history.counters@,
                        killers.slots@,
                        plies,
                    ),
            decreases n - j,
        {
            let sc = move_score(game, moves[j], tt_move, history, killers, plies);
            if sc > best_score {
                best = j;
                best_score = sc;
            }
            j = j + 1;
        }
        let ghost before = moves@;
        swap_moves(moves, i, best);
        proof {
            assert forall|k: int| 0 <= k < moves@.len() implies (#[trigger] moves@[k]).wf() by {
                assert(moves@.contains(moves@[k]));
            }
            // the selected move is a maximum of the suffix, so both parts
            // of the sortedness invariant carry to the next index
            assert(moves@[i as int] == before[best as int]);
            assert forall|a: int, b: int| 0 <= a < b < i + 1 implies spec_move_score(
                game@,
                #[trigger] moves@[a],
                tt_move,
                history.counters@,
                killers.slots@,
                plies,
            ) >= spec_move_score(
                game@,
                #[trigger] moves@[b],
                tt_move,
                history.counters@,
                killers.slots@,
                plies,
            ) by {
                if b < i {
                    assert(moves@[a] == before[a] && moves@[b] == before[b]);
                } else {
                    assert(moves@[a] == before[a]);
                }
            }
            assert forall|a: int, b: int| 0 <= a < i + 1 && i + 1 <= b < n implies spec_move_score(
                game@,
                #[trigger] moves@[a],
                tt_move,
                history.counters@,
                killers.slots@,
                plies,
            ) >= spec_move_score(
                game@,
                #[trigger] moves@[b],
                tt_move,
                history.counters@,
                killers.slots@,
                plies,
            ) by {
                if b == best as int {
                    assert(moves@[b] == before[i as int]);
                } else {
                    assert(moves@[b] == before[b]);
                }
                if a < i {
                    assert(moves@[a] == before[a]);
                }
            }
        }
        i = i + 1;
    }
}

/// The capture ordering weight alone, for quiescence.
pub open spec fn spec_capture_score(g: crate::game::GameV, m: Move) -> int {
    match g.board.pieces[m.dst.index as int] {
        Some(victim) => victim.kind.code() * 8 - (match g.board.pieces[m.src.index as int] {
            Some(a) => a.kind.code() as int,
            None => 0int,
        }),
        None => 0,
    }
}

fn capture_score(game: &Game, m: Move) -> (r: i64)
    requires
        game.inv(),
        m.wf(),
    ensures
        r as int == spec_capture_score(game@, m),
{
    match game.board.piece_at(m.dst) {
        Some(victim) => {
            let attacker: i64 = match game.board.piece_at(m.src) {
                Some(a) => a.kind.code() as i64,
                None => 0,
            };
            (victim.kind.code() as i64) * 8 - attacker
        },
        None => 0,
    }
}

/// Sort by descending most-valuable-victim least-valuable-attacker
/// weight; the list keeps exactly its members.
fn order_captures(game: &Game, moves: &mut Vec<Move>)
    requires
        game.inv(),
        forall|k: int| 0 <= k < old(moves)@.len() ==> (#[trigger] old(moves)@[k]).wf(),
    ensures
        final(moves)@.len() == old(moves)@.len(),
        forall|x: Move| #[trigger] final(moves)@.contains(x) <==> old(moves)@.contains(x),
        forall|k: int| 0 <= k < final(moves)@.len() ==> (#[trigger] final(moves)@[k]).wf(),
        forall|a: int, b: int|
            0 <= a < b < final(moves)@.len() ==> spec_capture_score(
                game@,
                #[trigger] final(moves)@[a],
            ) >= spec_capture_score(game@, #[trigger] final(moves)@[b]),
{
    let ghost orig = moves@;
    proof {
        assert forall|x: Move| orig.contains(x) implies x.wf() by {
            let k = choose|k: int| 0 <= k < orig.len() && orig[k] == x;
        }
    }
    let n = moves.len();
    let mut i: usize = 0;
    while i < n
        invariant
            i <= n,
            n == moves@.len(),
            game.inv(),
            forall|x: Move| #[trigger] moves@.contains(x) <==> orig.contains(x),
            forall|x: Move| #[trigger] orig.contains(x) ==> x.wf(),
            forall|k: int| 0 <= k < moves@.len() ==> (#[trigger] moves@[k]).wf(),
            forall|a: int, b: int|
                0 <= a < b < i ==> spec_capture_score(game@, #[trigger] moves@[a])
                    >= spec_capture_score(game@, #[trigger] moves@[b]),
            forall|a: int, b: int|
                0 <= a < i && i <= b < n ==> spec_capture_score(game@, #[trigger] moves@[a])
                    >= spec_capture_score(game@, #[trigger] moves@[b]),
        decreases n - i,
    {
        let mut best: usize = i;
        let mut best_score = capture_score(game, moves[i]);
        let mut j: usize = i + 1;
        while j < n
            invariant
                i <= best < n,
                i < j <= n,
                n == moves@.len(),
                game.inv(),
                forall|k: int| 0 <= k < moves@.len() ==> (#[trigger] moves@[k]).wf(),
                best_score as int == spec_capture_score(game@, moves@[best as int]),
                forall|k: int|
                    i <= k < j ==> best_score as int >= spec_capture_score(
                        game@,
                        #[trigger] moves@[k],
                    ),
            decreases n - j,
        {
            let sc = capture_score(game, moves[j]);
            if sc > best_score {
                best = j;
                best_score = sc;
            }
            j = j + 1;
        }
        let ghost before = moves@;
        swap_moves(moves, i, best);
        proof {
            assert forall|k: int| 0 <= k < moves@.len() implies (#[trigger] moves@[k]).wf() by {
                assert(moves@.contains(moves@[k]));
            }
            // the selected move is a maximum of the suffix, so both parts
            // of the sortedness invariant carry to the next index
            assert(moves@[i as int] == before[best as int]);
            assert forall|a: int, b: int| 0 <= a < b < i + 1 implies spec_capture_score(
                game@,
                #[trigger] moves@[a],
            ) >= spec_capture_score(game@, #[trigger] moves@[b]) by {
                if b < i {
                    assert(moves@[a] == before[a] && moves@[b] == before[b]);
                } else {
                    assert(moves@[a] == before[a]);
                }
            }
            assert forall|a: int, b: int|
                0 <= a < i + 1 && i + 1 <= b < n implies spec_capture_score(
                game@,
                #[trigger] moves@[a],
            ) >= spec_capture_score(game@, #[trigger] moves@[b]) by {
                if b == best as int {
                    assert(moves@[b] == before[i as int]);
                } else {
                    assert(moves@[b] == before[b]);
                }
                if a < i {
                    assert(moves@[a] == before[a]);
                }
            }
        }
        i = i + 1;
    }
}

/// A noisy move: a capture (en passant included) or a promotion; the
/// moves quiescence keeps searching at the horizon.
pub open spec fn is_noisy(g: GameV, m: Move) -> bool {
    ||| g.board.pieces[m.dst.index as int] is Some
    ||| m.promotion is Some
    ||| (g.ep matches Some(t) && t.index == m.dst.index)
}

/// The larger of two integers.
pub open spec fn imax(a: int, b: int) -> int {
    if a >= b {
        a
    } else {
        b
    }
}

/// `x` clamped into the closed window `[lo, hi]`: what a fail-hard search
/// with window `(lo, hi)` reports of a true value `x`.
pub open spec fn med3(lo: int, x: int, hi: int) -> int {
    if x <= lo {
        lo
    } else if x >= hi {
        hi
    } else {
        x
    }
}

/// The value quiescence computes for a position: the standing evaluation
/// or the best noisy legal reply by its negated value, whichever is
/// greater; at the ply ceiling, the standing evaluation alone.
pub open spec fn qsearch_value(g: GameV, plies: int) -> int
    decreases MAX_PLIES as int - plies, 1int, 0int,
{
    if plies >= MAX_PLIES as int {
        spec_eval(g)
    } else {
        imax(spec_eval(g), noisy_reply_best(g, plies, MOVE_INDEX_BOUND as int))
    }
}

/// The best negated quiescence value over the noisy legal moves with
/// enumeration index below `i`; the floor stands below every real score.
pub open spec fn noisy_reply_best(g: GameV, plies: int, i: int) -> int
    decreases MAX_PLIES as int - plies, 0int, i,
{
    if i <= 0 || plies >= MAX_PLIES as int {
        -32767
    } else {
        let m = idx_move(i - 1);
        imax(
            noisy_reply_best(g, plies, i - 1),
            if is_legal(g, m) && is_noisy(g, m) {
                -qsearch_value(spec_make(g, m), plies + 1)
            } else {
                -32767
            },
        )
    }
}

/// The quiescence value stays inside the clamped evaluation range.
pub proof fn lemma_qsearch_bounds(g: GameV, plies: int)
    ensures
        -30000 <= qsearch_value(g, plies) <= 30000,
    decreases MAX_PLIES as int - plies, 1int, 0int,
{
    if plies < MAX_PLIES as int {
        lemma_noisy_reply_bounds(g, plies, MOVE_INDEX_BOUND as int);
    }
}

proof fn lemma_noisy_reply_bounds(g: GameV, plies: int, i: int)
    ensures
        -32767 <= noisy_reply_best(g, plies, i) <= 30000,
    decreases MAX_PLIES as int - plies, 0int, i,
{
    if i > 0 && plies < MAX_PLIES as int {
        lemma_noisy_reply_bounds(g, plies, i - 1);
        let m = idx_move(i - 1);
        if is_legal(g, m) && is_noisy(g, m) {
            lemma_qsearch_bounds(spec_make(g, m), plies + 1);
        }
    }
}

proof fn lemma_noisy_reply_mono(g: GameV, plies: int, a: int, b: int)
    requires
        a <= b,
    ensures
        noisy_reply_best(g, plies, a) <= noisy_reply_best(g, plies, b),
    decreases b - a,
{
    if a < b {
        lemma_noisy_reply_mono(g, plies, a, b - 1);
    }
}

/// Every noisy legal move's negated value is dominated by the best one.
proof fn lemma_noisy_reply_ge(g: GameV, plies: int, m: Move)
    requires
        0 <= plies < MAX_PLIES as int,
        m.wf(),
        is_legal(g, m),
        is_noisy(g, m),
    ensures
        noisy_reply_best(g, plies, MOVE_INDEX_BOUND as int) >= -qsearch_value(
            spec_make(g, m),
            plies + 1,
        ),
{
    lemma_gen_idx_roundtrip(m);
    let k = gen_idx(m);
    assert(idx_move(k) == m);
    assert(noisy_reply_best(g, plies, k + 1) >= -qsearch_value(spec_make(g, m), plies + 1));
    lemma_noisy_reply_mono(g, plies, k + 1, MOVE_INDEX_BOUND as int);
}

proof fn lemma_noisy_reply_le(g: GameV, plies: int, i: int, bound: int)
    requires
        0 <= plies < MAX_PLIES as int,
        bound >= -32767,
        i <= MOVE_INDEX_BOUND as int,
        forall|m: Move| #[trigger]
            is_legal(g, m) && is_noisy(g, m) ==> -qsearch_value(spec_make(g, m), plies + 1)
                <= bound,
    ensures
        noisy_reply_best(g, plies, i) <= bound,
    decreases i,
{
    if i > 0 {
        lemma_noisy_reply_le(g, plies, i - 1, bound);
        let m = idx_move(i - 1);
        if is_legal(g, m) && is_noisy(g, m) {
            assert(-qsearch_value(spec_make(g, m), plies + 1) <= bound);
        }
    }
}

/// The best negated quiescence value over the first `i` moves of a list.
pub open spec fn seq_reply_best(g: GameV, plies: int, ms: Seq<Move>, i: int) -> int
    decreases i,
{
    if i <= 0 {
        -32767
    } else {
        imax(
            seq_reply_best(g, plies, ms, i - 1),
            -qsearch_value(spec_make(g, ms[i - 1]), plies + 1),
        )
    }
}

proof fn lemma_seq_reply_lb(g: GameV, plies: int, ms: Seq<Move>, i: int)
    ensures
        seq_reply_best(g, plies, ms, i) >= -32767,
    decreases i,
{
    if i > 0 {
        lemma_seq_reply_lb(g, plies, ms, i - 1);
    }
}

proof fn lemma_seq_reply_ge(g: GameV, plies: int, ms: Seq<Move>, k: int, i: int)
    requires
        0 <= k < i,
    ensures
        seq_reply_best(g, plies, ms, i) >= -qsearch_value(spec_make(g, ms[k]), plies + 1),
    decreases i,
{
    if k < i - 1 {
        lemma_seq_reply_ge(g, plies, ms, k, i - 1);
    }
}

proof fn lemma_seq_reply_le(g: GameV, plies: int, ms: Seq<Move>, i: int, bound: int)
    requires
        bound >= -32767,
        forall|k: int|
            0 <= k < i ==> -qsearch_value(spec_make(g, #[trigger] ms[k]), plies + 1) <= bound,
    ensures
        seq_reply_best(g, plies, ms, i) <= bound,
    decreases i,
{
    if i > 0 {
        lemma_seq_reply_le(g, plies, ms, i - 1, bound);
    }
}

/// A list holding exactly the noisy legal moves attains exactly the best
/// noisy reply value of the enumeration.
proof fn lemma_seq_noisy_eq(g: GameV, plies: int, ms: Seq<Move>)
    requires
        0 <= plies < MAX_PLIES as int,
        forall|m: Move| #[trigger] ms.contains(m) <==> (is_legal(g, m) && is_noisy(g, m)),
    ensures
        seq_reply_best(g, plies, ms, ms.len() as int) == noisy_reply_best(
            g,
            plies,
            MOVE_INDEX_BOUND as int,
        ),
{
    let n = ms.len() as int;
    let nb = noisy_reply_best(g, plies, MOVE_INDEX_BOUND as int);
    lemma_noisy_reply_bounds(g, plies, MOVE_INDEX_BOUND as int);
    assert forall|k: int| 0 <= k < n implies -qsearch_value(
        spec_make(g, #[trigger] ms[k]),
        plies + 1,
    ) <= nb by {
        assert(ms.contains(ms[k]));
        assert(is_legal(g, ms[k]) && is_noisy(g, ms[k]));
        assert(ms[k].wf());
        lemma_noisy_reply_ge(g, plies, ms[k]);
    }
    lemma_seq_reply_le(g, plies, ms, n, nb);
    lemma_seq_reply_lb(g, plies, ms, n);
    let sb = seq_reply_best(g, plies, ms, n);
    assert forall|m: Move| #[trigger]
        is_legal(g, m) && is_noisy(g, m) implies -qsearch_value(spec_make(g, m), plies + 1)
        <= sb by {
        assert(ms.contains(m));
        let k = choose|k: int| 0 <= k < ms.len() && ms[k] == m;
        lemma_seq_reply_ge(g, plies, ms, k, n);
    }
    lemma_noisy_reply_le(g, plies, MOVE_INDEX_BOUND as int, sb);
}

/// The best negated quiescence value over the legal moves with
/// enumeration index below `i`: what one full-width ply over the
/// quiescence horizon is worth.
pub open spec fn legal_reply_best(g: GameV, i: int) -> int
    decreases i,
{
    if i <= 0 {
        -32767
    } else {
        let m = idx_move(i - 1);
        imax(
            legal_reply_best(g, i - 1),
            if is_legal(g, m) {
                -qsearch_value(spec_make(g, m), 1)
            } else {
                -32767
            },
        )
    }
}

/// The value of a depth-one search from the root: the best legal move by
/// the negated quiescence value of the position after it.
pub open spec fn depth1_value(g: GameV) -> int {
    legal_reply_best(g, MOVE_INDEX_BOUND as int)
}

/// A calm root: the side to move has a legal move and is not in check,
/// and no legal move reaches a drawn or a checking position, so that a
/// depth-one search runs the quiescence value of every reply.
pub open spec fn calm_root(g: GameV) -> bool {
    &&& !crate::movegen::in_check(g.board, g.player)
    &&& !crate::movegen::no_legal_moves(g)
    &&& forall|m: Move|
        is_legal(g, m) ==> !crate::rules::is_search_draw(#[trigger] spec_make(g, m))
            && !crate::movegen::in_check(spec_make(g, m).board, spec_make(g, m).player)
}

proof fn lemma_legal_reply_bounds(g: GameV, i: int)
    ensures
        -32767 <= legal_reply_best(g, i) <= 30000,
    decreases i,
{
    if i > 0 {
        lemma_legal_reply_bounds(g, i - 1);
        let m = idx_move(i - 1);
        if is_legal(g, m) {
            lemma_qsearch_bounds(spec_make(g, m), 1);
        }
    }
}

proof fn lemma_legal_reply_mono(g: GameV, a: int, b: int)
    requires
        a <= b,
    ensures
        legal_reply_best(g, a) <= legal_reply_best(g, b),
    decreases b - a,
{
    if a < b {
        lemma_legal_reply_mono(g, a, b - 1);
    }
}

/// Every legal move's negated reply value is dominated by the best one.
proof fn lemma_legal_reply_ge(g: GameV, m: Move)
    requires
        m.wf(),
        is_legal(g, m),
    ensures
        depth1_value(g) >= -qsearch_value(spec_make(g, m), 1),
{
    lemma_gen_idx_roundtrip(m);
    let k = gen_idx(m);
    assert(idx_move(k) == m);
    assert(legal_reply_best(g, k + 1) >= -qsearch_value(spec_make(g, m), 1));
    lemma_legal_reply_mono(g, k + 1, MOVE_INDEX_BOUND as int);
}

proof fn lemma_legal_reply_le(g: GameV, i: int, bound: int)
    requires
        bound >= -32767,
        i <= MOVE_INDEX_BOUND as int,
        forall|m: Move| #[trigger]
            is_legal(g, m) ==> -qsearch_value(spec_make(g, m), 1) <= bound,
    ensures
        legal_reply_best(g, i) <= bound,
    decreases i,
{
    if i > 0 {
        lemma_legal_reply_le(g, i - 1, bound);
        let m = idx_move(i - 1);
        if is_legal(g, m) {
            assert(-qsearch_value(spec_make(g, m), 1) <= bound);
        }
    }
}

/// A list holding exactly the legal moves attains exactly the depth-one
/// value of the enumeration.
proof fn lemma_seq_legal_eq(g: GameV, ms: Seq<Move>)
    requires
        forall|m: Move| #[trigger] ms.contains(m) <==> is_legal(g, m),
    ensures
        seq_reply_best(g, 0, ms, ms.len() as int) == depth1_value(g),
{
    let n = ms.len() as int;
    let nb = depth1_value(g);
    lemma_legal_reply_bounds(g, MOVE_INDEX_BOUND as int);
    assert forall|k: int| 0 <= k < n implies -qsearch_value(
        spec_make(g, #[trigger] ms[k]),
        0int + 1,
    ) <= nb by {
        assert(ms.contains(ms[k]));
        assert(is_legal(g, ms[k]));
        assert(ms[k].wf());
        lemma_legal_reply_ge(g, ms[k]);
    }
    lemma_seq_reply_le(g, 0, ms, n, nb);
    lemma_seq_reply_lb(g, 0, ms, n);
    let sb = seq_reply_best(g, 0, ms, n);
    assert forall|m: Move| #[trigger] is_legal(g, m) implies -qsearch_value(spec_make(g, m), 1)
        <= sb by {
        assert(ms.contains(m));
        let k = choose|k: int| 0 <= k < ms.len() && ms[k] == m;
        lemma_seq_reply_ge(g, 0, ms, k, n);
    }
    lemma_legal_reply_le(g, MOVE_INDEX_BOUND as int, sb);
}

/// Quiescence: at the horizon, search only captures and promotions so
/// that the static evaluation is never taken in the middle of an
/// exchange. Fail-hard: the result is exactly the quiescence value of the
/// position clamped into the window, so a standing pat at or above beta
/// returns beta at once, and otherwise the result is at least the raised
/// alpha. Never writes to the transposition table.
pub fn quiescence(
    game: &mut Game,
    alpha_in: Eval,
    beta: Eval,
    plies: u8,
    time_control: &TimeStrategy,
    state: &mut SearchState,
) -> (r: Eval)
    requires
        valid_pos(old(game)@),
        plies <= MAX_PLIES,
        -32767 <= alpha_in.0 <= 32767,
        -32767 <= beta.0 <= 32767,
        alpha_in.0 < beta.0,
        old(state).inv(),
    ensures
        final(game)@ == old(game)@,
        final(state).inv(),
        r == Eval::aborted() || -32766 <= r.0 <= 32766,
        r != Eval::aborted() ==> r.0 as int == med3(
            alpha_in.0 as int,
            qsearch_value(old(game)@, plies as int),
            beta.0 as int,
        ),
        r != Eval::aborted() ==> r.0 <= beta.0,
        r != Eval::aborted() && crate::eval::spec_eval(old(game)@) >= beta.0 ==> r == beta,
        r != Eval::aborted() && crate::eval::spec_eval(old(game)@) < beta.0 ==> r.0 >= alpha_in.0
            && r.0 >= crate::eval::spec_eval(old(game)@),
        time_control.node_limit is None && time_control.movetime_ms is None ==> r
            != Eval::aborted(),
    decreases MAX_PLIES - plies, 0int,
{
    let ghost g0 = old(game)@;
    if time_control.should_stop(state.nodes_visited) {
        return Eval::aborted();
    }
    state.nodes_visited = state.nodes_visited.checked_add(1).unwrap_or(u64::MAX);
    if state.max_depth_reached < plies {
        state.max_depth_reached = plies;
    }
    let stand_pat = eval(game);
    proof {
        assert(-30000 <= crate::eval::spec_eval(g0) <= 30000);
    }
    if stand_pat.0 >= beta.0 {
        proof {
            // whether or not the ply ceiling is reached, the quiescence
            // value is at least the standing evaluation
            if (plies as int) < MAX_PLIES as int {
                assert(qsearch_value(g0, plies as int) >= spec_eval(g0));
            }
        }
        return beta;
    }
    let mut alpha = if stand_pat.0 > alpha_in.0 {
        stand_pat
    } else {
        alpha_in
    };
    if plies == MAX_PLIES {
        proof {
            assert(qsearch_value(g0, plies as int) == spec_eval(g0));
        }
        return alpha;
    }
    let all_moves = game.legal_moves();
    let mut moves: Vec<Move> = Vec::new();
    let an = all_moves.len();
    let mut ai: usize = 0;
    while ai < an
        invariant
            ai <= an,
            an == all_moves@.len(),
            game@ == g0,
            forall|m: Move| #[trigger] all_moves@.contains(m) <==> is_legal(g0, m),
            forall|m: Move| #[trigger]
                moves@.contains(m) <==> (all_moves@.subrange(0, ai as int).contains(m)
                    && is_noisy(g0, m)),
            forall|k: int| 0 <= k < moves@.len() ==> is_legal(g0, #[trigger] moves@[k]),
        decreases an - ai,
    {
        let m = all_moves[ai];
        proof {
            assert(all_moves@[ai as int] == m);
            assert(all_moves@.contains(m));
        }
        let noisy = game.board.piece_at(m.dst).is_some() || m.promotion.is_some() || (
        match game.en_passant_target {
            Some(t) => t.index == m.dst.index,
            None => false,
        });
        proof {
            assert(noisy == is_noisy(g0, m));
        }
        let ghost pre = moves@;
        if noisy {
            moves.push(m);
        }
        proof {
            let sub0 = all_moves@.subrange(0, ai as int);
            let sub1 = all_moves@.subrange(0, ai + 1 as int);
            assert(sub1 =~= sub0.push(m));
            assert forall|x: Move| #[trigger] sub1.contains(x) <==> (sub0.contains(x) || x
                == m) by {
                if sub0.contains(x) {
                    let j = choose|j: int| 0 <= j < sub0.len() && sub0[j] == x;
                    assert(sub1[j] == x);
                }
                if sub1.contains(x) {
                    let j = choose|j: int| 0 <= j < sub1.len() && sub1[j] == x;
                    if j < sub0.len() {
                        assert(sub0[j] == x);
                    }
                }
                assert(sub1[sub0.len() as int] == m);
            }
            if noisy {
                assert forall|x: Move| #[trigger] moves@.contains(x) <==> (pre.contains(x) || x
                    == m) by {
                    if pre.contains(x) {
                        let j = choose|j: int| 0 <= j < pre.len() && pre[j] == x;
                        assert(moves@[j] == x);
                    }
                    if moves@.contains(x) {
                        let j = choose|j: int| 0 <= j < moves@.len() && moves@[j] == x;
                        if j < pre.len() {
                            assert(pre[j] == x);
                        }
                    }
                    assert(moves@[pre.len() as int] == m);
                }
            }
            assert forall|k: int| 0 <= k < moves@.len() implies is_legal(
                g0,
                #[trigger] moves@[k],
            ) by {
                assert(moves@.contains(moves@[k]));
                assert(sub1.contains(moves@[k]));
                assert(all_moves@.contains(moves@[k]));
            }
        }
        ai = ai + 1;
    }
    proof {
        assert(all_moves@.subrange(0, an as int) =~= all_moves@);
        assert forall|m: Move| #[trigger] moves@.contains(m) <==> (is_legal(g0, m) && is_noisy(
            g0,
            m,
        )) by {}
        assert forall|k: int| 0 <= k < moves@.len() implies (#[trigger] moves@[k]).wf() by {
            assert(is_legal(g0, moves@[k]));
        }
    }
    let ghost filtered = moves@;
    order_captures(game, &mut moves);
    proof {
        assert forall|m: Move| #[trigger] moves@.contains(m) <==> (is_legal(g0, m) && is_noisy(
            g0,
            m,
        )) by {
            assert(moves@.contains(m) <==> filtered.contains(m));
        }
        assert forall|k: int| 0 <= k < moves@.len() implies is_legal(
            g0,
            #[trigger] moves@[k],
        ) by {
            assert(moves@.contains(moves@[k]));
        }
    }
    let n = moves.len();
    let mut i: usize = 0;
    while i < n
        invariant
            i <= n,
            n == moves@.len(),
            g0 == old(game)@,
            game@ == g0,
            valid_pos(g0),
            state.inv(),
            plies < MAX_PLIES,
            -32767 <= alpha_in.0 <= 32767,
            -32767 <= beta.0 <= 32767,
            alpha_in.0 < beta.0,
            crate::eval::spec_eval(g0) < beta.0,
            alpha.0 >= alpha_in.0,
            alpha.0 >= crate::eval::spec_eval(g0),
            alpha.0 < beta.0,
            forall|k: int| 0 <= k < moves@.len() ==> is_legal(g0, #[trigger] moves@[k]),
            forall|m: Move| #[trigger]
                moves@.contains(m) <==> (is_legal(g0, m) && is_noisy(g0, m)),
            alpha.0 as int == imax(
                imax(alpha_in.0 as int, spec_eval(g0)),
                seq_reply_best(g0, plies as int, moves@, i as int),
            ),
            seq_reply_best(g0, plies as int, moves@, i as int) < beta.0 as int,
        decreases n - i,
    {
        let m = moves[i];
        proof {
            assert(moves@[i as int] == m);
            assert(is_legal(g0, moves@[i as int]));
            assert(moves@.contains(m));
            lemma_legal_valid(g0, m);
        }
        game.make_move(m);
        let cr = quiescence(game, beta.neg(), alpha.neg(), plies + 1, time_control, state);
        proof {
            assert(crate::game::undoable(game@));
        }
        game.undo_move();
        proof {
            crate::game::lemma_make_undo(g0, m);
        }
        if cr == Eval::aborted() {
            return Eval::aborted();
        }
        let ghost tc = qsearch_value(spec_make(g0, m), plies as int + 1);
        proof {
            lemma_qsearch_bounds(spec_make(g0, m), plies as int + 1);
            assert(cr.0 as int == med3(-(beta.0 as int), tc, -(alpha.0 as int)));
        }
        let score = cr.neg();
        proof {
            assert(score.0 as int == med3(alpha.0 as int, -tc, beta.0 as int));
            assert(seq_reply_best(g0, plies as int, moves@, i as int + 1) == imax(
                seq_reply_best(g0, plies as int, moves@, i as int),
                -tc,
            ));
        }
        if score.0 >= beta.0 {
            proof {
                assert(-tc >= beta.0 as int);
                lemma_noisy_reply_ge(g0, plies as int, m);
                assert(qsearch_value(g0, plies as int) >= -tc);
            }
            return beta;
        }
        if score.0 > alpha.0 {
            alpha = score;
        }
        i = i + 1;
    }
    proof {
        lemma_seq_noisy_eq(g0, plies as int, moves@);
        assert(qsearch_value(g0, plies as int) == imax(
            spec_eval(g0),
            seq_reply_best(g0, plies as int, moves@, n as int),
        ));
    }
    alpha
}

/// How much to reduce a late move, growing with depth and move index.
fn lmr_reduction(depth: u8, idx: usize) -> (r: u8)
    ensures
        1 <= r,
{
    let ic: u8 = if idx > 63 {
        63
    } else {
        idx as u8
    };
    1 + depth / 8 + ic / 8
}

/// Principal-variation negamax. The game comes back exactly as it went
/// in, and the result is the abort sentinel or a real score. Below the
/// root a drawn position (repetition, fifty-move rule, dead material)
/// scores as the draw, and a position without legal moves scores as mate
/// or stalemate, before the table, the evaluation or any pruning is
/// consulted. An unaborted node that ran its move loop leaves a table
/// entry for this position at least as deep as the search, unless it
/// failed high; a drawn position below the root leaves the table and the
/// heuristics untouched. At the root, with the full window, an unaborted
/// search of a position with a legal move reports a principal variation
/// whose first move is legal. A depth-zero node outside check scores as
/// the quiescence value clamped into its window, and a depth-one
/// full-window search of a calm root returns exactly the best legal reply
/// by negated quiescence value.
#[verifier::rlimit(100)]
pub fn negamax(
    game: &mut Game,
    alpha_in: Eval,
    beta: Eval,
    depth_in: u8,
    plies: u8,
    persistent_state: &mut PersistentState,
    pv: &mut PrincipalVariation,
    time_control: &TimeStrategy,
    state: &mut SearchState,
) -> (r: Eval)
    requires
        valid_pos(old(game)@),
        plies <= MAX_PLIES,
        depth_in <= MAX_SEARCH_DEPTH,
        -32767 <= alpha_in.0 <= 32767,
        -32767 <= beta.0 <= 32767,
        alpha_in.0 < beta.0,
        old(persistent_state).inv(),
        old(state).inv(),
        old(pv).moves@.len() == 0,
    ensures
        final(game)@ == old(game)@,
        final(persistent_state).inv(),
        final(persistent_state).tt.generation == old(persistent_state).tt.generation,
        final(state).inv(),
        r == Eval::aborted() || -32766 <= r.0 <= 32766,
        final(pv).moves@.len() == 0 || is_legal(old(game)@, final(pv).moves@[0]),
        plies > 0 && crate::rules::is_search_draw(old(game)@) && r != Eval::aborted() ==> r
            == Eval::draw(),
        plies > 0 && crate::rules::is_search_draw(old(game)@) ==> final(persistent_state).tt.entries@
            == old(persistent_state).tt.entries@
            && final(persistent_state).history_table == old(persistent_state).history_table
            && final(state).killer_moves == old(state).killer_moves,
        crate::movegen::no_legal_moves(old(game)@) && !(plies > 0 && crate::rules::is_search_draw(
            old(game)@,
        )) && plies < MAX_PLIES && (depth_in > 0 || crate::movegen::in_check(
            old(game)@.board,
            old(game)@.player,
        )) && r != Eval::aborted() ==> r == (if crate::movegen::in_check(
            old(game)@.board,
            old(game)@.player,
        ) {
            Eval::mated_in(plies)
        } else {
            Eval::draw()
        }),
        !crate::movegen::no_legal_moves(old(game)@) && !(plies > 0
            && crate::rules::is_search_draw(old(game)@)) && plies < MAX_PLIES && depth_in > 0 && r
            != Eval::aborted() ==> (r.0 >= beta.0 || (crate::tt::slot_entry(
            final(persistent_state).tt.entries@,
            old(game)@.zobrist,
        ) matches Some(e) && e.depth >= depth_in)),
        !crate::movegen::no_legal_moves(old(game)@) && !(plies > 0
            && crate::rules::is_search_draw(old(game)@)) && plies < MAX_PLIES && depth_in > 0
            && alpha_in.0 as int != beta.0 as int - 1 && r != Eval::aborted() ==> (r.0 >= beta.0
            || (crate::tt::slot_entry(
            final(persistent_state).tt.entries@,
            old(game)@.zobrist,
        ) matches Some(e) && e.depth >= depth_in
            && e.age == old(persistent_state).tt.generation)),

        time_control.node_limit is None && time_control.movetime_ms is None ==> r
            != Eval::aborted(),
        plies == 0 && depth_in > 0 && alpha_in == Eval::min() && beta == Eval::max()
            && !crate::movegen::no_legal_moves(old(game)@) && r != Eval::aborted() ==> final(pv).moves@.len() > 0,
        plies > 0 && depth_in == 0 && plies < MAX_PLIES && !crate::rules::is_search_draw(
            old(game)@,
        ) && !crate::movegen::in_check(old(game)@.board, old(game)@.player) && r
            != Eval::aborted() ==> r.0 as int == med3(
            alpha_in.0 as int,
            qsearch_value(old(game)@, plies as int),
            beta.0 as int,
        ),
        plies == 0 && depth_in == 1 && alpha_in == Eval::min() && beta == Eval::max()
            && calm_root(old(game)@) && r != Eval::aborted() ==> r.0 as int == depth1_value(
            old(game)@,
        ) && final(pv).moves@.len() > 0 && -qsearch_value(
            spec_make(old(game)@, final(pv).moves@[0]),
            1,
        ) == depth1_value(old(game)@),
    decreases MAX_PLIES - plies, 1int,
{
    let ghost g0 = old(game)@;
    let is_root = plies == 0;
    let mut alpha = alpha_in;
    let mut depth = depth_in;
    if time_control.should_stop(state.nodes_visited) {
        return Eval::aborted();
    }
    if state.max_depth_reached < plies {
        state.max_depth_reached = plies;
    }
    // twofold repetition, the fifty-move rule and dead material are draws
    // anywhere below the root
    if !is_root {
        if game.is_repeated_position() || game.is_stalemate_by_fifty_move_rule()
            || game.is_stalemate_by_insufficient_material() {
            return Eval::draw();
        }
    }
    // check extension: never stand still while in check
    let in_chk = game.board.king_in_check(game.player);
    if in_chk && depth < MAX_SEARCH_DEPTH {
        depth = depth + 1;
    }
    if plies == MAX_PLIES {
        let e = eval(game);
        proof {
            assert(-30000 <= crate::eval::spec_eval(g0) <= 30000);
        }
        return e;
    }
    if depth == 0 {
        return quiescence(game, alpha, beta, plies, time_control, state);
    }
    if !is_root {
        state.nodes_visited = state.nodes_visited.checked_add(1).unwrap_or(u64::MAX);
    }
    // mate and stalemate are decided before the table or any pruning can
    // interfere
    let mut moves = game.legal_moves();
    if moves.len() == 0 {
        proof {
            assert forall|m: Move| !is_legal(g0, m) by {
                if is_legal(g0, m) {
                    assert(moves@.contains(m));
                }
            }
        }
        return if in_chk {
            Eval::mated_in(plies)
        } else {
            Eval::draw()
        };
    }
    proof {
        assert(moves@.contains(moves@[0]));
        assert(is_legal(g0, moves@[0]));
        assert(!crate::movegen::no_legal_moves(g0));
        assert forall|k: int| 0 <= k < moves@.len() implies (#[trigger] moves@[k]).wf() by {
            assert(moves@.contains(moves@[k]));
        }
    }
    let is_pv = (alpha.0 as i32) != (beta.0 as i32) - 1;
    let mut previous_best_move: Option<Move> = None;
    match persistent_state.tt.get(game.zobrist) {
        None => {},
        Some(entry) => {
            if !is_root && !is_pv && entry.depth >= depth {
                let tt_score = entry.eval.with_mate_distance_from_root(plies);
                // only scores strictly inside the window sentinels are
                // trusted from the table
                if -32766 <= tt_score.0 && tt_score.0 <= 32766 {
                    let hit = match entry.bound {
                        NodeBound::Exact => true,
                        NodeBound::Upper => entry.eval.0 <= alpha.0,
                        NodeBound::Lower => entry.eval.0 >= beta.0,
                    };
                    if hit {
                        return tt_score;
                    }
                }
            }
            previous_best_move = entry.best_move;
        },
    }
    let static_eval = eval(game);
    proof {
        assert(-30000 <= crate::eval::spec_eval(g0) <= 30000);
    }
    if !is_root && !is_pv && !in_chk {
        // reverse futility pruning: a hopeless margin over beta at low
        // depth fails high at once
        if depth <= REVERSE_FUTILITY_PRUNE_DEPTH {
            let margin = (REVERSE_FUTILITY_PRUNE_MARGIN_PER_PLY as i32) * (depth as i32);
            if (static_eval.0 as i32) - margin > beta.0 as i32 {
                return beta;
            }
        }
        // null-move pruning: hand the opponent a free move; the guard is
        // eval >= beta (not strict), and no two null moves in a row
        let h = game.history.len();
        let last_was_real = if h == 0 {
            true
        } else {
            game.history[h - 1].mv.is_some()
        };
        if depth >= NULL_MOVE_PRUNING_DEPTH_LIMIT && static_eval.0 >= beta.0 && last_was_real {
            game.make_null_move();
            let mut null_pv = PrincipalVariation::new();
            let child_alpha = beta.neg();
            let child_beta = beta.neg().add(Eval::new(1));
            let cr = negamax(
                game,
                child_alpha,
                child_beta,
                depth - 1 - NULL_MOVE_PRUNING_DEPTH_REDUCTION,
                plies + 1,
                persistent_state,
                &mut null_pv,
                time_control,
                state,
            );
            proof {
                assert(crate::game::null_undoable(game@));
            }
            game.undo_null_move();
            proof {
                crate::game::lemma_null_roundtrip(g0);
            }
            if cr == Eval::aborted() {
                return Eval::aborted();
            }
            let null_score = cr.neg();
            if null_score.0 >= beta.0 {
                return null_score;
            }
        }
    }
    let ghost unordered = moves@;
    order_moves(
        game,
        &mut moves,
        previous_best_move,
        &persistent_state.history_table,
        &state.killer_moves,
        plies,
    );
    proof {
        assert forall|k: int| 0 <= k < moves@.len() implies is_legal(
            g0,
            #[trigger] moves@[k],
        ) by {
            assert(moves@.contains(moves@[k]));
            assert(unordered.contains(moves@[k]));
        }
        assert forall|m: Move| #[trigger] moves@.contains(m) <==> is_legal(g0, m) by {
            assert(moves@.contains(m) <==> unordered.contains(m));
        }
    }
    let ghost d1 = plies == 0 && depth_in == 1 && alpha_in == Eval::min() && beta == Eval::max()
        && calm_root(g0);
    let mut tt_node_bound = NodeBound::Upper;
    let mut best_move: Option<Move> = None;
    let mut best_eval = Eval::min();
    let mut node_pv = PrincipalVariation::new();
    let mut cut = false;
    let n = moves.len();
    let mut i: usize = 0;
    while i < n && !cut
        invariant
            g0 == old(game)@,
            game@ == g0,
            valid_pos(g0),
            i <= n,
            0 < n == moves@.len(),
            persistent_state.inv(),
            persistent_state.tt.generation == old(persistent_state).tt.generation,
            state.inv(),
            forall|k: int| 0 <= k < n ==> is_legal(g0, #[trigger] moves@[k]),
            !(plies > 0 && crate::rules::is_search_draw(g0)),
            -32767 <= alpha.0 <= 32767,
            -32767 <= beta.0 <= 32767,
            alpha.0 < beta.0,
            alpha_in.0 <= alpha.0,
            i > 0 || cut ==> -32766 <= best_eval.0 <= 32766,
            i == 0 && !cut ==> best_eval == Eval::min(),
            i == 0 && !cut ==> alpha == alpha_in,
            best_move matches Some(bm) ==> bm.wf(),
            pv.moves@.len() == 0 || is_legal(g0, pv.moves@[0]),
            plies == 0 && alpha_in == Eval::min() && beta == Eval::max() && (i > 0 || cut)
                ==> pv.moves@.len() > 0,
            plies < MAX_PLIES,
            1 <= depth <= MAX_SEARCH_DEPTH,
            depth_in <= depth,
            depth_in > 0 || crate::movegen::in_check(g0.board, g0.player),
            forall|m: Move| #[trigger] moves@.contains(m) <==> is_legal(g0, m),
            d1 == (plies == 0 && depth_in == 1 && alpha_in == Eval::min() && beta == Eval::max()
                && calm_root(g0)),
            d1 ==> !cut,
            d1 ==> is_pv,
            d1 ==> depth == 1,
            d1 ==> best_eval.0 as int == seq_reply_best(g0, 0, moves@, i as int),
            d1 ==> alpha.0 as int == imax(-32767, seq_reply_best(g0, 0, moves@, i as int)),
            d1 ==> seq_reply_best(g0, 0, moves@, i as int) <= 30000,
            d1 && i > 0 ==> pv.moves@.len() > 0 && -qsearch_value(
                spec_make(g0, pv.moves@[0]),
                1,
            ) == seq_reply_best(g0, 0, moves@, i as int),
        decreases n - i,
    {
        let m = moves[i];
        proof {
            assert(moves@[i as int] == m);
            assert(moves@.contains(m));
            assert(is_legal(g0, m));
            lemma_legal_valid(g0, m);
        }
        let ghost tc = qsearch_value(spec_make(g0, m), 1);
        proof {
            if d1 {
                lemma_qsearch_bounds(spec_make(g0, m), 1);
            }
        }
        let is_capture = game.board.piece_at(m.dst).is_some();
        // futility pruning: quiet moves at shallow depth with a hopeless
        // static margin below alpha are skipped
        let mut skip = false;
        if i > 0 && !is_pv && !is_capture && !in_chk && depth <= FUTILITY_PRUNE_DEPTH {
            if (static_eval.0 as i32) + (FUTILITY_PRUNE_MAX_MOVE_VALUE as i32) < alpha.0 as i32 {
                skip = true;
            }
        }
        if !skip {
            game.make_move(m);
            node_pv.clear();
            let cr: Eval;
            if i == 0 {
                // the first move carries the full window
                cr = negamax(
                    game,
                    beta.neg(),
                    alpha.neg(),
                    depth - 1,
                    plies + 1,
                    persistent_state,
                    &mut node_pv,
                    time_control,
                    state,
                );
                proof {
                    if d1 && cr != Eval::aborted() {
                        // a calm root's first reply is searched with the
                        // full window at depth zero: its exact value
                        assert(seq_reply_best(g0, 0, moves@, 0) == -32767);
                        assert(alpha.0 == -32767i16);
                        assert(cr.0 as int == med3(-32767, tc, 32767));
                        assert(cr.0 as int == tc);
                    }
                }
            } else {
                // later moves: zero window at a possibly reduced depth,
                // then a re-search at full window on a fail-high
                let reduction: u8 = if depth >= LMR_DEPTH && i + 1 >= LMR_MOVE_THRESHOLD
                    && !in_chk {
                    lmr_reduction(depth, i)
                } else {
                    1
                };
                let red_depth = if depth > reduction {
                    depth - reduction
                } else {
                    0
                };
                let zw_alpha = alpha.neg().sub(Eval::new(1));
                let cr1 = negamax(
                    game,
                    zw_alpha,
                    alpha.neg(),
                    red_depth,
                    plies + 1,
                    persistent_state,
                    &mut node_pv,
                    time_control,
                    state,
                );
                if cr1 == Eval::aborted() {
                    cr = cr1;
                } else {
                    let pvs_score = cr1.neg();
                    proof {
                        if d1 {
                            // the zero-window probe reports the reply value
                            // clamped into the unit window above alpha
                            assert(cr1.0 as int == med3(
                                -(alpha.0 as int) - 1,
                                tc,
                                -(alpha.0 as int),
                            ));
                            assert(pvs_score.0 as int == med3(
                                alpha.0 as int,
                                -tc,
                                alpha.0 as int + 1,
                            ));
                        }
                    }
                    if pvs_score.0 > alpha.0 && pvs_score.0 < beta.0 {
                        node_pv.clear();
                        cr = negamax(
                            game,
                            beta.neg(),
                            alpha.neg(),
                            depth - 1,
                            plies + 1,
                            persistent_state,
                            &mut node_pv,
                            time_control,
                            state,
                        );
                        proof {
                            if d1 && cr != Eval::aborted() {
                                // the probe failed high, so the re-search
                                // window is below the value: exact again
                                assert(-tc >= alpha.0 as int + 1);
                                assert(cr.0 as int == med3(-32767, tc, -(alpha.0 as int)));
                                assert(cr.0 as int == tc);
                            }
                        }
                    } else {
                        cr = cr1;
                        proof {
                            if d1 {
                                // the probe failed low: the reply does not
                                // beat the best found so far
                                assert(pvs_score.0 as int <= alpha.0 as int);
                                assert(-tc <= alpha.0 as int);
                                assert(cr.0 as int == -(alpha.0 as int));
                            }
                        }
                    }
                }
            }
            proof {
                assert(crate::game::undoable(game@));
            }
            game.undo_move();
            proof {
                crate::game::lemma_make_undo(g0, m);
            }
            if cr == Eval::aborted() {
                return Eval::aborted();
            }
            let move_score = cr.neg();
            proof {
                if d1 {
                    assert(seq_reply_best(g0, 0, moves@, i as int + 1) == imax(
                        seq_reply_best(g0, 0, moves@, i as int),
                        -tc,
                    ));
                    assert(move_score.0 as int == -tc || (move_score.0 as int == alpha.0 as int
                        && -tc <= alpha.0 as int));
                }
            }
            if move_score.0 > best_eval.0 {
                best_move = Some(m);
                best_eval = move_score;
            }
            if move_score.0 >= beta.0 {
                // cutoff: the opponent will not allow this line; remember
                // quiet cutoff moves as killers and in the history table
                tt_node_bound = NodeBound::Lower;
                if !is_capture {
                    state.killer_moves.try_push(plies, m);
                    persistent_state.history_table.add_bonus_for(game.player, m, depth);
                }
                cut = true;
            } else if move_score.0 > alpha.0 {
                alpha = move_score;
                tt_node_bound = NodeBound::Exact;
                pv.set_line(m, &node_pv);
            }
        }
        i = i + 1;
    }
    proof {
        if d1 {
            lemma_seq_legal_eq(g0, moves@);
        }
    }
    let data = SearchTranspositionTableData {
        bound: tt_node_bound,
        eval: best_eval.with_mate_distance_from_position(plies),
        best_move,
        depth,
        age: persistent_state.tt.generation,
    };
    persistent_state.tt.insert(game.zobrist, data);
    best_eval
}

/// What a finished depth reports: score as centipawns or moves to mate.
#[derive(Clone, Copy, Debug, PartialEq, Eq, Structural)]
pub enum SearchScore {
    Centipawns(i16),
    Mate(i16),
}

/// The reported form of a score: moves to mate for a mate score,
/// centipawns otherwise.
pub open spec fn spec_search_score(e: Eval) -> SearchScore {
    if e.0 > crate::eval::MATE_THRESHOLD {
        SearchScore::Mate(
            (crate::eval::mate_distance(crate::eval::MATE_VALUE - e.0 + 1)) as i16,
        )
    } else if e.0 < -crate::eval::MATE_THRESHOLD {
        SearchScore::Mate(
            ((-crate::eval::mate_distance(crate::eval::MATE_VALUE + e.0 + 1)) as i16),
        )
    } else {
        SearchScore::Centipawns(e.0)
    }
}

/// One progress report per finished depth.
#[derive(Clone, Debug)]
pub struct SearchInfo {
    pub depth: u8,
    pub seldepth: u8,
    pub score: SearchScore,
    pub pv: Vec<Move>,
    pub hashfull: usize,
    pub nodes: u64,
    pub time_ms: u64,
    pub nodes_per_second: u64,
}

/// Iterative deepening: search depth by depth, keep the best move of the
/// last finished depth, and report each finished depth in increasing
/// order. The returned move, when there is one, is legal in the given
/// position and heads the principal variation of the deepest finished
/// depth, whose report also carries the returned score; a position with
/// dead material is reported drawn at once, and a root without a legal
/// move reports no move and, unaborted, the mate or stalemate score.
pub fn search(
    game: &mut Game,
    persistent_state: &mut PersistentState,
    search_restrictions: &SearchRestrictions,
    state: &mut SearchState,
    time_control: &TimeStrategy,
) -> (r: (Option<Move>, Eval, Vec<SearchInfo>))
    requires
        valid_pos(old(game)@),
        old(persistent_state).inv(),
        old(state).inv(),
    ensures
        final(game)@ == old(game)@,
        final(persistent_state).inv(),
        final(state).inv(),
        r.0 matches Some(m) ==> is_legal(old(game)@, m),
        forall|i: int, j: int|
            0 <= i < j < r.2@.len() ==> (#[trigger] r.2@[i].depth) < (#[trigger] r.2@[j].depth),
        time_control.node_limit is None && time_control.movetime_ms is None
            && !crate::movegen::no_legal_moves(old(game)@)
            && !crate::rules::insufficient_material(old(game)@.board.pieces) ==> r.0 is Some,
        crate::rules::insufficient_material(old(game)@.board.pieces) ==> r.0 is None && r.1
            == Eval::draw() && r.2@.len() == 0,
        r.2@.len() > 0 ==> r.2@.last().pv@.len() > 0 && r.0 == Some(r.2@.last().pv@[0])
            && r.2@.last().score == spec_search_score(r.1),
        calm_root(old(game)@) && search_restrictions.depth == Some(1u8) && r.2@.len() > 0
            ==> r.1.0 as int == depth1_value(old(game)@) && (r.0 matches Some(m)
            && -qsearch_value(spec_make(old(game)@, m), 1) == depth1_value(old(game)@)),
        crate::movegen::no_legal_moves(old(game)@) ==> r.0 is None && r.2@.len() == 0,
        crate::movegen::no_legal_moves(old(game)@) && !crate::rules::insufficient_material(
            old(game)@.board.pieces,
        ) && time_control.node_limit is None && time_control.movetime_ms is None ==> r.1 == (
        if crate::movegen::in_check(old(game)@.board, old(game)@.player) {
            Eval::mated_in(0)
        } else {
            Eval::draw()
        }),
{
    let ghost g0 = old(game)@;
    if game.is_stalemate_by_insufficient_material() {
        return (None, Eval::draw(), Vec::new());
    }
    persistent_state.tt.bump_generation();
    let max_depth = match search_restrictions.depth {
        Some(d) => if d > MAX_SEARCH_DEPTH {
            MAX_SEARCH_DEPTH
        } else if d == 0 {
            1
        } else {
            d
        },
        None => MAX_SEARCH_DEPTH,
    };
    let mut best: Option<Move> = None;
    let mut best_eval = Eval::draw();
    let mut reports: Vec<SearchInfo> = Vec::new();
    state.max_depth_reached = 0;
    let mut depth: u8 = 1;
    while depth <= max_depth
        invariant
            g0 == old(game)@,
            game@ == g0,
            valid_pos(g0),
            persistent_state.inv(),
            state.inv(),
            1 <= depth <= max_depth + 1,
            1 <= max_depth <= MAX_SEARCH_DEPTH,
            best matches Some(m) ==> is_legal(g0, m),
            forall|i: int, j: int|
                0 <= i < j < reports@.len() ==> (#[trigger] reports@[i].depth) < (
                #[trigger] reports@[j].depth),
            forall|i: int| 0 <= i < reports@.len() ==> (#[trigger] reports@[i].depth) < depth,
            time_control.node_limit is None && time_control.movetime_ms is None
                && !crate::movegen::no_legal_moves(g0) && depth > 1 ==> best is Some,
            reports@.len() > 0 ==> reports@.last().pv@.len() > 0 && best == Some(
                reports@.last().pv@[0],
            ) && reports@.last().score == spec_search_score(best_eval),
            calm_root(g0) && max_depth == 1 && reports@.len() > 0 ==> best_eval.0 as int
                == depth1_value(g0) && (best matches Some(bm) && -qsearch_value(
                spec_make(g0, bm),
                1,
            ) == depth1_value(g0)),
            crate::movegen::no_legal_moves(g0) ==> best is None && reports@.len() == 0,
            crate::movegen::no_legal_moves(g0) && time_control.node_limit is None
                && time_control.movetime_ms is None ==> depth == 1,
        ensures
            time_control.node_limit is None && time_control.movetime_ms is None
                && !crate::movegen::no_legal_moves(g0) ==> best is Some,
            best matches Some(m) ==> is_legal(g0, m),
            forall|i: int, j: int|
                0 <= i < j < reports@.len() ==> (#[trigger] reports@[i].depth) < (
                #[trigger] reports@[j].depth),
            reports@.len() > 0 ==> reports@.last().pv@.len() > 0 && best == Some(
                reports@.last().pv@[0],
            ) && reports@.last().score == spec_search_score(best_eval),
            calm_root(g0) && max_depth == 1 && reports@.len() > 0 ==> best_eval.0 as int
                == depth1_value(g0) && (best matches Some(bm) && -qsearch_value(
                spec_make(g0, bm),
                1,
            ) == depth1_value(g0)),
            crate::movegen::no_legal_moves(g0) ==> best is None && reports@.len() == 0,
            crate::movegen::no_legal_moves(g0) && time_control.node_limit is None
                && time_control.movetime_ms is None ==> best_eval == (
            if crate::movegen::in_check(g0.board, g0.player) {
                Eval::mated_in(0)
            } else {
                Eval::draw()
            }),
        decreases max_depth - depth + 1,
    {
        state.nodes_visited = 0;
        let mut pv = PrincipalVariation::new();
        let e = negamax(
            game,
            Eval::min(),
            Eval::max(),
            depth,
            0,
            persistent_state,
            &mut pv,
            time_control,
            state,
        );
        if e == Eval::aborted() {
            break ;
        }
        match pv.first() {
            None => {
                // no line: the root is mate or stalemate, and no depth can
                // have reported a move before
                proof {
                    if reports@.len() > 0 {
                        assert(is_legal(g0, reports@.last().pv@[0]));
                        assert(!crate::movegen::no_legal_moves(g0));
                        assert(pv.moves@.len() > 0);
                        assert(false);
                    }
                }
                best_eval = e;
                break ;
            },
            Some(m) => {
                best = Some(m);
                best_eval = e;
                let score = match e.is_mate_in_moves() {
                    Some(n) => SearchScore::Mate(n),
                    None => SearchScore::Centipawns(e.0),
                };
                let time_ms = time_control.elapsed_ms();
                let nodes = state.nodes_visited;
                let nps = nodes.checked_mul(1000).unwrap_or(u64::MAX) / (if time_ms == 0 {
                    1
                } else {
                    time_ms
                });
                let info = SearchInfo {
                    depth,
                    seldepth: state.max_depth_reached,
                    score,
                    pv: pv.line(),
                    hashfull: persistent_state.tt.occupancy(),
                    nodes,
                    time_ms,
                    nodes_per_second: nps,
                };
                reports.push(info);
            },
        }
        depth = depth + 1;
    }
    (best, best_eval, reports)
}

/// The line the transposition table stores from position `g`: while the
/// probe finds an exact-bound entry whose best move is legal, that move
/// followed by the stored line of the position after it.
pub open spec fn spec_tt_pv(
    entries: Seq<Option<crate::tt::StoredEntry>>,
    g: crate::game::GameV,
    depth: nat,
) -> Seq<Move>
    decreases depth,
{
    if depth == 0 {
        Seq::empty()
    } else {
        match crate::tt::spec_get(entries, g.zobrist) {
            None => Seq::empty(),
            Some(e) => if !(e.bound is Exact) {
                Seq::empty()
            } else {
                match e.best_move {
                    None => Seq::empty(),
                    Some(m) => if is_legal(g, m) {
                        seq![m] + spec_tt_pv(entries, crate::game::spec_make(g, m), (depth - 1) as nat)
                    } else {
                        Seq::empty()
                    },
                }
            },
        }
    }
}

proof fn lemma_tt_pv_len(
    entries: Seq<Option<crate::tt::StoredEntry>>,
    g: crate::game::GameV,
    depth: nat,
)
    ensures
        spec_tt_pv(entries, g, depth).len() <= depth,
    decreases depth,
{
    if depth > 0 {
        match crate::tt::spec_get(entries, g.zobrist) {
            None => {},
            Some(e) => {
                match e.best_move {
                    None => {},
                    Some(m) => {
                        if e.bound is Exact && is_legal(g, m) {
                            lemma_tt_pv_len(entries, crate::game::spec_make(g, m), (depth - 1) as nat);
                        }
                    },
                }
            },
        }
    }
}

/// The principal variation as stored in the transposition table: exactly
/// the chain of exact-bound stored best moves, each legal where it is
/// played, to the given depth. The game comes back unchanged.
pub fn get_pv(depth: u8, game: &mut Game, tt: &SearchTranspositionTable) -> (pv: Vec<Move>)
    requires
        valid_pos(old(game)@),
        tt.inv(),
    ensures
        final(game)@ == old(game)@,
        pv@ == spec_tt_pv(tt.entries@, old(game)@, depth as nat),
        pv@.len() <= depth,
{
    let ghost g0 = old(game)@;
    let mut pv: Vec<Move> = Vec::new();
    get_pv_rec(depth, game, tt, &mut pv);
    proof {
        assert(pv@ =~= spec_tt_pv(tt.entries@, g0, depth as nat));
        lemma_tt_pv_len(tt.entries@, g0, depth as nat);
    }
    pv
}

fn get_pv_rec(depth: u8, game: &mut Game, tt: &SearchTranspositionTable, out: &mut Vec<Move>)
    requires
        valid_pos(old(game)@),
        tt.inv(),
    ensures
        final(game)@ == old(game)@,
        final(out)@ == old(out)@ + spec_tt_pv(tt.entries@, old(game)@, depth as nat),
    decreases depth,
{
    let ghost g0 = old(game)@;
    if depth == 0 {
        proof {
            assert(out@ =~= old(out)@ + spec_tt_pv(tt.entries@, g0, 0));
        }
        return ;
    }
    let entry = match tt.get(game.zobrist) {
        None => {
            proof {
                assert(out@ =~= old(out)@ + spec_tt_pv(tt.entries@, g0, depth as nat));
            }
            return ;
        },
        Some(e) => e,
    };
    if !matches!(entry.bound, NodeBound::Exact) {
        proof {
            assert(out@ =~= old(out)@ + spec_tt_pv(tt.entries@, g0, depth as nat));
        }
        return ;
    }
    let m = match entry.best_move {
        None => {
            proof {
                assert(out@ =~= old(out)@ + spec_tt_pv(tt.entries@, g0, depth as nat));
            }
            return ;
        },
        Some(m) => m,
    };
    let legal = game.legal_moves();
    let mut found = false;
    let n = legal.len();
    let mut i: usize = 0;
    while i < n
        invariant
            i <= n,
            n == legal@.len(),
            game@ == g0,
            valid_pos(g0),
            forall|x: Move| #[trigger] legal@.contains(x) <==> is_legal(g0, x),
            found ==> is_legal(g0, m),
            !found ==> forall|j: int| 0 <= j < i ==> legal@[j] != m,
        decreases n - i,
    {
        proof {
            assert(legal@[i as int] == legal@.index(i as int));
        }
        if legal[i] == m {
            proof {
                assert(legal@.contains(legal@[i as int]));
            }
            found = true;
        }
        i = i + 1;
    }
    if !found {
        proof {
            if is_legal(g0, m) {
                assert(legal@.contains(m));
                let j = choose|j: int| 0 <= j < legal@.len() && legal@[j] == m;
                assert(false);
            }
            assert(out@ =~= old(out)@ + spec_tt_pv(tt.entries@, g0, depth as nat));
        }
        return ;
    }
    proof {
        lemma_legal_valid(g0, m);
    }
    out.push(m);
    game.make_move(m);
    get_pv_rec(depth - 1, game, tt, out);
    proof {
        assert(crate::game::undoable(game@));
    }
    game.undo_move();
    proof {
        crate::game::lemma_make_undo(g0, m);
        assert(out@ =~= old(out)@ + spec_tt_pv(tt.entries@, g0, depth as nat));
    }
}

} // verus!
