// The transposition table: round trips, the replacement policy, and the
// packed move form.

use chesscore::eval::Eval;
use chesscore::moves::Move;
use chesscore::square::Square;
use chesscore::piece::PromotionPieceKind;
use chesscore::tt::{
    pack_move, unpack_move, NodeBound, SearchTranspositionTable, SearchTranspositionTableData,
};

fn mv(src: u8, dst: u8) -> Move {
    Move::new(Square { index: src }, Square { index: dst })
}

fn data(depth: u8, age: u8, best: Option<Move>) -> SearchTranspositionTableData {
    SearchTranspositionTableData {
        bound: NodeBound::Exact,
        eval: Eval(123),
        best_move: best,
        depth,
        age,
    }
}

// Inserting and probing the same key returns the stored data.
#[test]
fn test_tt_roundtrip() {
    let mut tt = SearchTranspositionTable::new(1024);
    let key = 0xDEADBEEF12345678u64;
    let d = data(5, 0, Some(mv(12, 28)));
    tt.insert(key, d);
    assert_eq!(tt.get(key), Some(d));
    assert_eq!(tt.get(key ^ (1 << 55)), None);
}

// A deeper entry of the current generation is not replaced by a shallower
// one; an older-generation entry is.
#[test]
fn test_tt_replacement_policy() {
    let mut tt = SearchTranspositionTable::new(64);
    let key = 7u64;
    tt.insert(key, data(9, 0, None));
    tt.insert(key, data(3, 0, None));
    assert_eq!(tt.get(key).unwrap().depth, 9);
    tt.insert(key, data(12, 0, None));
    assert_eq!(tt.get(key).unwrap().depth, 12);
    tt.bump_generation();
    tt.insert(key, data(1, 1, None));
    assert_eq!(tt.get(key).unwrap().depth, 1);
}

// A colliding key that maps to the same slot overwrites under the policy,
// and the probe for the first key then misses.
#[test]
fn test_tt_collision_miss() {
    let mut tt = SearchTranspositionTable::new(16);
    let a = 5u64;
    let b = 5u64 + 16 + (1u64 << 50);  // same slot, different tag
    tt.insert(a, data(2, 0, None));
    tt.insert(b, data(7, 0, None));
    assert_eq!(tt.get(a), None);
    assert_eq!(tt.get(b).unwrap().depth, 7);
}

#[test]
fn test_tt_clear_and_occupancy() {
    let mut tt = SearchTranspositionTable::new(10);
    assert_eq!(tt.occupancy(), 0);
    for k in 0..5u64 {
        tt.insert(k, data(1, 0, None));
    }
    assert_eq!(tt.occupancy(), 500);
    tt.clear();
    assert_eq!(tt.occupancy(), 0);
    assert_eq!(tt.get(3), None);
}

// The 16-bit packed form of a move round-trips, promotions included.
#[test]
fn test_packed_move_roundtrip() {
    let plain = mv(0, 56);
    assert_eq!(unpack_move(pack_move(plain)), Some(plain));
    let promo = Move::new_with_promotion(
        Square { index: 52 },
        Square { index: 60 },
        PromotionPieceKind::Queen,
    );
    assert_eq!(unpack_move(pack_move(promo)), Some(promo));
    assert_eq!(pack_move(plain), 0 + 56 * 64);
    assert_eq!(unpack_move(0xFFFF), None);
}
