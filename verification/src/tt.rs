//! The transposition table: a fixed-size, open-addressed, always-replace-
//! with-age table keyed by Zobrist, storing the best move in a 16-bit
//! packed form.

use vstd::prelude::*;
use crate::eval::Eval;
use crate::moves::Move;
use crate::piece::PromotionPieceKind;
use crate::square::Square;

verus! {

/// What a stored score means relative to the search window.
#[derive(Clone, Copy, Debug, PartialEq, Eq, Structural)]
pub enum NodeBound {
    Exact,
    Lower,
    Upper,
}

/// What the search stores for a position.
#[derive(Clone, Copy, Debug, PartialEq, Eq, Structural)]
pub struct SearchTranspositionTableData {
    pub bound: NodeBound,
    pub eval: Eval,
    pub best_move: Option<Move>,
    pub depth: u8,
    pub age: u8,
}

/// A slot of the table: the key's high bits as a tag, the packed move,
/// and the data.
#[derive(Clone, Copy, Debug, PartialEq, Eq, Structural)]
pub struct StoredEntry {
    pub tag: u16,
    pub packed_move: u16,
    pub eval: Eval,
    pub depth: u8,
    pub bound: NodeBound,
    pub age: u8,
}

/// The promotion nibble of the packed form.
pub open spec fn promo_code(p: Option<PromotionPieceKind>) -> int {
    match p {
        None => 0,
        Some(PromotionPieceKind::Knight) => 1,
        Some(PromotionPieceKind::Bishop) => 2,
        Some(PromotionPieceKind::Rook) => 3,
        Some(PromotionPieceKind::Queen) => 4,
    }
}

/// The 16-bit packed form of a move: six bits source, six bits
/// destination, four bits promotion.
pub open spec fn spec_pack(m: Move) -> int {
    m.src.index + m.dst.index * 64 + promo_code(m.promotion) * 4096
}

/// No move, in packed form.
pub const NO_MOVE: u16 = 0xFFFF;

pub open spec fn spec_pack_opt(m: Option<Move>) -> int {
    match m {
        None => NO_MOVE as int,
        Some(m) => spec_pack(m),
    }
}

/// Unpacking inverts packing for well-formed moves.
pub open spec fn spec_unpack(x: int) -> Option<Move> {
    if x == NO_MOVE as int {
        None
    } else {
        let src = x % 64;
        let dst = (x / 64) % 64;
        let pr = x / 4096;
        let promotion = if pr == 1 {
            Some(PromotionPieceKind::Knight)
        } else if pr == 2 {
            Some(PromotionPieceKind::Bishop)
        } else if pr == 3 {
            Some(PromotionPieceKind::Rook)
        } else if pr == 4 {
            Some(PromotionPieceKind::Queen)
        } else {
            None
        };
        Some(
            Move {
                src: Square { index: src as u8 },
                dst: Square { index: dst as u8 },
                promotion,
            },
        )
    }
}

/// The packed form round-trips: unpacking a packed well-formed move gives
/// the move back.
pub proof fn lemma_pack_roundtrip(m: Move)
    requires
        m.wf(),
    ensures
        0 <= spec_pack(m) < 0x5000,
        spec_unpack(spec_pack(m)) == Some(m),
{
    let s = m.src.index as int;
    let d = m.dst.index as int;
    let p = promo_code(m.promotion);
    let x = s + d * 64 + p * 4096;
    assert(x % 64 == s && (x / 64) % 64 == d && x / 4096 == p) by (nonlinear_arith)
        requires
            0 <= s < 64,
            0 <= d < 64,
            0 <= p <= 4,
            x == s + d * 64 + p * 4096,
    ;
}

pub fn pack_move(m: Move) -> (r: u16)
    requires
        m.wf(),
    ensures
        r as int == spec_pack(m),
        r != NO_MOVE,
{
    proof {
        lemma_pack_roundtrip(m);
    }
    let pr: u16 = match m.promotion {
        None => 0,
        Some(PromotionPieceKind::Knight) => 1,
        Some(PromotionPieceKind::Bishop) => 2,
        Some(PromotionPieceKind::Rook) => 3,
        Some(PromotionPieceKind::Queen) => 4,
    };
    m.src.index as u16 + m.dst.index as u16 * 64 + pr * 4096
}

pub fn unpack_move(x: u16) -> (r: Option<Move>)
    ensures
        r == spec_unpack(x as int),
{
    if x == NO_MOVE {
        return None;
    }
    let src = x % 64;
    let dst = (x / 64) % 64;
    let pr = x / 4096;
    let promotion = if pr == 1 {
        Some(PromotionPieceKind::Knight)
    } else if pr == 2 {
        Some(PromotionPieceKind::Bishop)
    } else if pr == 3 {
        Some(PromotionPieceKind::Rook)
    } else if pr == 4 {
        Some(PromotionPieceKind::Queen)
    } else {
        None
    };
    Some(
        Move {
            src: Square { index: src as u8 },
            dst: Square { index: dst as u8 },
            promotion,
        },
    )
}

/// The slot a key hashes to.
pub open spec fn slot_of(key: u64, len: int) -> int
    recommends
        len > 0,
{
    (key as int) % len
}

/// The tag stored with an entry: the key's sixteen high bits.
pub open spec fn tag_of(key: u64) -> int {
    (key >> 48u64) as int
}

/// The entry in the slot `key` hashes to.
pub open spec fn slot_entry(entries: Seq<Option<StoredEntry>>, key: u64) -> Option<StoredEntry> {
    entries[slot_of(key, entries.len() as int)]
}

/// The always-replace-with-age policy: write when the slot is empty, when
/// the stored entry is from an older search, or when the new entry
/// searched at least as deep.
pub open spec fn should_replace(slot: Option<StoredEntry>, generation: u8, depth: u8) -> bool {
    match slot {
        None => true,
        Some(e) => e.age != generation || depth >= e.depth,
    }
}

pub open spec fn encode(key: u64, data: SearchTranspositionTableData) -> StoredEntry {
    StoredEntry {
        tag: tag_of(key) as u16,
        packed_move: spec_pack_opt(data.best_move) as u16,
        eval: data.eval,
        depth: data.depth,
        bound: data.bound,
        age: data.age,
    }
}

pub open spec fn decode(e: StoredEntry) -> SearchTranspositionTableData {
    SearchTranspositionTableData {
        bound: e.bound,
        eval: e.eval,
        best_move: spec_unpack(e.packed_move as int),
        depth: e.depth,
        age: e.age,
    }
}

/// The table contents after an insert.
pub open spec fn spec_insert(
    entries: Seq<Option<StoredEntry>>,
    generation: u8,
    key: u64,
    data: SearchTranspositionTableData,
) -> Seq<Option<StoredEntry>> {
    let slot = slot_of(key, entries.len() as int);
    if should_replace(entries[slot], generation, data.depth) {
        entries.update(slot, Some(encode(key, data)))
    } else {
        entries
    }
}

/// What a probe returns: the stored data when the slot's tag matches the
/// key's high bits.
pub open spec fn spec_get(entries: Seq<Option<StoredEntry>>, key: u64) -> Option<
    SearchTranspositionTableData,
> {
    let slot = slot_of(key, entries.len() as int);
    match entries[slot] {
        None => None,
        Some(e) => if e.tag as int == tag_of(key) {
            Some(decode(e))
        } else {
            None
        },
    }
}

/// Round trip: probing right after storing returns the stored data,
/// unless the slot kept a deeper entry of the current search that another
/// key had claimed.
pub proof fn lemma_tt_roundtrip(
    entries: Seq<Option<StoredEntry>>,
    generation: u8,
    key: u64,
    data: SearchTranspositionTableData,
)
    requires
        entries.len() > 0,
        data.best_move matches Some(m) ==> m.wf(),
        data.age == generation,
    ensures
        spec_get(spec_insert(entries, generation, key, data), key) == Some(data) || (entries[
            slot_of(key, entries.len() as int)] matches Some(e) && e.age == generation && e.depth
            > data.depth),
{
    let slot = slot_of(key, entries.len() as int);
    assert(0 <= slot < entries.len());
    if should_replace(entries[slot], generation, data.depth) {
        let e = encode(key, data);
        assert(tag_of(key) < 0x10000) by (bit_vector)
            requires
                true,
        ;
        match data.best_move {
            None => {},
            Some(m) => {
                lemma_pack_roundtrip(m);
            },
        }
        assert(decode(e) == data);
    }
}

/// The number of occupied slots among the first `n`.
pub open spec fn count_occupied(entries: Seq<Option<StoredEntry>>, n: int) -> int
    decreases n,
{
    if n <= 0 {
        0
    } else {
        count_occupied(entries, n - 1) + (if entries[n - 1] is Some {
            1int
        } else {
            0int
        })
    }
}

/// The transposition table.
pub struct SearchTranspositionTable {
    pub entries: Vec<Option<StoredEntry>>,
    pub generation: u8,
    pub occupied: usize,
}

impl SearchTranspositionTable {
    pub open spec fn inv(&self) -> bool {
        &&& self.entries@.len() > 0
        &&& self.occupied as int == count_occupied(self.entries@, self.entries@.len() as int)
        &&& self.occupied <= self.entries@.len()
    }

    /// An empty table with `capacity` slots (at least one).
    pub fn new(capacity: usize) -> (r: SearchTranspositionTable)
        requires
            0 < capacity,
        ensures
            r.inv(),
            r.entries@.len() == capacity,
            r.generation == 0,
            forall|i: int| 0 <= i < capacity ==> r.entries@[i] is None,
    {
        let mut entries: Vec<Option<StoredEntry>> = Vec::new();
        let mut i: usize = 0;
        while i < capacity
            invariant
                i <= capacity,
                entries@.len() == i,
                forall|j: int| 0 <= j < i ==> entries@[j] is None,
            decreases capacity - i,
        {
            entries.push(None);
            i = i + 1;
        }
        proof {
            lemma_count_none(entries@, capacity as int);
        }
        SearchTranspositionTable { entries, generation: 0, occupied: 0 }
    }

    /// Forget everything and restart the generation counter.
    pub fn clear(&mut self)
        requires
            old(self).inv(),
        ensures
            final(self).inv(),
            final(self).entries@.len() == old(self).entries@.len(),
            forall|i: int| 0 <= i < final(self).entries@.len() ==> final(self).entries@[i] is None,
            final(self).generation == 0,
    {
        let n = self.entries.len();
        let mut i: usize = 0;
        while i < n
            invariant
                i <= n,
                self.entries@.len() == n,
                forall|j: int| 0 <= j < i ==> self.entries@[j] is None,
            decreases n - i,
        {
            self.entries[i] = None;
            i = i + 1;
        }
        proof {
            lemma_count_none(self.entries@, n as int);
        }
        self.generation = 0;
        self.occupied = 0;
    }

    /// Start a new root search: older entries become replaceable.
    pub fn bump_generation(&mut self)
        requires
            old(self).inv(),
        ensures
            final(self).inv(),
            final(self).entries == old(self).entries,
            final(self).generation as int == (old(self).generation as int + 1) % 256,
    {
        self.generation = self.generation.wrapping_add(1);
    }

    /// Store `data` for `key` under the replacement policy.
    pub fn insert(&mut self, key: u64, data: SearchTranspositionTableData)
        requires
            old(self).inv(),
            data.best_move matches Some(m) ==> m.wf(),
        ensures
            final(self).inv(),
            final(self).entries@ == spec_insert(
                old(self).entries@,
                old(self).generation,
                key,
                data,
            ),
            final(self).generation == old(self).generation,
    {
        let n = self.entries.len();
        let slot = (key % (n as u64)) as usize;
        proof {
            assert(slot as int == slot_of(key, n as int));
        }
        let write = match &self.entries[slot] {
            None => true,
            Some(e) => e.age != self.generation || data.depth >= e.depth,
        };
        if write {
            let pm = match data.best_move {
                None => NO_MOVE,
                Some(m) => pack_move(m),
            };
            let e = StoredEntry {
                tag: (key >> 48) as u16,
                packed_move: pm,
                eval: data.eval,
                depth: data.depth,
                bound: data.bound,
                age: data.age,
            };
            proof {
                assert((key >> 48u64) < 0x10000u64) by (bit_vector);
                lemma_count_update(self.entries@, slot as int, Some(e), n as int);
            }
            let was_some = self.entries[slot].is_some();
            proof {
                if !was_some {
                    lemma_count_lt_if_none(old(self).entries@, slot as int, n as int);
                }
            }
            self.entries[slot] = Some(e);
            if !was_some {
                self.occupied = self.occupied + 1;
            }
            proof {
                lemma_count_bound(self.entries@, n as int);
            }
        }
    }

    /// Probe for `key`: the stored data when the tag matches.
    pub fn get(&self, key: u64) -> (r: Option<SearchTranspositionTableData>)
        requires
            self.inv(),
        ensures
            r == spec_get(self.entries@, key),
    {
        let n = self.entries.len();
        let slot = (key % (n as u64)) as usize;
        proof {
            assert(slot as int == slot_of(key, n as int));
        }
        match &self.entries[slot] {
            None => None,
            Some(e) => {
                if e.tag == (key >> 48) as u16 {
                    proof {
                        assert((key >> 48u64) < 0x10000u64) by (bit_vector);
                    }
                    Some(
                        SearchTranspositionTableData {
                            bound: e.bound,
                            eval: e.eval,
                            best_move: unpack_move(e.packed_move),
                            depth: e.depth,
                            age: e.age,
                        },
                    )
                } else {
                    None
                }
            },
        }
    }

    /// How full the table is, in parts per thousand, exactly.
    pub fn occupancy(&self) -> (r: usize)
        requires
            self.inv(),
        ensures
            r as int == self.occupied * 1000 / self.entries@.len() as int,
            r <= 1000,
    {
        let n = self.entries.len();
        proof {
            assert(self.occupied as int * 1000 <= n as int * 1000) by (nonlinear_arith)
                requires
                    self.occupied as int <= n as int,
            ;
            assert(n as int * 1000 / n as int == 1000) by (nonlinear_arith)
                requires
                    n as int > 0,
            ;
            assert(self.occupied as int * 1000 / n as int <= n as int * 1000 / n as int) by (nonlinear_arith)
                requires
                    self.occupied as int * 1000 <= n as int * 1000,
                    n as int > 0,
            ;
        }
        let wide = self.occupied as u128 * 1000 / (n as u128);
        wide as usize
    }
}

proof fn lemma_count_none(entries: Seq<Option<StoredEntry>>, n: int)
    requires
        forall|j: int| 0 <= j < n ==> entries[j] is None,
    ensures
        count_occupied(entries, n) == 0,
    decreases n,
{
    if n > 0 {
        lemma_count_none(entries, n - 1);
    }
}

proof fn lemma_count_update(
    entries: Seq<Option<StoredEntry>>,
    i: int,
    v: Option<StoredEntry>,
    n: int,
)
    requires
        0 <= i < n,
        n <= entries.len(),
        v is Some,
    ensures
        count_occupied(entries.update(i, v), n) == count_occupied(entries, n) + (
        if entries[i] is Some {
            0int
        } else {
            1int
        }),
    decreases n,
{
    if n > 0 {
        if i == n - 1 {
            lemma_count_prefix_same(entries, entries.update(i, v), n - 1);
        } else {
            lemma_count_update(entries, i, v, n - 1);
        }
    }
}

proof fn lemma_count_prefix_same(
    a: Seq<Option<StoredEntry>>,
    b: Seq<Option<StoredEntry>>,
    n: int,
)
    requires
        forall|j: int| 0 <= j < n ==> a[j] == b[j],
    ensures
        count_occupied(a, n) == count_occupied(b, n),
    decreases n,
{
    if n > 0 {
        lemma_count_prefix_same(a, b, n - 1);
    }
}

proof fn lemma_count_lt_if_none(entries: Seq<Option<StoredEntry>>, i: int, n: int)
    requires
        0 <= i < n,
        entries[i] is None,
    ensures
        count_occupied(entries, n) <= n - 1,
    decreases n,
{
    lemma_count_bound(entries, n - 1);
    if i == n - 1 {
    } else {
        lemma_count_lt_if_none(entries, i, n - 1);
    }
}

proof fn lemma_count_bound(entries: Seq<Option<StoredEntry>>, n: int)
    requires
        n >= 0,
    ensures
        count_occupied(entries, n) <= n,
    decreases n,
{
    if n > 0 {
        lemma_count_bound(entries, n - 1);
    }
}

} // verus!
