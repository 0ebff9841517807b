//! 64-bit bitboards: bit `i` is set exactly when square `i` is a member.

use vstd::prelude::*;
use crate::square::Square;

verus! {

/// Bit `i` of `b`, for `i < 64`.
pub open spec fn bit(b: u64, i: u64) -> bool
    recommends
        i < 64,
{
    (b >> i) & 1u64 == 1u64
}

/// A set of squares, one bit per square.
#[derive(Clone, Copy, Debug, PartialEq, Eq, Structural)]
pub struct Bitboard {
    pub bits: u64,
}

impl Bitboard {
    /// Membership of square index `i`.
    pub open spec fn has(self, i: int) -> bool {
        0 <= i < 64 && bit(self.bits, i as u64)
    }

    #[verifier::allow_in_spec]
    pub fn empty() -> Bitboard
        returns
            (Bitboard { bits: 0u64 }),
    {
        Bitboard { bits: 0 }
    }

    #[verifier::allow_in_spec]
    pub fn from_bits(bits: u64) -> Bitboard
        returns
            (Bitboard { bits }),
    {
        Bitboard { bits }
    }

    pub fn contains(self, sq: Square) -> (r: bool)
        requires
            sq.wf(),
        ensures
            r == self.has(sq.index as int),
    {
        (self.bits >> (sq.index as u64)) & 1 == 1
    }

    /// This set with square `sq` added.
    pub fn set(self, sq: Square) -> (r: Bitboard)
        requires
            sq.wf(),
        ensures
            r.bits == self.bits | (1u64 << (sq.index as u64)),
            forall|j: int| r.has(j) <==> (self.has(j) || j == sq.index as int),
    {
        proof {
            lemma_bit_set(self.bits, sq.index as u64);
        }
        Bitboard { bits: self.bits | (1u64 << (sq.index as u64)) }
    }

    /// This set with square `sq` removed.
    pub fn unset(self, sq: Square) -> (r: Bitboard)
        requires
            sq.wf(),
        ensures
            r.bits == self.bits & !(1u64 << (sq.index as u64)),
            forall|j: int| r.has(j) <==> (self.has(j) && j != sq.index as int),
    {
        proof {
            lemma_bit_unset(self.bits, sq.index as u64);
        }
        Bitboard { bits: self.bits & !(1u64 << (sq.index as u64)) }
    }

    pub fn union(self, other: Bitboard) -> (r: Bitboard)
        ensures
            r.bits == self.bits | other.bits,
            forall|j: int| r.has(j) <==> (self.has(j) || other.has(j)),
    {
        proof {
            lemma_bit_or(self.bits, other.bits);
        }
        Bitboard { bits: self.bits | other.bits }
    }

    pub fn intersect(self, other: Bitboard) -> (r: Bitboard)
        ensures
            r.bits == self.bits & other.bits,
            forall|j: int| r.has(j) <==> (self.has(j) && other.has(j)),
    {
        proof {
            lemma_bit_and(self.bits, other.bits);
        }
        Bitboard { bits: self.bits & other.bits }
    }

    /// The complement, within the 64 squares.
    pub fn invert(self) -> (r: Bitboard)
        ensures
            r.bits == !self.bits,
            forall|j: int| 0 <= j < 64 ==> (r.has(j) <==> !self.has(j)),
    {
        proof {
            lemma_bit_not(self.bits);
        }
        Bitboard { bits: !self.bits }
    }

    pub open spec fn is_empty_spec(self) -> bool {
        forall|j: int| !self.has(j)
    }

    pub fn is_empty(self) -> (r: bool)
        ensures
            r == self.is_empty_spec(),
    {
        let mut i: u8 = 0;
        let mut found: bool = false;
        while i < 64
            invariant
                i <= 64,
                found <==> exists|j: int| 0 <= j < i && self.has(j),
            decreases 64 - i,
        {
            if (self.bits >> (i as u64)) & 1 == 1 {
                assert(self.has(i as int));
                found = true;
            }
            i = i + 1;
        }
        !found
    }

    /// Whether any square is a member.
    pub fn any(self) -> (r: bool)
        ensures
            r == !self.is_empty_spec(),
    {
        !self.is_empty()
    }

    /// Exactly one square is a member.
    pub open spec fn is_single(self) -> bool {
        exists|i: int|
            #[trigger] self.has(i) && (forall|j: int| self.has(j) ==> j == i)
    }

    /// The unique member of a single-square set.
    pub fn single(self) -> (r: Square)
        requires
            self.is_single(),
        ensures
            r.wf(),
            self.has(r.index as int),
            forall|j: int| self.has(j) ==> j == r.index as int,
    {
        let mut i: u8 = 0;
        while i < 64
            invariant
                i <= 64,
                forall|j: int| 0 <= j < i ==> !self.has(j),
                exists|j: int| 0 <= j < 64 && self.has(j),
                forall|j: int, k: int| self.has(j) && self.has(k) ==> j == k,
            decreases 64 - i,
        {
            if (self.bits >> (i as u64)) & 1 == 1 {
                assert(self.has(i as int));
                return Square { index: i };
            }
            i = i + 1;
        }
        proof {
            let j = choose|j: int| 0 <= j < 64 && self.has(j);
            assert(false);
        }
        Square { index: 0 }
    }

}

pub proof fn lemma_bit_set(b: u64, i: u64)
    by (bit_vector)
    requires
        i < 64,
    ensures
        forall|j: u64| j < 64 ==> (#[trigger] bit(b | (1u64 << i), j) <==> (bit(b, j) || j == i)),
{
}

pub proof fn lemma_bit_unset(b: u64, i: u64)
    by (bit_vector)
    requires
        i < 64,
    ensures
        forall|j: u64| j < 64 ==> (#[trigger] bit(b & !(1u64 << i), j) <==> (bit(b, j) && j != i)),
{
}

proof fn lemma_bit_or(a: u64, b: u64)
    by (bit_vector)
    ensures
        forall|j: u64| j < 64 ==> (#[trigger] bit(a | b, j) <==> (bit(a, j) || bit(b, j))),
{
}

proof fn lemma_bit_and(a: u64, b: u64)
    by (bit_vector)
    ensures
        forall|j: u64| j < 64 ==> (#[trigger] bit(a & b, j) <==> (bit(a, j) && bit(b, j))),
{
}

proof fn lemma_bit_not(a: u64)
    by (bit_vector)
    ensures
        forall|j: u64| j < 64 ==> (#[trigger] bit(!a, j) <==> !bit(a, j)),
{
}

/// Bitboard zero has no members.
pub proof fn lemma_bit_zero()
    by (bit_vector)
    ensures
        forall|j: u64| j < 64 ==> !(#[trigger] bit(0u64, j)),
{
}

/// Moving a bit from `s` to `d` and back restores the board.
pub proof fn lemma_bb_move_roundtrip(b: u64, s: u64, d: u64)
    by (bit_vector)
    requires
        s < 64,
        d < 64,
        s != d,
        bit(b, s),
        !bit(b, d),
    ensures
        (((b & !(1u64 << s)) | (1u64 << d)) & !(1u64 << d)) | (1u64 << s) == b,
{
}

/// Clearing a set bit and setting it again restores the board.
pub proof fn lemma_bb_clear_roundtrip(b: u64, x: u64)
    by (bit_vector)
    requires
        x < 64,
        bit(b, x),
    ensures
        (b & !(1u64 << x)) | (1u64 << x) == b,
{
}

/// Setting a clear bit and clearing it again restores the board.
pub proof fn lemma_bb_set_roundtrip(b: u64, x: u64)
    by (bit_vector)
    requires
        x < 64,
        !bit(b, x),
    ensures
        (b | (1u64 << x)) & !(1u64 << x) == b,
{
}

} // verus!
