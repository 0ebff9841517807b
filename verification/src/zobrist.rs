//! Zobrist hashing: a 64-bit fingerprint of a position, the XOR of one
//! fixed pseudorandom key per occupied (piece, square) pair, per castling
//! right held, the side-to-move key when Black is to move, and one key per
//! en-passant file when an en-passant target exists.

use vstd::prelude::*;
use crate::board::Board;
use crate::castling::CastleRights;
use crate::piece::{Piece, Player};
use crate::square::Square;

verus! {

/// Key `i` of the fixed pseudorandom key family, one splitmix64 step of the
/// index. Opaque: no proof depends on the key values, only on the family
/// being fixed. Indices used: `code * 64 + square` for the twelve
/// piece-square planes, then the side-to-move key, four castling-right
/// keys, and eight en-passant file keys.
#[verifier::opaque]
pub open spec fn zkey(i: int) -> u64 {
    let z0 = vstd::wrapping::u64_specs::wrapping_mul(
        vstd::wrapping::u64_specs::wrapping_add(i as u64, 1u64),
        0x9E3779B97F4A7C15u64,
    );
    let z1 = vstd::wrapping::u64_specs::wrapping_mul(z0 ^ (z0 >> 30u64), 0xBF58476D1CE4E5B9u64);
    let z2 = vstd::wrapping::u64_specs::wrapping_mul(z1 ^ (z1 >> 27u64), 0x94D049BB133111EBu64);
    z2 ^ (z2 >> 31u64)
}

/// The key contributed by `op` standing on square `i`; zero for an empty
/// square.
pub open spec fn square_contrib(op: Option<Piece>, i: int) -> u64 {
    match op {
        None => 0u64,
        Some(p) => zkey(p.code() * 64 + i),
    }
}

/// XOR of the contributions of the first `n` squares.
pub open spec fn pieces_hash(pieces: Seq<Option<Piece>>, n: int) -> u64
    decreases n,
{
    if n <= 0 {
        0u64
    } else {
        pieces_hash(pieces, n - 1) ^ square_contrib(pieces[n - 1], n - 1)
    }
}

/// XOR of the non-piece keys: side to move, castling rights, en passant.
pub open spec fn meta_hash_spec(
    player: Player,
    wcr: CastleRights,
    bcr: CastleRights,
    ep: Option<Square>,
) -> u64 {
    let side = if player is Black {
        zkey(768)
    } else {
        0u64
    };
    let wk = if wcr.king_side {
        zkey(769)
    } else {
        0u64
    };
    let wq = if wcr.queen_side {
        zkey(770)
    } else {
        0u64
    };
    let bk = if bcr.king_side {
        zkey(771)
    } else {
        0u64
    };
    let bq = if bcr.queen_side {
        zkey(772)
    } else {
        0u64
    };
    let epk = match ep {
        None => 0u64,
        Some(s) => zkey(773 + s.index % 8),
    };
    side ^ wk ^ wq ^ bk ^ bq ^ epk
}

/// The Zobrist key of a full position.
pub open spec fn zobrist_of(
    pieces: Seq<Option<Piece>>,
    player: Player,
    wcr: CastleRights,
    bcr: CastleRights,
    ep: Option<Square>,
) -> u64 {
    pieces_hash(pieces, 64) ^ meta_hash_spec(player, wcr, bcr, ep)
}

/// The key of `piece` standing on `square`.
pub fn piece_square_key(piece: Piece, square: Square) -> (r: u64)
    requires
        square.wf(),
    ensures
        r == square_contrib(Some(piece), square.index as int),
{
    key_at((piece.code() as u64) * 64 + (square.index as u64))
}

/// Key `i` of the fixed key family.
fn key_at(i: u64) -> (r: u64)
    ensures
        r == zkey(i as int),
{
    proof {
        reveal(zkey);
    }
    let z0 = i.wrapping_add(1).wrapping_mul(0x9E3779B97F4A7C15);
    let z1 = (z0 ^ (z0 >> 30u64)).wrapping_mul(0xBF58476D1CE4E5B9);
    let z2 = (z1 ^ (z1 >> 27u64)).wrapping_mul(0x94D049BB133111EB);
    z2 ^ (z2 >> 31u64)
}

/// The XOR of the non-piece keys, computed as `meta_hash_spec`.
pub fn meta_hash(player: Player, wcr: CastleRights, bcr: CastleRights, ep: Option<Square>) -> (r:
    u64)
    requires
        ep is Some ==> ep.unwrap().wf(),
    ensures
        r == meta_hash_spec(player, wcr, bcr, ep),
{
    let side = if matches!(player, Player::Black) {
        key_at(768)
    } else {
        0
    };
    let wk = if wcr.king_side {
        key_at(769)
    } else {
        0
    };
    let wq = if wcr.queen_side {
        key_at(770)
    } else {
        0
    };
    let bk = if bcr.king_side {
        key_at(771)
    } else {
        0
    };
    let bq = if bcr.queen_side {
        key_at(772)
    } else {
        0
    };
    let epk = match ep {
        None => 0,
        Some(s) => key_at(773 + (s.index as u64) % 8),
    };
    side ^ wk ^ wq ^ bk ^ bq ^ epk
}

/// Recompute the full Zobrist key of a position from scratch.
pub fn compute_zobrist(
    board: &Board,
    player: Player,
    wcr: CastleRights,
    bcr: CastleRights,
    ep: Option<Square>,
) -> (r: u64)
    requires
        ep is Some ==> ep.unwrap().wf(),
    ensures
        r == zobrist_of(board@.pieces, player, wcr, bcr, ep),
{
    let mut acc: u64 = 0;
    let mut i: u8 = 0;
    while i < 64
        invariant
            i <= 64,
            acc == pieces_hash(board@.pieces, i as int),
        decreases 64 - i,
    {
        match board.piece_at(Square { index: i }) {
            None => {
                proof {
                    lemma_xor_cancel(acc, 0u64);
                }
            },
            Some(p) => {
                acc = acc ^ piece_square_key(p, Square { index: i });
            },
        }
        i = i + 1;
    }
    acc ^ meta_hash(player, wcr, bcr, ep)
}

pub proof fn lemma_xor_cancel(a: u64, b: u64)
    by (bit_vector)
    ensures
        (a ^ b) ^ b == a,
        a ^ 0u64 == a,
{
}

proof fn lemma_xor_shuffle(x: u64, a: u64, b: u64, c: u64)
    by (bit_vector)
    ensures
        ((x ^ a) ^ b) ^ c == ((x ^ c) ^ a) ^ b,
{
}

/// Squares equal below `n` give equal partial hashes.
pub proof fn lemma_hash_prefix(s: Seq<Option<Piece>>, t: Seq<Option<Piece>>, n: int)
    requires
        forall|j: int| 0 <= j < n ==> s[j] == t[j],
    ensures
        pieces_hash(s, n) == pieces_hash(t, n),
    decreases n,
{
    if n > 0 {
        lemma_hash_prefix(s, t, n - 1);
    }
}

/// Changing one square changes the hash by the two contributions of that
/// square.
pub proof fn lemma_hash_update(s: Seq<Option<Piece>>, i: int, v: Option<Piece>, n: int)
    requires
        0 <= i < n,
        n <= s.len(),
    ensures
        pieces_hash(s.update(i, v), n) == (pieces_hash(s, n) ^ square_contrib(s[i], i))
            ^ square_contrib(v, i),
    decreases n,
{
    let u = s.update(i, v);
    let co = square_contrib(s[i], i);
    let cn = square_contrib(v, i);
    if n == i + 1 {
        lemma_hash_prefix(u, s, i);
        lemma_xor_cancel(pieces_hash(s, i), co);
        assert(pieces_hash(u, n) == pieces_hash(s, i) ^ cn);
        assert((pieces_hash(s, n) ^ co) ^ cn == ((pieces_hash(s, i) ^ co) ^ co) ^ cn);
    } else {
        lemma_hash_update(s, i, v, n - 1);
        let cl = square_contrib(s[n - 1], n - 1);
        assert(u[n - 1] == s[n - 1]);
        lemma_xor_shuffle(pieces_hash(s, n - 1), co, cn, cl);
    }
}

} // verus!
