//! Attack sets: which squares a piece on a square attacks, as bitboards,
//! verified against per-move geometric predicates.

use vstd::prelude::*;
use crate::bitboard::Bitboard;
use crate::board::{Board, BoardV};
use crate::piece::{Piece, PieceKind, Player};
use crate::square::Square;

verus! {

/// A knight's jump: file and rank differ by (1, 2) or (2, 1).
pub open spec fn knight_jump(from: int, to: int) -> bool {
    let df = to % 8 - from % 8;
    let dr = to / 8 - from / 8;
    &&& 0 <= from < 64
    &&& 0 <= to < 64
    &&& ((df == 1 || df == -1) && (dr == 2 || dr == -2) || (df == 2 || df == -2) && (dr == 1
        || dr == -1))
}

/// A king's step: file and rank change by at most one, not both zero.
pub open spec fn king_step(from: int, to: int) -> bool {
    let df = to % 8 - from % 8;
    let dr = to / 8 - from / 8;
    &&& 0 <= from < 64
    &&& 0 <= to < 64
    &&& -1 <= df <= 1
    &&& -1 <= dr <= 1
    &&& !(df == 0 && dr == 0)
}

/// A pawn's capture reach: one file aside, one rank forward.
pub open spec fn pawn_attack(player: Player, from: int, to: int) -> bool {
    let df = to % 8 - from % 8;
    let dr = to / 8 - from / 8;
    &&& 0 <= from < 64
    &&& 0 <= to < 64
    &&& (df == 1 || df == -1)
    &&& dr == (if player is White {
        1int
    } else {
        -1int
    })
}

/// Walking from (f, r) in direction (df, dr): the walk reaches `to` if it
/// arrives there before leaving the board, with only empty squares in
/// between; the first occupied square is reached but ends the walk.
pub open spec fn ray_reaches(
    pieces: Seq<Option<Piece>>,
    f: int,
    r: int,
    df: int,
    dr: int,
    to: int,
    fuel: nat,
) -> bool
    decreases fuel,
{
    if fuel == 0 {
        false
    } else {
        let nf = f + df;
        let nr = r + dr;
        if !(0 <= nf < 8 && 0 <= nr < 8) {
            false
        } else {
            let sq = nr * 8 + nf;
            to == sq || (pieces[sq] is None && ray_reaches(
                pieces,
                nf,
                nr,
                df,
                dr,
                to,
                (fuel - 1) as nat,
            ))
        }
    }
}

pub open spec fn bishop_attack(pieces: Seq<Option<Piece>>, from: int, to: int) -> bool {
    let f = from % 8;
    let r = from / 8;
    ||| ray_reaches(pieces, f, r, 1, 1, to, 7)
    ||| ray_reaches(pieces, f, r, 1, -1, to, 7)
    ||| ray_reaches(pieces, f, r, -1, 1, to, 7)
    ||| ray_reaches(pieces, f, r, -1, -1, to, 7)
}

pub open spec fn rook_attack(pieces: Seq<Option<Piece>>, from: int, to: int) -> bool {
    let f = from % 8;
    let r = from / 8;
    ||| ray_reaches(pieces, f, r, 1, 0, to, 7)
    ||| ray_reaches(pieces, f, r, -1, 0, to, 7)
    ||| ray_reaches(pieces, f, r, 0, 1, to, 7)
    ||| ray_reaches(pieces, f, r, 0, -1, to, 7)
}

/// The full attack relation: piece `p` standing on `from` attacks `to`.
pub open spec fn piece_attacks(pieces: Seq<Option<Piece>>, p: Piece, from: int, to: int) -> bool {
    match p.kind {
        PieceKind::Pawn => pawn_attack(p.player, from, to),
        PieceKind::Knight => knight_jump(from, to),
        PieceKind::Bishop => bishop_attack(pieces, from, to),
        PieceKind::Rook => rook_attack(pieces, from, to),
        PieceKind::Queen => bishop_attack(pieces, from, to) || rook_attack(pieces, from, to),
        PieceKind::King => king_step(from, to),
    }
}

/// The piece on `from` belongs to `by` and attacks `to`.
pub open spec fn attacks_square(pieces: Seq<Option<Piece>>, from: int, to: int, by: Player) -> bool {
    match pieces[from] {
        None => false,
        Some(p) => p.player == by && piece_attacks(pieces, p, from, to),
    }
}

/// Some piece of `by` attacks `to`.
pub open spec fn square_attacked(pieces: Seq<Option<Piece>>, to: int, by: Player) -> bool {
    exists|from: int| 0 <= from < 64 && #[trigger] attacks_square(pieces, from, to, by)
}

fn is_knight_jump(from: u8, to: u8) -> (r: bool)
    requires
        from < 64,
        to < 64,
    ensures
        r == knight_jump(from as int, to as int),
{
    let df = (to % 8) as i16 - (from % 8) as i16;
    let dr = (to / 8) as i16 - (from / 8) as i16;
    (df == 1 || df == -1) && (dr == 2 || dr == -2) || (df == 2 || df == -2) && (dr == 1 || dr == -1)
}

fn is_king_step(from: u8, to: u8) -> (r: bool)
    requires
        from < 64,
        to < 64,
    ensures
        r == king_step(from as int, to as int),
{
    let df = (to % 8) as i16 - (from % 8) as i16;
    let dr = (to / 8) as i16 - (from / 8) as i16;
    -1 <= df && df <= 1 && -1 <= dr && dr <= 1 && !(df == 0 && dr == 0)
}

pub fn pawn_attack_test(player: Player, from: u8, to: u8) -> (r: bool)
    requires
        from < 64,
        to < 64,
    ensures
        r == pawn_attack(player, from as int, to as int),
{
    let df = (to % 8) as i16 - (from % 8) as i16;
    let dr = (to / 8) as i16 - (from / 8) as i16;
    (df == 1 || df == -1) && dr == (if matches!(player, Player::White) {
        1
    } else {
        -1
    })
}

/// The squares a ray from (f, r) in direction (df, dr) attacks.
fn ray_attacks(board: &Board, f: i16, r: i16, df: i16, dr: i16, fuel: u8) -> (bb: Bitboard)
    requires
        0 <= f < 8,
        0 <= r < 8,
        -1 <= df <= 1,
        -1 <= dr <= 1,
        fuel <= 7,
    ensures
        forall|to: int| #[trigger]
            bb.has(to) <==> (0 <= to < 64 && ray_reaches(
                board@.pieces,
                f as int,
                r as int,
                df as int,
                dr as int,
                to,
                fuel as nat,
            )),
    decreases fuel,
{
    proof {
        crate::bitboard::lemma_bit_zero();
    }
    if fuel == 0 {
        return Bitboard::empty();
    }
    let nf = f + df;
    let nr = r + dr;
    if !(0 <= nf && nf < 8 && 0 <= nr && nr < 8) {
        return Bitboard::empty();
    }
    let sq = Square { index: (nr * 8 + nf) as u8 };
    match board.piece_at(sq) {
        Some(_) => Bitboard::empty().set(sq),
        None => {
            let rest = ray_attacks(board, nf, nr, df, dr, fuel - 1);
            rest.set(sq)
        },
    }
}

/// Does the ray from (f, r) in direction (df, dr) reach `to`?
fn ray_hits(board: &Board, f: i16, r: i16, df: i16, dr: i16, to: u8, fuel: u8) -> (hit: bool)
    requires
        0 <= f < 8,
        0 <= r < 8,
        -1 <= df <= 1,
        -1 <= dr <= 1,
        to < 64,
        fuel <= 7,
    ensures
        hit == ray_reaches(
            board@.pieces,
            f as int,
            r as int,
            df as int,
            dr as int,
            to as int,
            fuel as nat,
        ),
    decreases fuel,
{
    if fuel == 0 {
        return false;
    }
    let nf = f + df;
    let nr = r + dr;
    if !(0 <= nf && nf < 8 && 0 <= nr && nr < 8) {
        return false;
    }
    let sq = Square { index: (nr * 8 + nf) as u8 };
    if sq.index == to {
        return true;
    }
    match board.piece_at(sq) {
        Some(_) => false,
        None => ray_hits(board, nf, nr, df, dr, to, fuel - 1),
    }
}

/// The attack bitboard of a king on `s`: every square one step away.
pub fn king_attacks(s: Square) -> (bb: Bitboard)
    requires
        s.wf(),
    ensures
        forall|to: int| #[trigger] bb.has(to) <==> (0 <= to < 64 && king_step(s.index as int, to)),
{
    proof {
        crate::bitboard::lemma_bit_zero();
    }
    let mut bb = Bitboard::empty();
    let mut to: u8 = 0;
    while to < 64
        invariant
            to <= 64,
            s.wf(),
            forall|j: int| #[trigger] bb.has(j) <==> (0 <= j < to && king_step(s.index as int, j)),
        decreases 64 - to,
    {
        if is_king_step(s.index, to) {
            bb = bb.set(Square { index: to });
        }
        to = to + 1;
    }
    bb
}

/// The attack bitboard of a knight on `s`.
pub fn knight_attacks(s: Square) -> (bb: Bitboard)
    requires
        s.wf(),
    ensures
        forall|to: int| #[trigger]
            bb.has(to) <==> (0 <= to < 64 && knight_jump(s.index as int, to)),
{
    proof {
        crate::bitboard::lemma_bit_zero();
    }
    let mut bb = Bitboard::empty();
    let mut to: u8 = 0;
    while to < 64
        invariant
            to <= 64,
            s.wf(),
            forall|j: int| #[trigger]
                bb.has(j) <==> (0 <= j < to && knight_jump(s.index as int, j)),
        decreases 64 - to,
    {
        if is_knight_jump(s.index, to) {
            bb = bb.set(Square { index: to });
        }
        to = to + 1;
    }
    bb
}

/// The attack bitboard of a bishop on `from` over the current occupancy.
pub fn bishop_attacks(board: &Board, from: Square) -> (bb: Bitboard)
    requires
        from.wf(),
    ensures
        forall|to: int| #[trigger]
            bb.has(to) <==> (0 <= to < 64 && bishop_attack(board@.pieces, from.index as int, to)),
{
    let f = (from.index % 8) as i16;
    let r = (from.index / 8) as i16;
    ray_attacks(board, f, r, 1, 1, 7).union(ray_attacks(board, f, r, 1, -1, 7)).union(
        ray_attacks(board, f, r, -1, 1, 7),
    ).union(ray_attacks(board, f, r, -1, -1, 7))
}

/// The attack bitboard of a rook on `from` over the current occupancy.
pub fn rook_attacks(board: &Board, from: Square) -> (bb: Bitboard)
    requires
        from.wf(),
    ensures
        forall|to: int| #[trigger]
            bb.has(to) <==> (0 <= to < 64 && rook_attack(board@.pieces, from.index as int, to)),
{
    let f = (from.index % 8) as i16;
    let r = (from.index / 8) as i16;
    ray_attacks(board, f, r, 1, 0, 7).union(ray_attacks(board, f, r, -1, 0, 7)).union(
        ray_attacks(board, f, r, 0, 1, 7),
    ).union(ray_attacks(board, f, r, 0, -1, 7))
}

/// The attack bitboard of `p` standing on `from`.
pub fn piece_attacks_bb(board: &Board, p: Piece, from: Square) -> (bb: Bitboard)
    requires
        from.wf(),
    ensures
        forall|to: int| #[trigger]
            bb.has(to) <==> (0 <= to < 64 && piece_attacks(board@.pieces, p, from.index as int, to)),
{
    match p.kind {
        PieceKind::Bishop => bishop_attacks(board, from),
        PieceKind::Rook => rook_attacks(board, from),
        PieceKind::Queen => bishop_attacks(board, from).union(rook_attacks(board, from)),
        _ => {
            proof {
        crate::bitboard::lemma_bit_zero();
    }
    let mut bb = Bitboard::empty();
            let mut to: u8 = 0;
            while to < 64
                invariant
                    to <= 64,
                    from.wf(),
                    p.kind is Pawn || p.kind is Knight || p.kind is King,
                    forall|j: int| #[trigger]
                        bb.has(j) <==> (0 <= j < to && piece_attacks(
                            board@.pieces,
                            p,
                            from.index as int,
                            j,
                        )),
                decreases 64 - to,
            {
                let hit = match p.kind {
                    PieceKind::Pawn => pawn_attack_test(p.player, from.index, to),
                    PieceKind::Knight => is_knight_jump(from.index, to),
                    PieceKind::King => is_king_step(from.index, to),
                    _ => false,
                };
                if hit {
                    bb = bb.set(Square { index: to });
                }
                to = to + 1;
            }
            bb
        },
    }
}

/// Does `p` standing on `from` attack `to`?
pub fn piece_attacks_test(board: &Board, p: Piece, from: Square, to: Square) -> (r: bool)
    requires
        from.wf(),
        to.wf(),
    ensures
        r == piece_attacks(board@.pieces, p, from.index as int, to.index as int),
{
    let f = (from.index % 8) as i16;
    let r_ = (from.index / 8) as i16;
    match p.kind {
        PieceKind::Pawn => pawn_attack_test(p.player, from.index, to.index),
        PieceKind::Knight => is_knight_jump(from.index, to.index),
        PieceKind::King => is_king_step(from.index, to.index),
        PieceKind::Bishop => ray_hits(board, f, r_, 1, 1, to.index, 7) || ray_hits(
            board,
            f,
            r_,
            1,
            -1,
            to.index,
            7,
        ) || ray_hits(board, f, r_, -1, 1, to.index, 7) || ray_hits(board, f, r_, -1, -1, to.index, 7),
        PieceKind::Rook => ray_hits(board, f, r_, 1, 0, to.index, 7) || ray_hits(
            board,
            f,
            r_,
            -1,
            0,
            to.index,
            7,
        ) || ray_hits(board, f, r_, 0, 1, to.index, 7) || ray_hits(board, f, r_, 0, -1, to.index, 7),
        PieceKind::Queen => {
            let diag = ray_hits(board, f, r_, 1, 1, to.index, 7) || ray_hits(
                board,
                f,
                r_,
                1,
                -1,
                to.index,
                7,
            ) || ray_hits(board, f, r_, -1, 1, to.index, 7) || ray_hits(
                board,
                f,
                r_,
                -1,
                -1,
                to.index,
                7,
            );
            let ortho = ray_hits(board, f, r_, 1, 0, to.index, 7) || ray_hits(
                board,
                f,
                r_,
                -1,
                0,
                to.index,
                7,
            ) || ray_hits(board, f, r_, 0, 1, to.index, 7) || ray_hits(board, f, r_, 0, -1, to.index, 7);
            diag || ortho
        },
    }
}

/// Every square attacked by any piece of `player`.
pub fn generate_all_attacks(board: &Board, player: Player) -> (bb: Bitboard)
    ensures
        forall|to: int| #[trigger]
            bb.has(to) <==> (0 <= to < 64 && square_attacked(board@.pieces, to, player)),
{
    proof {
        crate::bitboard::lemma_bit_zero();
    }
    let mut bb = Bitboard::empty();
    let mut to: u8 = 0;
    while to < 64
        invariant
            to <= 64,
            forall|j: int| #[trigger]
                bb.has(j) <==> (0 <= j < to && square_attacked(board@.pieces, j, player)),
        decreases 64 - to,
    {
        if square_attacked_test(board, Square { index: to }, player) {
            bb = bb.set(Square { index: to });
        }
        to = to + 1;
    }
    bb
}

/// Is `to` attacked by any piece of `by`?
pub fn square_attacked_test(board: &Board, to: Square, by: Player) -> (r: bool)
    requires
        to.wf(),
    ensures
        r == square_attacked(board@.pieces, to.index as int, by),
{
    let mut from: u8 = 0;
    while from < 64
        invariant
            to.wf(),
            from <= 64,
            forall|j: int| 0 <= j < from ==> !#[trigger] attacks_square(
                board@.pieces,
                j,
                to.index as int,
                by,
            ),
        decreases 64 - from,
    {
        match board.piece_at(Square { index: from }) {
            None => {},
            Some(p) => {
                if matches!((p.player, by), (Player::White, Player::White) | (
                    Player::Black,
                    Player::Black,
                )) && piece_attacks_test(board, p, Square { index: from }, to) {
                    proof {
                        assert(attacks_square(board@.pieces, from as int, to.index as int, by));
                    }
                    return true;
                }
            },
        }
        from = from + 1;
    }
    false
}

/// The squares from which pieces of `by` attack `target`.
pub fn generate_attackers_of(board: &Board, defender: Player, target: Square) -> (bb: Bitboard)
    requires
        target.wf(),
    ensures
        forall|from: int| #[trigger]
            bb.has(from) <==> (0 <= from < 64 && attacks_square(
                board@.pieces,
                from,
                target.index as int,
                defender.other(),
            )),
{
    let by = defender.other();
    proof {
        crate::bitboard::lemma_bit_zero();
    }
    let mut bb = Bitboard::empty();
    let mut from: u8 = 0;
    while from < 64
        invariant
            target.wf(),
            from <= 64,
            forall|j: int| #[trigger]
                bb.has(j) <==> (0 <= j < from && attacks_square(
                    board@.pieces,
                    j,
                    target.index as int,
                    by,
                )),
        decreases 64 - from,
    {
        let sq = Square { index: from };
        match board.piece_at(sq) {
            None => {},
            Some(p) => {
                if matches!((p.player, by), (Player::White, Player::White) | (
                    Player::Black,
                    Player::Black,
                )) && piece_attacks_test(board, p, sq, target) {
                    bb = bb.set(sq);
                }
            },
        }
        from = from + 1;
    }
    bb
}

} // verus!
