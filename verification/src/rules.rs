//! Draw rules that inspect material: K vs K, K + minor vs K, and same-
//! colored single bishops.

use vstd::prelude::*;
use crate::eval::sum_over;
use crate::game::{pc, Game};
use crate::piece::{Piece, PieceKind, Player};
use crate::square::Square;

verus! {

/// One if `op` is a pawn, rook or queen (material that can still mate).
pub open spec fn sq_heavy(op: Option<Piece>) -> int {
    match op {
        None => 0,
        Some(p) => match p.kind {
            PieceKind::Pawn => 1,
            PieceKind::Rook => 1,
            PieceKind::Queen => 1,
            _ => 0,
        },
    }
}

/// One if `op` is a knight of `player`.
pub open spec fn sq_knight(op: Option<Piece>, player: Player) -> int {
    if op == Some(pc(player, PieceKind::Knight)) {
        1int
    } else {
        0int
    }
}

/// One if `op` is a bishop of `player` standing on a square of color
/// `color` (the parity of file plus rank).
pub open spec fn sq_bishop_on(op: Option<Piece>, i: int, player: Player, color: int) -> int {
    if op == Some(pc(player, PieceKind::Bishop)) && (i / 8 + i % 8) % 2 == color {
        1int
    } else {
        0int
    }
}

pub open spec fn heavy_count(s: Seq<Option<Piece>>) -> int {
    sum_over(|i: int| sq_heavy(s[i]), 64)
}

pub open spec fn knight_count(s: Seq<Option<Piece>>, player: Player) -> int {
    sum_over(|i: int| sq_knight(s[i], player), 64)
}

pub open spec fn bishop_on_count(s: Seq<Option<Piece>>, player: Player, color: int) -> int {
    sum_over(|i: int| sq_bishop_on(s[i], i, player, color), 64)
}

/// Neither side can force mate: only kings, one lone minor piece, or a
/// single bishop each standing on same-colored squares.
pub open spec fn insufficient_material(s: Seq<Option<Piece>>) -> bool {
    let wn = knight_count(s, Player::White);
    let bn = knight_count(s, Player::Black);
    let wbl = bishop_on_count(s, Player::White, 0);
    let wbd = bishop_on_count(s, Player::White, 1);
    let bbl = bishop_on_count(s, Player::Black, 0);
    let bbd = bishop_on_count(s, Player::Black, 1);
    let minors = wn + bn + wbl + wbd + bbl + bbd;
    &&& heavy_count(s) == 0
    &&& (minors <= 1 || (wn == 0 && bn == 0 && wbl + wbd == 1 && bbl + bbd == 1 && wbl == bbl))
}

/// The draws the search recognises without moving: a repeated position,
/// one hundred plies without pawn move or capture, or dead material.
pub open spec fn is_search_draw(g: crate::game::GameV) -> bool {
    ||| crate::game::repeated_position(g)
    ||| g.halfmove >= 100
    ||| insufficient_material(g.board.pieces)
}

impl Game {
    /// Is the material down to a dead draw: K vs K, K + minor vs K, or
    /// K + B vs K + B with the bishops on same-colored squares?
    pub fn is_stalemate_by_insufficient_material(&self) -> (r: bool)
        requires
            self.inv(),
        ensures
            r == insufficient_material(self@.board.pieces),
    {
        let ghost s = self@.board.pieces;
        let mut heavy: u32 = 0;
        let mut wn: u32 = 0;
        let mut bn: u32 = 0;
        let mut wbl: u32 = 0;
        let mut wbd: u32 = 0;
        let mut bbl: u32 = 0;
        let mut bbd: u32 = 0;
        let mut i: u8 = 0;
        while i < 64
            invariant
                self.inv(),
                i <= 64,
                s == self@.board.pieces,
                heavy as int == sum_over(|j: int| sq_heavy(s[j]), i as int),
                wn as int == sum_over(|j: int| sq_knight(s[j], Player::White), i as int),
                bn as int == sum_over(|j: int| sq_knight(s[j], Player::Black), i as int),
                wbl as int == sum_over(|j: int| sq_bishop_on(s[j], j, Player::White, 0), i as int),
                wbd as int == sum_over(|j: int| sq_bishop_on(s[j], j, Player::White, 1), i as int),
                bbl as int == sum_over(|j: int| sq_bishop_on(s[j], j, Player::Black, 0), i as int),
                bbd as int == sum_over(|j: int| sq_bishop_on(s[j], j, Player::Black, 1), i as int),
                heavy <= i as u32,
                wn <= i as u32,
                bn <= i as u32,
                wbl <= i as u32,
                wbd <= i as u32,
                bbl <= i as u32,
                bbd <= i as u32,
            decreases 64 - i,
        {
            match self.board.piece_at(Square { index: i }) {
                None => {},
                Some(p) => {
                    let white = matches!(p.player, Player::White);
                    let color = (i / 8 + i % 8) % 2;
                    match p.kind {
                        PieceKind::Pawn | PieceKind::Rook | PieceKind::Queen => {
                            heavy = heavy + 1;
                        },
                        PieceKind::Knight => {
                            if white {
                                wn = wn + 1;
                            } else {
                                bn = bn + 1;
                            }
                        },
                        PieceKind::Bishop => {
                            if white {
                                if color == 0 {
                                    wbl = wbl + 1;
                                } else {
                                    wbd = wbd + 1;
                                }
                            } else {
                                if color == 0 {
                                    bbl = bbl + 1;
                                } else {
                                    bbd = bbd + 1;
                                }
                            }
                        },
                        PieceKind::King => {},
                    }
                },
            }
            i = i + 1;
        }
        let minors = wn + bn + wbl + wbd + bbl + bbd;
        heavy == 0 && (minors <= 1 || (wn == 0 && bn == 0 && wbl + wbd == 1 && bbl + bbd == 1
            && wbl == bbl))
    }
}

} // verus!
