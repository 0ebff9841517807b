//! Move generation: pseudo-legal moves (which may leave the own king in
//! check) and legal moves (pseudo-legal moves filtered by make / check /
//! unmake), each verified against a declarative predicate.

use vstd::prelude::*;
use crate::attacks::{
    bishop_attack, king_step, knight_jump, pawn_attack, piece_attacks, piece_attacks_test,
    rook_attack, square_attacked, square_attacked_test,
};
use crate::bitboard::Bitboard;
use crate::board::{bv_wf, Board, BoardV};
use crate::game::{
    gv_wf, is_ep_capture, kings_ok, movable, moving_piece, pc, spec_make, Game, GameV,
};
use crate::moves::Move;
use crate::piece::{Piece, PieceKind, Player, PromotionPieceKind};
use crate::square::Square;

verus! {

/// The destination is empty or holds an opponent piece (a pseudo-legal
/// capture may target any opponent piece).
pub open spec fn dest_ok(g: GameV, dst: int) -> bool {
    match g.board.pieces[dst] {
        None => true,
        Some(q) => q.player != g.player,
    }
}

/// The pawn movement rules: single push to an empty square, double push
/// from the start rank over empty squares, and captures, ordinary or en
/// passant.
pub open spec fn pawn_movement(g: GameV, src: int, dst: int) -> bool {
    let white = g.player is White;
    let push1 = if white {
        src + 8
    } else {
        src - 8
    };
    let push2 = if white {
        src + 16
    } else {
        src - 16
    };
    let start_rank = if white {
        1int
    } else {
        6int
    };
    ||| (dst == push1 && g.board.pieces[dst] is None)
    ||| (dst == push2 && src / 8 == start_rank && g.board.pieces[push1] is None
        && g.board.pieces[dst] is None)
    ||| (pawn_attack(g.player, src, dst) && (match g.board.pieces[dst] {
        Some(q) => q.player != g.player,
        None => g.ep == Some(Square { index: dst as u8 }),
    }))
}

/// The castling rules: king on its start square and not in check, the
/// right still held, the squares between king and rook empty, and the two
/// squares the king crosses unattacked.
pub open spec fn castle_movement(g: GameV, src: int, dst: int) -> bool {
    let enemy = g.player.other();
    let pieces = g.board.pieces;
    let home = if g.player is White {
        4int
    } else {
        60int
    };
    &&& src == home
    &&& !square_attacked(pieces, home, enemy)
    &&& ({
        ||| (dst == home + 2 && (if g.player is White {
            g.wcr.king_side
        } else {
            g.bcr.king_side
        }) && pieces[home + 1] is None && pieces[home + 2] is None && !square_attacked(
            pieces,
            home + 1,
            enemy,
        ) && !square_attacked(pieces, home + 2, enemy))
        ||| (dst == home - 2 && (if g.player is White {
            g.wcr.queen_side
        } else {
            g.bcr.queen_side
        }) && pieces[home - 1] is None && pieces[home - 2] is None && pieces[home - 3] is None
            && !square_attacked(pieces, home - 1, enemy) && !square_attacked(
            pieces,
            home - 2,
            enemy,
        ))
    })
}

/// The movement part of pseudo-legality: a piece of the side to move goes
/// from `src` to `dst` by its movement rules, regardless of the promotion
/// field.
pub open spec fn movement_ok(g: GameV, src: int, dst: int) -> bool {
    &&& 0 <= src < 64
    &&& 0 <= dst < 64
    &&& src != dst
    &&& match g.board.pieces[src] {
        None => false,
        Some(p) => p.player == g.player && match p.kind {
            PieceKind::Pawn => pawn_movement(g, src, dst),
            PieceKind::Knight => knight_jump(src, dst) && dest_ok(g, dst),
            PieceKind::Bishop => bishop_attack(g.board.pieces, src, dst) && dest_ok(g, dst),
            PieceKind::Rook => rook_attack(g.board.pieces, src, dst) && dest_ok(g, dst),
            PieceKind::Queen => (bishop_attack(g.board.pieces, src, dst) || rook_attack(
                g.board.pieces,
                src,
                dst,
            )) && dest_ok(g, dst),
            PieceKind::King => (king_step(src, dst) && dest_ok(g, dst)) || castle_movement(
                g,
                src,
                dst,
            ),
        },
    }
}

/// A pawn reaching the last rank promotes, and only then is a promotion
/// piece given.
pub open spec fn promo_ok(
    g: GameV,
    src: int,
    dst: int,
    promo: Option<PromotionPieceKind>,
) -> bool {
    let is_pawn = g.board.pieces[src] matches Some(p) && p.kind is Pawn;
    let last = if g.player is White {
        7int
    } else {
        0int
    };
    if is_pawn && dst / 8 == last {
        promo is Some
    } else {
        promo is None
    }
}

/// A pseudo-legal move: every rule of chess except that it may leave the
/// mover's own king in check.
pub open spec fn is_pseudo_legal(g: GameV, m: Move) -> bool {
    movement_ok(g, m.src.index as int, m.dst.index as int) && promo_ok(
        g,
        m.src.index as int,
        m.dst.index as int,
        m.promotion,
    )
}

/// The square of `player`'s king.
pub open spec fn king_square(b: BoardV, player: Player) -> int {
    choose|i: int| 0 <= i < 64 && #[trigger] b.pieces[i] == Some(pc(player, PieceKind::King))
}

/// Is `player`'s king attacked by an opponent piece?
pub open spec fn in_check(b: BoardV, player: Player) -> bool {
    square_attacked(b.pieces, king_square(b, player), player.other())
}

/// A legal move: pseudo-legal, and making it leaves the mover's king out
/// of check.
pub open spec fn is_legal(g: GameV, m: Move) -> bool {
    is_pseudo_legal(g, m) && !in_check(spec_make(g, m).board, g.player)
}

/// No move of the side to play is legal: mate or stalemate.
pub open spec fn no_legal_moves(g: GameV) -> bool {
    forall|m: Move| !is_legal(g, m)
}

/// A position fit to search from: well formed, and the player who just
/// moved is not left in check.
pub open spec fn valid_pos(g: GameV) -> bool {
    gv_wf(g) && !in_check(g.board, g.player.other())
}

/// On a well-formed board, `player`'s king stands on exactly one square,
/// which `king_square` names.
pub proof fn lemma_king_square(b: BoardV, player: Player)
    requires
        bv_wf(b),
        kings_ok(b),
    ensures
        0 <= king_square(b, player) < 64,
        b.pieces[king_square(b, player)] == Some(pc(player, PieceKind::King)),
        forall|j: int|
            0 <= j < 64 && #[trigger] b.pieces[j] == Some(pc(player, PieceKind::King)) ==> j
                == king_square(b, player),
{
    let c = if player is White {
        5int
    } else {
        11int
    };
    assert(crate::board::piece_of_code(c) == pc(player, PieceKind::King));
    let bb = Bitboard::from_bits(b.bbs[c]);
    let k = choose|i: int| #[trigger] bb.has(i) && (forall|j: int| bb.has(j) ==> j == i);
    assert(crate::board::bbs_has(b, c, k) == crate::bitboard::bit(b.bbs[c], k as u64));
    assert(b.pieces[k] == Some(pc(player, PieceKind::King)));
    assert forall|j: int|
        0 <= j < 64 && #[trigger] b.pieces[j] == Some(pc(player, PieceKind::King)) implies j
        == k by {
        assert(crate::board::bbs_has(b, c, j) == crate::bitboard::bit(b.bbs[c], j as u64));
        assert(bb.has(j));
    }
}

impl Board {
    /// Is `player`'s king in check? True exactly when some opponent piece
    /// attacks the king's square.
    pub fn king_in_check(&self, player: Player) -> (r: bool)
        requires
            bv_wf(self@),
            kings_ok(self@),
        ensures
            r == in_check(self@, player),
    {
        proof {
            lemma_king_square(self@, player);
        }
        let king = self.player_pieces(player).king.single();
        proof {
            let c = if player is White {
                5int
            } else {
                11int
            };
            assert(crate::board::bbs_has(self@, c, king.index as int) == crate::bitboard::bit(
                self@.bbs[c],
                king.index as u64,
            ));
            assert(self@.pieces[king.index as int] == Some(pc(player, PieceKind::King)));
            assert(king.index as int == king_square(self@, player));
        }
        let enemy_attackers = crate::attacks::generate_attackers_of(self, player, king);
        let r = enemy_attackers.any();
        proof {
            let ks = king_square(self@, player);
            if r {
                let j = choose|j: int| enemy_attackers.has(j);
                assert(crate::attacks::attacks_square(self@.pieces, j, ks, player.other()));
            } else {
                assert forall|from: int| 0 <= from < 64 implies !crate::attacks::attacks_square(
                    self@.pieces,
                    from,
                    ks,
                    player.other(),
                ) by {
                    assert(!enemy_attackers.has(from));
                }
            }
        }
        r
    }
}

fn player_is(a: Player, b: Player) -> (r: bool)
    ensures
        r == (a == b),
{
    matches!((a, b), (Player::White, Player::White) | (Player::Black, Player::Black))
}

/// Can the side to move castle with this king move?
fn castle_test(game: &Game, src: Square, dst: Square) -> (r: bool)
    requires
        game.inv(),
        src.wf(),
        dst.wf(),
    ensures
        r == castle_movement(game@, src.index as int, dst.index as int),
{
    let white = matches!(game.player, Player::White);
    let home: u8 = if white {
        4
    } else {
        60
    };
    if src.index != home {
        return false;
    }
    let enemy = game.player.other();
    if dst.index == home + 2 {
        let right = if white {
            game.white_castle_rights.king_side
        } else {
            game.black_castle_rights.king_side
        };
        if !right {
            return false;
        }
        if game.board.piece_at(Square { index: home + 1 }).is_some() || game.board.piece_at(
            Square { index: home + 2 },
        ).is_some() {
            return false;
        }
        !square_attacked_test(&game.board, Square { index: home }, enemy)
            && !square_attacked_test(&game.board, Square { index: home + 1 }, enemy)
            && !square_attacked_test(&game.board, Square { index: home + 2 }, enemy)
    } else if dst.index + 2 == home {
        let right = if white {
            game.white_castle_rights.queen_side
        } else {
            game.black_castle_rights.queen_side
        };
        if !right {
            return false;
        }
        if game.board.piece_at(Square { index: home - 1 }).is_some() || game.board.piece_at(
            Square { index: home - 2 },
        ).is_some() || game.board.piece_at(Square { index: home - 3 }).is_some() {
            return false;
        }
        !square_attacked_test(&game.board, Square { index: home }, enemy)
            && !square_attacked_test(&game.board, Square { index: home - 1 }, enemy)
            && !square_attacked_test(&game.board, Square { index: home - 2 }, enemy)
    } else {
        false
    }
}

/// May the side to move move a pawn from `src` to `dst`?
fn pawn_test(game: &Game, src: Square, dst: Square) -> (r: bool)
    requires
        game.inv(),
        src.wf(),
        dst.wf(),
    ensures
        r == pawn_movement(game@, src.index as int, dst.index as int),
{
    let white = matches!(game.player, Player::White);
    let s = src.index as i16;
    let d = dst.index as i16;
    let push1 = if white {
        s + 8
    } else {
        s - 8
    };
    let push2 = if white {
        s + 16
    } else {
        s - 16
    };
    let start_rank: i16 = if white {
        1
    } else {
        6
    };
    if d == push1 {
        return game.board.piece_at(dst).is_none();
    }
    if d == push2 && s / 8 == start_rank {
        let mid = Square { index: push1 as u8 };
        return game.board.piece_at(mid).is_none() && game.board.piece_at(dst).is_none();
    }
    if crate::attacks::pawn_attack_test(game.player, src.index, dst.index) {
        return match game.board.piece_at(dst) {
            Some(q) => !player_is(q.player, game.player),
            None => match game.en_passant_target {
                Some(t) => t.index == dst.index,
                None => false,
            },
        };
    }
    false
}

/// May the piece on `src` move to `dst`, by its movement rules alone?
pub fn movement_test(game: &Game, src: Square, dst: Square) -> (r: bool)
    requires
        game.inv(),
        src.wf(),
        dst.wf(),
    ensures
        r == movement_ok(game@, src.index as int, dst.index as int),
{
    if src.index == dst.index {
        return false;
    }
    let p = match game.board.piece_at(src) {
        Some(p) => p,
        None => {
            return false;
        },
    };
    if !player_is(p.player, game.player) {
        return false;
    }
    let free = match game.board.piece_at(dst) {
        None => true,
        Some(q) => !player_is(q.player, game.player),
    };
    match p.kind {
        PieceKind::Pawn => pawn_test(game, src, dst),
        PieceKind::Knight | PieceKind::Bishop | PieceKind::Rook | PieceKind::Queen => free
            && piece_attacks_test(&game.board, p, src, dst),
        PieceKind::King => (free && piece_attacks_test(&game.board, p, src, dst)) || castle_test(
            game,
            src,
            dst,
        ),
    }
}

/// Append `m`, relating membership before and after.
/// A strictly increasing enumeration index over moves: source-major,
/// destination next, promotion last.
pub open spec fn gen_idx(m: Move) -> int {
    (m.src.index * 64 + m.dst.index) * 5 + crate::tt::promo_code(m.promotion)
}

pub open spec fn code_promo(k: int) -> Option<PromotionPieceKind> {
    if k == 1 {
        Some(PromotionPieceKind::Knight)
    } else if k == 2 {
        Some(PromotionPieceKind::Bishop)
    } else if k == 3 {
        Some(PromotionPieceKind::Rook)
    } else if k == 4 {
        Some(PromotionPieceKind::Queen)
    } else {
        None
    }
}

/// The move standing at enumeration index `i`.
pub open spec fn idx_move(i: int) -> Move {
    Move {
        src: Square { index: (i / 320) as u8 },
        dst: Square { index: ((i / 5) % 64) as u8 },
        promotion: code_promo(i % 5),
    }
}

/// The enumeration runs over fewer than this many indexes.
pub const MOVE_INDEX_BOUND: u16 = 20480;

pub proof fn lemma_gen_idx_roundtrip(m: Move)
    requires
        m.wf(),
    ensures
        0 <= gen_idx(m) < MOVE_INDEX_BOUND,
        idx_move(gen_idx(m)) == m,
{
    let sidx = m.src.index as int;
    let didx = m.dst.index as int;
    let pr = crate::tt::promo_code(m.promotion);
    let x = (sidx * 64 + didx) * 5 + pr;
    assert(x / 320 == sidx && (x / 5) % 64 == didx && x % 5 == pr && 0 <= x < 20480)
        by (nonlinear_arith)
        requires
            0 <= sidx < 64,
            0 <= didx < 64,
            0 <= pr <= 4,
            x == (sidx * 64 + didx) * 5 + pr,
    ;
}

pub proof fn lemma_idx_move_wf(i: int)
    requires
        0 <= i < MOVE_INDEX_BOUND,
    ensures
        idx_move(i).wf(),
        gen_idx(idx_move(i)) == i,
{
    assert((i / 320 * 64 + (i / 5) % 64) * 5 + i % 5 == i && 0 <= i / 320 < 64 && 0 <= (i / 5)
        % 64 < 64 && 0 <= i % 5 < 5) by (nonlinear_arith)
        requires
            0 <= i < 20480,
    ;
}

fn push_move(moves: &mut Vec<Move>, m: Move)
    ensures
        final(moves)@ == old(moves)@.push(m),
        forall|x: Move| #[trigger]
            final(moves)@.contains(x) <==> (old(moves)@.contains(x) || x == m),
{
    moves.push(m);
    proof {
        assert forall|x: Move| #[trigger]
            moves@.contains(x) <==> (old(moves)@.contains(x) || x == m) by {
            if old(moves)@.contains(x) {
                let i = choose|i: int| 0 <= i < old(moves)@.len() && old(moves)@[i] == x;
                assert(moves@[i] == x);
            }
            if moves@.contains(x) {
                let i = choose|i: int| 0 <= i < moves@.len() && moves@[i] == x;
                if i < old(moves)@.len() {
                    assert(old(moves)@[i] == x);
                }
            }
            assert(moves@[old(moves)@.len() as int] == m);
        }
    }
}

/// Every pseudo-legal move of the side to play: every move that follows
/// the movement rules, whether or not it leaves the own king in check.
pub fn generate_moves(game: &Game) -> (moves: Vec<Move>)
    requires
        game.inv(),
    ensures
        forall|m: Move| #[trigger] moves@.contains(m) <==> is_pseudo_legal(game@, m),
        forall|a: int, b: int|
            0 <= a < b < moves@.len() ==> gen_idx(#[trigger] moves@[a]) < gen_idx(
                #[trigger] moves@[b],
            ),
{
    let ghost g = game@;
    let mut moves: Vec<Move> = Vec::new();
    let last_rank: u8 = if matches!(game.player, Player::White) {
        7
    } else {
        0
    };
    let mut s: u8 = 0;
    while s < 64
        invariant
            game.inv(),
            s <= 64,
            g == game@,
            last_rank == (if game.player is White {
                7u8
            } else {
                0u8
            }),
            forall|m: Move| #[trigger]
                moves@.contains(m) <==> (is_pseudo_legal(g, m) && m.src.index < s),
            forall|a: int, b: int|
                0 <= a < b < moves@.len() ==> gen_idx(#[trigger] moves@[a]) < gen_idx(
                    #[trigger] moves@[b],
                ),
        decreases 64 - s,
    {
        let src = Square { index: s };
        let mut d: u8 = 0;
        while d < 64
            invariant
                game.inv(),
                s < 64,
                d <= 64,
                g == game@,
                src == (Square { index: s }),
                last_rank == (if game.player is White {
                    7u8
                } else {
                    0u8
                }),
                forall|m: Move| #[trigger]
                    moves@.contains(m) <==> (is_pseudo_legal(g, m) && (m.src.index < s || (
                    m.src.index == s && m.dst.index < d))),
                forall|a: int, b: int|
                    0 <= a < b < moves@.len() ==> gen_idx(#[trigger] moves@[a]) < gen_idx(
                        #[trigger] moves@[b],
                    ),
            decreases 64 - d,
        {
            let dst = Square { index: d };
            let ghost pre = moves@;
            proof {
                // everything pushed so far enumerates strictly below this
                // (source, destination) pair
                assert forall|k: int| 0 <= k < pre.len() implies gen_idx(#[trigger] pre[k]) < (
                s as int * 64 + d as int) * 5 by {
                    assert(pre.contains(pre[k]));
                }
            }
            if movement_test(game, src, dst) {
                let promotes = match game.board.piece_at(src) {
                    Some(p) => matches!(p.kind, PieceKind::Pawn) && d / 8 == last_rank,
                    None => false,
                };
                if promotes {
                    push_move(&mut moves, Move::new_with_promotion(src, dst, PromotionPieceKind::Knight));
                    push_move(&mut moves, Move::new_with_promotion(src, dst, PromotionPieceKind::Bishop));
                    push_move(&mut moves, Move::new_with_promotion(src, dst, PromotionPieceKind::Rook));
                    push_move(&mut moves, Move::new_with_promotion(src, dst, PromotionPieceKind::Queen));
                    proof {
                        assert forall|m: Move|
                            is_pseudo_legal(g, m) && m.src.index == s && m.dst.index == d implies
                            #[trigger] moves@.contains(m) by {
                            match m.promotion {
                                None => {
                                    assert(false);
                                },
                                Some(pk) => {
                                    assert(m == Move::new_with_promotion(src, dst, pk));
                                },
                            }
                        }
                        assert forall|a: int, b: int|
                            0 <= a < b < moves@.len() implies gen_idx(#[trigger] moves@[a])
                            < gen_idx(#[trigger] moves@[b]) by {
                            if a < pre.len() && b >= pre.len() {
                                assert(moves@[a] == pre[a]);
                            }
                        }
                    }
                } else {
                    push_move(&mut moves, Move::new(src, dst));
                    proof {
                        assert forall|m: Move|
                            is_pseudo_legal(g, m) && m.src.index == s && m.dst.index == d implies
                            #[trigger] moves@.contains(m) by {
                            assert(m.promotion is None);
                            assert(m == Move::new(src, dst));
                        }
                        assert forall|a: int, b: int|
                            0 <= a < b < moves@.len() implies gen_idx(#[trigger] moves@[a])
                            < gen_idx(#[trigger] moves@[b]) by {
                            if a < pre.len() && b >= pre.len() {
                                assert(moves@[a] == pre[a]);
                            }
                        }
                    }
                }
            }
            d = d + 1;
        }
        s = s + 1;
    }
    moves
}

/// Every pseudo-legal move in a valid position can be made and unmade: it
/// moves a piece of the side to play and never captures a king.
pub proof fn lemma_pseudo_movable(g: GameV, m: Move)
    requires
        gv_wf(g),
        is_pseudo_legal(g, m),
        !in_check(g.board, g.player.other()),
    ensures
        movable(g, m),
{
    let src = m.src.index as int;
    let dst = m.dst.index as int;
    let p = g.board.pieces[src]->0;
    let enemy = g.player.other();
    // no pseudo-legal move captures a king: the mover would be attacking
    // the opponent king, i.e. the opponent would already be in check
    if g.board.pieces[dst] matches Some(q) && q.kind is King {
        let q = g.board.pieces[dst]->0;
        assert(q.player != g.player);
        assert(q == pc(enemy, PieceKind::King));
        assert(crate::attacks::piece_attacks(g.board.pieces, p, src, dst)) by {
            if p.kind is Pawn {
                assert(pawn_movement(g, src, dst));
                if g.ep is Some {
                    assert(g.board.pieces[g.ep->0.index as int] is None);
                }
            }
        }
        assert(crate::attacks::attacks_square(g.board.pieces, src, dst, g.player));
        lemma_king_square(g.board, enemy);
        assert(dst == king_square(g.board, enemy));
        assert(square_attacked(g.board.pieces, dst, g.player));
        assert(in_check(g.board, enemy));
        assert(false);
    }
    // a pawn standing still on the en-passant file came by a capture:
    // pushes onto the target square are blocked by the pushed pawn
    if p.kind is Pawn && g.ep == Some(m.dst) {
        let t = m.dst.index as int;
        if g.player is White {
            assert(g.board.pieces[t - 8] == Some(pc(Player::Black, PieceKind::Pawn)));
            assert(!(dst == src + 8 && src == t - 8));
            assert(pawn_attack(g.player, src, dst) || dst == src + 16);
            if dst == src + 16 {
                assert(src / 8 == 1 && dst / 8 == 5);
                assert(false);
            }
        } else {
            assert(g.board.pieces[t + 8] == Some(pc(Player::White, PieceKind::Pawn)));
            assert(pawn_attack(g.player, src, dst) || dst == src - 16);
            if dst == src - 16 {
                assert(src / 8 == 6 && dst / 8 == 2);
                assert(false);
            }
        }
    }
    // a king move two files aside is a castle and carries its conditions
    if p.kind is King && (dst == src + 2 || dst == src - 2) {
        assert(!king_step(src, dst));
        assert(castle_movement(g, src, dst));
    }
}

/// A legal move from a valid position gives a valid position.
pub proof fn lemma_legal_valid(g: GameV, m: Move)
    requires
        valid_pos(g),
        is_legal(g, m),
    ensures
        valid_pos(spec_make(g, m)),
        movable(g, m),
{
    lemma_pseudo_movable(g, m);
    crate::game::lemma_make_wf(g, m);
}

/// Legal moves are exactly the pseudo-legal moves that leave the mover's
/// king out of check; in particular they are a subset of the pseudo-legal
/// moves.
pub proof fn lemma_legal_iff_king_safe(g: GameV, m: Move)
    ensures
        is_legal(g, m) ==> is_pseudo_legal(g, m),
        is_legal(g, m) <==> (is_pseudo_legal(g, m) && !in_check(spec_make(g, m).board, g.player)),
{
}

/// Being in check is exactly: some opponent piece attacks the king's
/// square.
pub proof fn lemma_check_enumeration(b: BoardV, player: Player)
    ensures
        in_check(b, player) <==> exists|from: int|
            0 <= from < 64 && #[trigger] crate::attacks::attacks_square(
                b.pieces,
                from,
                king_square(b, player),
                player.other(),
            ),
{
}

impl Game {
    /// Every pseudo-legal move of the side to play.
    pub fn pseudo_legal_moves(&self) -> (moves: Vec<Move>)
        requires
            self.inv(),
        ensures
            forall|m: Move| #[trigger] moves@.contains(m) <==> is_pseudo_legal(self@, m),
            forall|a: int, b: int|
                0 <= a < b < moves@.len() ==> gen_idx(#[trigger] moves@[a]) < gen_idx(
                    #[trigger] moves@[b],
                ),
    {
        generate_moves(self)
    }

    /// Every legal move: the pseudo-legal moves that leave the own king
    /// out of check, found by make / check / unmake. The game is returned
    /// to its original state.
    pub fn legal_moves(&mut self) -> (out: Vec<Move>)
        requires
            valid_pos(old(self)@),
        ensures
            final(self)@ == old(self)@,
            forall|m: Move| #[trigger] out@.contains(m) <==> is_legal(old(self)@, m),
            forall|a: int, b: int|
                0 <= a < b < out@.len() ==> gen_idx(#[trigger] out@[a]) < gen_idx(
                    #[trigger] out@[b],
                ),
    {
        let ghost g0 = self@;
        let pseudo = generate_moves(self);
        let mut out: Vec<Move> = Vec::new();
        let n = pseudo.len();
        let mut i: usize = 0;
        while i < n
            invariant
                self@ == g0,
                valid_pos(g0),
                i <= n,
                n == pseudo@.len(),
                forall|m: Move| #[trigger] pseudo@.contains(m) <==> is_pseudo_legal(g0, m),
                forall|m: Move| #[trigger]
                    out@.contains(m) <==> (is_legal(g0, m) && pseudo@.subrange(0, i as int)
                        .contains(m)),
                forall|a: int, b: int|
                    0 <= a < b < pseudo@.len() ==> gen_idx(#[trigger] pseudo@[a]) < gen_idx(
                        #[trigger] pseudo@[b],
                    ),
                forall|a: int, b: int|
                    0 <= a < b < out@.len() ==> gen_idx(#[trigger] out@[a]) < gen_idx(
                        #[trigger] out@[b],
                    ),
                forall|k: int|
                    0 <= k < out@.len() ==> exists|j: int|
                        0 <= j < i && pseudo@[j] == #[trigger] out@[k],
            decreases n - i,
        {
            let m = pseudo[i];
            proof {
                assert(pseudo@[i as int] == m);
                assert(pseudo@.contains(m));
                lemma_pseudo_movable(g0, m);
            }
            let mover = self.player;
            self.make_move(m);
            let chk = self.board.king_in_check(mover);
            proof {
                assert(gv_wf(g0) && movable(g0, m) && self@ == spec_make(g0, m));
                assert(crate::game::undoable(self@));
            }
            self.undo_move();
            proof {
                crate::game::lemma_make_undo(g0, m);
                assert(self@ == g0);
            }
            let ghost out_pre = out@;
            if !chk {
                push_move(&mut out, m);
                proof {
                    assert forall|a: int, b: int|
                        0 <= a < b < out@.len() implies gen_idx(#[trigger] out@[a]) < gen_idx(
                        #[trigger] out@[b],
                    ) by {
                        if b == out@.len() - 1 && a < out_pre.len() {
                            assert(out@[a] == out_pre[a]);
                            let j = choose|j: int|
                                0 <= j < i && pseudo@[j] == #[trigger] out_pre[a];
                            assert(gen_idx(pseudo@[j]) < gen_idx(pseudo@[i as int]));
                        }
                    }
                    assert forall|k: int| 0 <= k < out@.len() implies exists|j: int|
                        0 <= j < i + 1 && pseudo@[j] == #[trigger] out@[k] by {
                        if k < out_pre.len() {
                            assert(out@[k] == out_pre[k]);
                            let j = choose|j: int| 0 <= j < i && pseudo@[j] == out_pre[k];
                            assert(pseudo@[j] == out@[k]);
                        } else {
                            assert(pseudo@[i as int] == out@[k]);
                        }
                    }
                }
            }
            proof {
                assert(pseudo@.subrange(0, i + 1 as int) =~= pseudo@.subrange(0, i as int).push(
                    m,
                ));
                assert forall|x: Move| #[trigger]
                    pseudo@.subrange(0, i + 1 as int).contains(x) <==> (pseudo@.subrange(
                        0,
                        i as int,
                    ).contains(x) || x == m) by {
                    let pre = pseudo@.subrange(0, i as int);
                    if pre.contains(x) {
                        let j = choose|j: int| 0 <= j < pre.len() && pre[j] == x;
                        assert(pre.push(m)[j] == x);
                    }
                    if pre.push(m).contains(x) {
                        let j = choose|j: int| 0 <= j < pre.push(m).len() && pre.push(m)[j] == x;
                        if j < pre.len() {
                            assert(pre[j] == x);
                        }
                    }
                    assert(pre.push(m)[pre.len() as int] == m);
                }
            }
            i = i + 1;
        }
        proof {
            assert(pseudo@.subrange(0, n as int) =~= pseudo@);
        }
        out
    }

    /// The number of leaves of the legal move tree at the given depth; the
    /// game is returned to its original state.
    /// The number of leaves of the legal move tree at the given depth,
    /// exactly `spec_perft` as long as that count fits the counter; the
    /// game is returned to its original state.
    #[verifier::rlimit(100)]
    pub fn perft(&mut self, depth: u8) -> (count: u64)
        requires
            valid_pos(old(self)@),
        ensures
            final(self)@ == old(self)@,
            count as int <= spec_perft(old(self)@, depth as nat),
            spec_perft(old(self)@, depth as nat) <= u64::MAX ==> count as int == spec_perft(
                old(self)@,
                depth as nat,
            ),
        decreases depth,
    {
        if depth == 0 {
            return 1;
        }
        let ghost g0 = self@;
        let ghost d = depth as nat;
        let moves = self.legal_moves();
        let mut total: u64 = 0;
        let n = moves.len();
        let mut i: usize = 0;
        while i < n
            invariant
                self@ == g0,
                valid_pos(g0),
                i <= n,
                n == moves@.len(),
                1 <= depth,
                d == depth as nat,
                forall|m: Move| #[trigger] moves@.contains(m) <==> is_legal(g0, m),
                forall|a: int, b: int|
                    0 <= a < b < moves@.len() ==> gen_idx(#[trigger] moves@[a]) < gen_idx(
                        #[trigger] moves@[b],
                    ),
                total as int <= perft_sum(g0, d, prefix_bound(moves@, i as int)),
                perft_sum(g0, d, prefix_bound(moves@, i as int)) <= u64::MAX ==> total as int
                    == perft_sum(g0, d, prefix_bound(moves@, i as int)),
            decreases n - i,
        {
            let m = moves[i];
            proof {
                assert(moves@[i as int] == m);
                assert(moves@.contains(m));
                lemma_legal_valid(g0, m);
                lemma_gen_idx_roundtrip(m);
                // no legal move is enumerated between the previous bound
                // and this move
                assert forall|x: Move| is_legal(g0, x) implies !(prefix_bound(moves@, i as int)
                    <= gen_idx(x) < gen_idx(m)) by {
                    assert(moves@.contains(x));
                    let k = choose|k: int| 0 <= k < moves@.len() && moves@[k] == x;
                    if k < i {
                        assert(gen_idx(moves@[k]) < gen_idx(moves@[i as int]));
                        if i > 0 && k < i - 1 {
                            assert(gen_idx(moves@[k]) < gen_idx(moves@[i as int - 1]));
                        }
                    } else if k > i {
                        assert(gen_idx(moves@[i as int]) < gen_idx(moves@[k]));
                    }
                }
                lemma_perft_sum_skip(
                    g0,
                    d,
                    prefix_bound(moves@, i as int),
                    gen_idx(m),
                );
                lemma_perft_sum_bound(g0, d, gen_idx(m) + 1, MOVE_INDEX_BOUND as int);
            }
            self.make_move(m);
            let sub = self.perft(depth - 1);
            proof {
                assert(crate::game::undoable(self@));
            }
            self.undo_move();
            proof {
                crate::game::lemma_make_undo(g0, m);
                assert(spec_make(g0, m) == crate::game::spec_make(g0, m));
            }
            total = total.checked_add(sub).unwrap_or(u64::MAX);
            i = i + 1;
        }
        proof {
            assert forall|x: Move| is_legal(g0, x) implies !(prefix_bound(moves@, n as int)
                <= gen_idx(x) < MOVE_INDEX_BOUND as int) by {
                assert(moves@.contains(x));
                let k = choose|k: int| 0 <= k < moves@.len() && moves@[k] == x;
                lemma_gen_idx_roundtrip(x);
                if n > 0 && k < n - 1 {
                    assert(gen_idx(moves@[k]) < gen_idx(moves@[n as int - 1]));
                }
            }
            if n > 0 {
                assert(moves@.contains(moves@[n as int - 1]));
                assert(is_legal(g0, moves@[n as int - 1]));
                lemma_gen_idx_roundtrip(moves@[n as int - 1]);
            }
            lemma_perft_sum_skip(g0, d, prefix_bound(moves@, n as int), MOVE_INDEX_BOUND as int);
        }
        total
    }
}

/// The enumeration bound just past the first `i` moves of the list.
pub open spec fn prefix_bound(moves: Seq<Move>, i: int) -> int {
    if i == 0 {
        0
    } else {
        gen_idx(moves[i - 1]) + 1
    }
}

/// The number of leaves of the legal move tree `depth` plies deep.
pub open spec fn spec_perft(g: GameV, depth: nat) -> nat
    decreases depth, 1int, 0int,
{
    if depth == 0 {
        1nat
    } else {
        perft_sum(g, depth, MOVE_INDEX_BOUND as int)
    }
}

/// The perft total over the legal moves with enumeration index below `i`.
pub open spec fn perft_sum(g: GameV, depth: nat, i: int) -> nat
    decreases depth, 0int, i,
{
    if i <= 0 || depth == 0 {
        0nat
    } else {
        perft_sum(g, depth, i - 1) + (if is_legal(g, idx_move(i - 1)) {
            spec_perft(spec_make(g, idx_move(i - 1)), (depth - 1) as nat)
        } else {
            0nat
        })
    }
}

/// Over a range without legal moves the perft total does not grow.
proof fn lemma_perft_sum_skip(g: GameV, depth: nat, a: int, b: int)
    requires
        0 <= a <= b <= MOVE_INDEX_BOUND,
        depth > 0,
        forall|m: Move| is_legal(g, m) ==> !(a <= #[trigger] gen_idx(m) < b),
    ensures
        perft_sum(g, depth, b) == perft_sum(g, depth, a),
    decreases b - a,
{
    if b > a {
        lemma_perft_sum_skip(g, depth, a, b - 1);
        let m = idx_move(b - 1);
        if is_legal(g, m) {
            lemma_idx_move_wf(b - 1);
            assert(gen_idx(m) == b - 1);
            assert(false);
        }
    }
}

/// The perft total only grows with the enumeration bound.
proof fn lemma_perft_sum_bound(g: GameV, depth: nat, a: int, b: int)
    requires
        0 <= a <= b,
        depth > 0,
    ensures
        perft_sum(g, depth, a) <= perft_sum(g, depth, b),
    decreases b - a,
{
    if b > a {
        lemma_perft_sum_bound(g, depth, a, b - 1);
    }
}

} // verus!
