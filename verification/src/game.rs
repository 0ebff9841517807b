//! The full game state: board, side to move, castling rights, en-passant
//! target, clocks, Zobrist key and the history stack that makes every move
//! undoable bit for bit.

use vstd::prelude::*;
use crate::bitboard::Bitboard;
use crate::board::{
    board_remove, board_set, bv_wf, lemma_board_remove_wf, lemma_board_set_wf, Board, BoardV,
};
use crate::castling::CastleRights;
use crate::moves::Move;
use crate::piece::{Piece, PieceKind, Player};
use crate::square::Square;
use crate::zobrist::{
    lemma_hash_update, lemma_xor_cancel, meta_hash, meta_hash_spec, pieces_hash, piece_square_key,
    square_contrib, zobrist_of,
};

verus! {

/// What one make pushes so that undo can restore the previous state.
#[derive(Clone, Copy, Debug, PartialEq, Eq, Structural)]
pub struct HistoryEntry {
    /// The move made, or `None` for a null move.
    pub mv: Option<Move>,
    /// The captured piece, if any.
    pub captured: Option<Piece>,
    /// Where the captured piece stood; differs from the destination for an
    /// en-passant capture.
    pub captured_square: Option<Square>,
    pub prior_white_castle_rights: CastleRights,
    pub prior_black_castle_rights: CastleRights,
    pub prior_en_passant_target: Option<Square>,
    pub prior_halfmove_clock: u8,
    pub prior_fullmove_number: u32,
    pub prior_zobrist: u64,
}

/// A game in progress.
#[derive(Clone, Debug)]
pub struct Game {
    pub board: Board,
    pub player: Player,
    pub white_castle_rights: CastleRights,
    pub black_castle_rights: CastleRights,
    pub en_passant_target: Option<Square>,
    pub halfmove_clock: u8,
    pub fullmove_number: u32,
    pub zobrist: u64,
    pub history: Vec<HistoryEntry>,
}

/// The mathematical model of a game.
#[verifier::ext_equal]
pub struct GameV {
    pub board: BoardV,
    pub player: Player,
    pub wcr: CastleRights,
    pub bcr: CastleRights,
    pub ep: Option<Square>,
    pub halfmove: u8,
    pub fullmove: u32,
    pub zobrist: u64,
    pub history: Seq<HistoryEntry>,
}

impl View for Game {
    type V = GameV;

    open spec fn view(&self) -> GameV {
        GameV {
            board: self.board@,
            player: self.player,
            wcr: self.white_castle_rights,
            bcr: self.black_castle_rights,
            ep: self.en_passant_target,
            halfmove: self.halfmove_clock,
            fullmove: self.fullmove_number,
            zobrist: self.zobrist,
            history: self.history@,
        }
    }
}

/// A piece of `player` of kind `kind`, as a spec value.
pub open spec fn pc(player: Player, kind: PieceKind) -> Piece {
    Piece { player, kind }
}

/// Both sides have exactly one king.
pub open spec fn kings_ok(b: BoardV) -> bool {
    &&& Bitboard::from_bits(b.bbs[5]).is_single()
    &&& Bitboard::from_bits(b.bbs[11]).is_single()
}

/// The en-passant target, when present, describes a double push that was
/// just made: the target square is empty and the pushed pawn stands behind
/// it.
pub open spec fn ep_wf(g: GameV) -> bool {
    match g.ep {
        None => true,
        Some(t) => {
            let ti = t.index as int;
            &&& t.wf()
            &&& g.board.pieces[ti] is None
            &&& if g.player is White {
                ti / 8 == 5 && g.board.pieces[ti - 8] == Some(pc(Player::Black, PieceKind::Pawn))
            } else {
                ti / 8 == 2 && g.board.pieces[ti + 8] == Some(pc(Player::White, PieceKind::Pawn))
            }
        },
    }
}

/// A held castling right keeps king and rook on their home squares.
pub open spec fn rights_wf(g: GameV) -> bool {
    &&& g.wcr.king_side ==> g.board.pieces[4] == Some(pc(Player::White, PieceKind::King))
        && g.board.pieces[7] == Some(pc(Player::White, PieceKind::Rook))
    &&& g.wcr.queen_side ==> g.board.pieces[4] == Some(pc(Player::White, PieceKind::King))
        && g.board.pieces[0] == Some(pc(Player::White, PieceKind::Rook))
    &&& g.bcr.king_side ==> g.board.pieces[60] == Some(pc(Player::Black, PieceKind::King))
        && g.board.pieces[63] == Some(pc(Player::Black, PieceKind::Rook))
    &&& g.bcr.queen_side ==> g.board.pieces[60] == Some(pc(Player::Black, PieceKind::King))
        && g.board.pieces[56] == Some(pc(Player::Black, PieceKind::Rook))
}

/// Well-formedness of a game state. This is the invariant every reachable
/// `Game` satisfies; in particular the stored Zobrist key always equals the
/// XOR reconstruction from the position.
pub open spec fn gv_wf(g: GameV) -> bool {
    &&& bv_wf(g.board)
    &&& kings_ok(g.board)
    &&& g.zobrist == zobrist_of(g.board.pieces, g.player, g.wcr, g.bcr, g.ep)
    &&& ep_wf(g)
    &&& rights_wf(g)
}

/// The square a capture by `m` empties: the destination, except for an
/// en-passant capture, which empties the square behind the target.
pub open spec fn capture_square(g: GameV, m: Move) -> int {
    if is_ep_capture(g, m) {
        (m.src.index as int / 8) * 8 + (m.dst.index as int % 8)
    } else {
        m.dst.index as int
    }
}

pub open spec fn moving_piece(g: GameV, m: Move) -> Piece {
    g.board.pieces[m.src.index as int]->0
}

pub open spec fn is_ep_capture(g: GameV, m: Move) -> bool {
    moving_piece(g, m).kind is Pawn && g.ep == Some(m.dst)
}

pub open spec fn is_castle(g: GameV, m: Move) -> bool {
    moving_piece(g, m).kind is King && (m.dst.index as int == m.src.index as int + 2
        || m.dst.index as int == m.src.index as int - 2)
}

pub open spec fn is_double_push(g: GameV, m: Move) -> bool {
    moving_piece(g, m).kind is Pawn && (m.dst.index as int == m.src.index as int + 16
        || m.dst.index as int == m.src.index as int - 16)
}

/// The rook's journey when `m` castles: (from, to).
pub open spec fn rook_squares(m: Move) -> (int, int) {
    let d = m.dst.index as int;
    if d == 6 {
        (7, 5)
    } else if d == 2 {
        (0, 3)
    } else if d == 62 {
        (63, 61)
    } else {
        (56, 59)
    }
}

/// The conditions under which a move can be made and unmade exactly: a
/// piece of the side to move leaves its square for a square not occupied by
/// a friendly piece or a king, and the special shapes (promotion, double
/// push, castling) are consistent with the position. Every pseudo-legal
/// move satisfies this.
pub open spec fn movable(g: GameV, m: Move) -> bool {
    let src = m.src.index as int;
    let dst = m.dst.index as int;
    &&& m.wf()
    &&& src != dst
    &&& match g.board.pieces[src] {
        None => false,
        Some(p) => {
            &&& p.player == g.player
            &&& match g.board.pieces[dst] {
                None => true,
                Some(q) => q.player != g.player && !(q.kind is King),
            }
            &&& match m.promotion {
                None => true,
                Some(_) => p.kind is Pawn && (if g.player is White {
                    dst / 8 == 7
                } else {
                    dst / 8 == 0
                }),
            }
            &&& (p.kind is Pawn && src % 8 == dst % 8 ==> g.board.pieces[dst] is None)
            &&& (p.kind is Pawn && g.ep == Some(m.dst) ==> {
                &&& (src % 8 - dst % 8 == 1 || dst % 8 - src % 8 == 1)
                &&& if g.player is White {
                    src / 8 == 4 && dst / 8 == 5
                } else {
                    src / 8 == 3 && dst / 8 == 2
                }
            })
            &&& (p.kind is Pawn && (dst == src + 16 || dst == src - 16) ==> {
                &&& if g.player is White {
                    dst == src + 16 && src / 8 == 1
                } else {
                    dst == src - 16 && src / 8 == 6
                }
                &&& g.board.pieces[(src + dst) / 2] is None
                &&& g.board.pieces[dst] is None
            })
            &&& (p.kind is King && (dst == src + 2 || dst == src - 2) ==> {
                &&& src == (if g.player is White {
                    4int
                } else {
                    60int
                })
                &&& g.board.pieces[dst] is None
                &&& if dst == src + 2 {
                    &&& (if g.player is White {
                        g.wcr.king_side
                    } else {
                        g.bcr.king_side
                    })
                    &&& g.board.pieces[src + 1] is None
                } else {
                    &&& (if g.player is White {
                        g.wcr.queen_side
                    } else {
                        g.bcr.queen_side
                    })
                    &&& g.board.pieces[src - 1] is None
                }
            })
        },
    }
}

/// The history entry `make` pushes for move `m` from state `g`.
pub open spec fn make_entry(g: GameV, m: Move) -> HistoryEntry {
    let cap_sq = capture_square(g, m);
    let captured = g.board.pieces[cap_sq];
    HistoryEntry {
        mv: Some(m),
        captured,
        captured_square: if captured is Some {
            Some(Square { index: cap_sq as u8 })
        } else {
            None
        },
        prior_white_castle_rights: g.wcr,
        prior_black_castle_rights: g.bcr,
        prior_en_passant_target: g.ep,
        prior_halfmove_clock: g.halfmove,
        prior_fullmove_number: g.fullmove,
        prior_zobrist: g.zobrist,
    }
}

/// The board after the piece movements of `m`.
pub open spec fn board_after(g: GameV, m: Move) -> BoardV {
    let src = m.src.index as int;
    let dst = m.dst.index as int;
    let p = moving_piece(g, m);
    let b1 = board_remove(g.board, capture_square(g, m));
    let b2 = board_remove(b1, src);
    let placed = match m.promotion {
        None => p,
        Some(k) => pc(g.player, k.piece_kind()),
    };
    let b3 = board_set(b2, dst, placed);
    if is_castle(g, m) {
        let (rs, rd) = rook_squares(m);
        board_set(board_remove(b3, rs), rd, pc(g.player, PieceKind::Rook))
    } else {
        b3
    }
}

/// White's castling rights after `m`, by the squares the move touches.
pub open spec fn wcr_after(g: GameV, m: Move) -> CastleRights {
    let src = m.src.index as int;
    let dst = m.dst.index as int;
    let r0 = if src == 4 {
        CastleRights::none()
    } else {
        g.wcr
    };
    let r1 = if src == 7 || dst == 7 {
        r0.without_king_side()
    } else {
        r0
    };
    if src == 0 || dst == 0 {
        r1.without_queen_side()
    } else {
        r1
    }
}

/// Black's castling rights after `m`.
pub open spec fn bcr_after(g: GameV, m: Move) -> CastleRights {
    let src = m.src.index as int;
    let dst = m.dst.index as int;
    let r0 = if src == 60 {
        CastleRights::none()
    } else {
        g.bcr
    };
    let r1 = if src == 63 || dst == 63 {
        r0.without_king_side()
    } else {
        r0
    };
    if src == 56 || dst == 56 {
        r1.without_queen_side()
    } else {
        r1
    }
}

pub open spec fn ep_after(g: GameV, m: Move) -> Option<Square> {
    if is_double_push(g, m) {
        Some(Square { index: ((m.src.index as int + m.dst.index as int) / 2) as u8 })
    } else {
        None
    }
}

pub open spec fn halfmove_after(g: GameV, m: Move) -> u8 {
    if moving_piece(g, m).kind is Pawn || g.board.pieces[capture_square(g, m)] is Some {
        0u8
    } else if g.halfmove == 255 {
        255u8
    } else {
        (g.halfmove + 1) as u8
    }
}

/// The state after making move `m`, mirroring `make_move` step by step.
pub open spec fn spec_make(g: GameV, m: Move) -> GameV {
    let b = board_after(g, m);
    let wcr = wcr_after(g, m);
    let bcr = bcr_after(g, m);
    let ep = ep_after(g, m);
    let player = g.player.other();
    GameV {
        board: b,
        player,
        wcr,
        bcr,
        ep,
        halfmove: halfmove_after(g, m),
        fullmove: if g.player is Black {
            if g.fullmove == u32::MAX {
                u32::MAX
            } else {
                (g.fullmove + 1) as u32
            }
        } else {
            g.fullmove
        },
        zobrist: zobrist_of(b.pieces, player, wcr, bcr, ep),
        history: g.history.push(make_entry(g, m)),
    }
}

/// The state after a null move: the side to move changes, the en-passant
/// target is cleared, and the halfmove clock advances.
pub open spec fn spec_make_null(g: GameV) -> GameV {
    let player = g.player.other();
    let half = if g.halfmove == 255 {
        255u8
    } else {
        (g.halfmove + 1) as u8
    };
    GameV {
        board: g.board,
        player,
        wcr: g.wcr,
        bcr: g.bcr,
        ep: None,
        halfmove: half,
        fullmove: g.fullmove,
        zobrist: zobrist_of(g.board.pieces, player, g.wcr, g.bcr, None),
        history: g.history.push(
            HistoryEntry {
                mv: None,
                captured: None,
                captured_square: None,
                prior_white_castle_rights: g.wcr,
                prior_black_castle_rights: g.bcr,
                prior_en_passant_target: g.ep,
                prior_halfmove_clock: g.halfmove,
                prior_fullmove_number: g.fullmove,
                prior_zobrist: g.zobrist,
            },
        ),
    }
}

/// The state after undoing the most recent make (regular or null).
pub open spec fn spec_undo(g: GameV) -> GameV {
    let entry = g.history.last();
    let restored = |b: BoardV|
        GameV {
            board: b,
            player: g.player.other(),
            wcr: entry.prior_white_castle_rights,
            bcr: entry.prior_black_castle_rights,
            ep: entry.prior_en_passant_target,
            halfmove: entry.prior_halfmove_clock,
            fullmove: entry.prior_fullmove_number,
            zobrist: entry.prior_zobrist,
            history: g.history.drop_last(),
        };
    match entry.mv {
        None => restored(g.board),
        Some(m) => {
            let src = m.src.index as int;
            let dst = m.dst.index as int;
            let placed = g.board.pieces[dst]->0;
            let orig = match m.promotion {
                None => placed,
                Some(_) => pc(placed.player, PieceKind::Pawn),
            };
            let b1 = board_remove(g.board, dst);
            let b2 = board_set(b1, src, orig);
            let b3 = match entry.captured {
                None => b2,
                Some(cp) => board_set(b2, entry.captured_square->0.index as int, cp),
            };
            let b4 = if placed.kind is King && (dst == src + 2 || dst == src - 2) {
                let (rs, rd) = rook_squares(m);
                board_set(board_remove(b3, rd), rs, pc(placed.player, PieceKind::Rook))
            } else {
                b3
            };
            restored(b4)
        },
    }
}

/// The squares `m` can touch, and what stands on them afterwards.
pub proof fn lemma_board_after_facts(g: GameV, m: Move)
    requires
        gv_wf(g),
        movable(g, m),
    ensures
        ({
            let src = m.src.index as int;
            let dst = m.dst.index as int;
            let cap = capture_square(g, m);
            let ba = board_after(g, m);
            let placed = match m.promotion {
                None => moving_piece(g, m),
                Some(k) => pc(g.player, k.piece_kind()),
            };
            &&& bv_wf(ba)
            &&& ba.pieces.len() == 64
            &&& ba.pieces[dst] == Some(placed)
            &&& ba.pieces[src] is None
            &&& (cap != dst ==> ba.pieces[cap] is None)
            &&& (is_castle(g, m) ==> ba.pieces[rook_squares(m).0] is None && ba.pieces[rook_squares(
                m,
            ).1] == Some(pc(g.player, PieceKind::Rook)))
            &&& forall|j: int|
                0 <= j < 64 && j != src && j != dst && j != cap && (is_castle(g, m) ==> j
                    != rook_squares(m).0 && j != rook_squares(m).1)
                    ==> ba.pieces[j] == g.board.pieces[j]
        }),
{
    let src = m.src.index as int;
    let dst = m.dst.index as int;
    let cap = capture_square(g, m);
    let p = moving_piece(g, m);
    let placed = match m.promotion {
        None => p,
        Some(k) => pc(g.player, k.piece_kind()),
    };
    if is_ep_capture(g, m) {
        // the en-passant target square was empty and the captured pawn
        // stands beside the source rank
        assert(g.board.pieces[dst] is None);
        assert(cap != dst && cap != src);
    }
    let b1 = board_remove(g.board, cap);
    lemma_board_remove_wf(g.board, cap);
    let b2 = board_remove(b1, src);
    lemma_board_remove_wf(b1, src);
    assert(b2.pieces[dst] is None);
    let b3 = board_set(b2, dst, placed);
    lemma_board_set_wf(b2, dst, placed);
    if is_castle(g, m) {
        let rs = rook_squares(m).0;
        let rd = rook_squares(m).1;
        assert(g.board.pieces[rs] == Some(pc(g.player, PieceKind::Rook)));
        assert(b3.pieces[rs] == Some(pc(g.player, PieceKind::Rook)));
        lemma_board_remove_wf(b3, rs);
        let b4 = board_remove(b3, rs);
        assert(b4.pieces[rd] is None);
        lemma_board_set_wf(b4, rd, pc(g.player, PieceKind::Rook));
    }
}

/// Making a movable move from a well-formed state gives a well-formed
/// state.
pub proof fn lemma_make_wf(g: GameV, m: Move)
    requires
        gv_wf(g),
        movable(g, m),
    ensures
        gv_wf(spec_make(g, m)),
{
    let src = m.src.index as int;
    let dst = m.dst.index as int;
    let cap = capture_square(g, m);
    let p = moving_piece(g, m);
    let placed = match m.promotion {
        None => p,
        Some(k) => pc(g.player, k.piece_kind()),
    };
    let ba = board_after(g, m);
    let ng = spec_make(g, m);
    lemma_board_after_facts(g, m);
    // each side still has exactly one king
    assert(kings_ok(ba)) by {
        lemma_single_king(g, m, Player::White, 5);
        lemma_single_king(g, m, Player::Black, 11);
    }
    // the new en-passant target, if any, describes the double push just made
    assert(ep_wf(ng)) by {
        if is_double_push(g, m) {
            let t = (src + dst) / 2;
            assert(ba.pieces[t] is None);
            assert(ba.pieces[dst] == Some(pc(g.player, PieceKind::Pawn)));
        }
    }
    // held castling rights still have king and rook at home
    assert(rights_wf(ng)) by {
        lemma_untouched(g, m, 0);
        lemma_untouched(g, m, 4);
        lemma_untouched(g, m, 7);
        lemma_untouched(g, m, 56);
        lemma_untouched(g, m, 60);
        lemma_untouched(g, m, 63);
    }
}

/// A home square not named by the move keeps its piece.
proof fn lemma_untouched(g: GameV, m: Move, j: int)
    requires
        gv_wf(g),
        movable(g, m),
        0 <= j < 64,
        j / 8 == 0 || j / 8 == 7,
    ensures
        m.src.index as int != j && m.dst.index as int != j && (is_castle(g, m) ==> j
            != rook_squares(m).0 && j != rook_squares(m).1) ==> board_after(g, m).pieces[j]
            == g.board.pieces[j],
{
    lemma_board_after_facts(g, m);
    let cap = capture_square(g, m);
    if is_ep_capture(g, m) {
        // an en-passant capture empties a square on the third or fourth
        // rank, never a home rank
        assert(cap / 8 == m.src.index as int / 8);
        assert(ep_wf(g));
        if g.player is White {
            assert(g.ep->0.index as int / 8 == 5);
            assert(m.dst.index as int / 8 == 5);
        } else {
            assert(g.ep->0.index as int / 8 == 2);
        }
    }
}

/// After the move, `player`'s king plane `c` still holds exactly one king.
proof fn lemma_single_king(g: GameV, m: Move, player: Player, c: int)
    requires
        gv_wf(g),
        movable(g, m),
        c == 5 || c == 11,
        player == (if c == 5 {
            Player::White
        } else {
            Player::Black
        }),
    ensures
        Bitboard::from_bits(board_after(g, m).bbs[c]).is_single(),
{
    let src = m.src.index as int;
    let dst = m.dst.index as int;
    let cap = capture_square(g, m);
    let p = moving_piece(g, m);
    let ba = board_after(g, m);
    let king = pc(player, PieceKind::King);
    lemma_board_after_facts(g, m);
    assert(crate::board::piece_of_code(c) == king);
    let oldbb = Bitboard::from_bits(g.board.bbs[c]);
    let k = choose|i: int| #[trigger] oldbb.has(i) && (forall|j: int| oldbb.has(j) ==> j == i);
    assert(crate::board::bbs_has(g.board, c, k) == crate::bitboard::bit(
        g.board.bbs[c],
        k as u64,
    ));
    assert(g.board.pieces[k] == Some(king));
    let newbb = Bitboard::from_bits(ba.bbs[c]);
    let pos = if p == king {
        dst
    } else {
        k
    };
    if p == king {
        assert(ba.pieces[dst] == Some(king));
    } else {
        lemma_king_stays(g, m, k);
    }
    assert(ba.pieces[pos] == Some(king));
    assert(crate::board::bbs_has(ba, c, pos) == crate::bitboard::bit(ba.bbs[c], pos as u64));
    assert(newbb.has(pos));
    assert forall|i: int| newbb.has(i) implies i == pos by {
        assert(crate::board::bbs_has(ba, c, i) == crate::bitboard::bit(ba.bbs[c], i as u64));
        assert(ba.pieces[i] == Some(king));
        lemma_king_position_unique(g, m, i);
        if i != dst {
            assert(g.board.pieces[i] == Some(king));
            assert(crate::board::bbs_has(g.board, c, i) == crate::bitboard::bit(
                g.board.bbs[c],
                i as u64,
            ));
            assert(oldbb.has(i));
            assert(i == k);
            if p == king {
                assert(crate::board::bbs_has(g.board, c, src) == crate::bitboard::bit(
                    g.board.bbs[c],
                    src as u64,
                ));
                assert(oldbb.has(src));
                assert(k == src);
                assert(ba.pieces[src] is None);
                assert(false);
            }
        } else {
            if p != king {
                assert(ba.pieces[dst] == Some(
                    match m.promotion {
                        None => p,
                        Some(pk) => pc(g.player, pk.piece_kind()),
                    },
                ));
                assert(false);
            }
        }
    }
}

/// Any square holding a king after the move is the move's destination or
/// already held that king before.
proof fn lemma_king_position_unique(g: GameV, m: Move, i: int)
    requires
        gv_wf(g),
        movable(g, m),
        0 <= i < 64,
        board_after(g, m).pieces[i] matches Some(q) && q.kind is King,
    ensures
        i == m.dst.index as int || g.board.pieces[i] == board_after(g, m).pieces[i],
{
    lemma_board_after_facts(g, m);
    let src = m.src.index as int;
    let dst = m.dst.index as int;
    let cap = capture_square(g, m);
    let q = board_after(g, m).pieces[i]->0;
    if is_castle(g, m) {
        let rs = rook_squares(m).0;
        let rd = rook_squares(m).1;
        if i == rd {
            assert(board_after(g, m).pieces[i] == Some(pc(g.player, PieceKind::Rook)));
            assert(false);
        }
    }
}

/// The position occurred earlier in the game, by Zobrist key (which
/// covers pieces, rights, side to move and en passant).
pub open spec fn repeated_position(g: GameV) -> bool {
    exists|i: int| 0 <= i < g.history.len() && #[trigger] g.history[i].prior_zobrist == g.zobrist
}

/// A state that was produced by making some move from some well-formed
/// state; such a state can be undone.
pub open spec fn undoable(g: GameV) -> bool {
    exists|g0: GameV, m: Move| gv_wf(g0) && movable(g0, m) && g == #[trigger] spec_make(g0, m)
}

/// A state produced by a null move from a well-formed state.
pub open spec fn null_undoable(g: GameV) -> bool {
    exists|g0: GameV| gv_wf(g0) && g == #[trigger] spec_make_null(g0)
}

/// Undo exactly reverses make: for any well-formed state and movable move,
/// making the move and undoing it restores every field bit for bit.
pub proof fn lemma_make_undo(g: GameV, m: Move)
    requires
        gv_wf(g),
        movable(g, m),
    ensures
        spec_undo(spec_make(g, m)) == g,
{
    let src = m.src.index as int;
    let dst = m.dst.index as int;
    let cap = capture_square(g, m);
    let p = moving_piece(g, m);
    let placed = match m.promotion {
        None => p,
        Some(k) => pc(g.player, k.piece_kind()),
    };
    let mk = spec_make(g, m);
    let entry = make_entry(g, m);
    lemma_board_after_facts(g, m);
    assert(mk.history.last() == entry);
    assert(mk.history.drop_last() =~= g.history);
    let ba = board_after(g, m);
    assert(ba.pieces[dst] == Some(placed));
    let u1 = board_remove(ba, dst);
    let orig = match m.promotion {
        None => placed,
        Some(_) => pc(placed.player, PieceKind::Pawn),
    };
    assert(orig == p);
    let u2 = board_set(u1, src, orig);
    let u3 = match entry.captured {
        None => u2,
        Some(cp) => board_set(u2, entry.captured_square->0.index as int, cp),
    };
    let u4 = if placed.kind is King && (dst == src + 2 || dst == src - 2) {
        let (rs, rd) = rook_squares(m);
        board_set(board_remove(u3, rd), rs, pc(placed.player, PieceKind::Rook))
    } else {
        u3
    };
    lemma_undo_board(g, m);
    assert(u4 == g.board);
    assert(spec_undo(mk) =~= g);
}

/// The board operations of undo reverse those of make.
proof fn lemma_undo_board(g: GameV, m: Move)
    requires
        gv_wf(g),
        movable(g, m),
    ensures
        ({
            let src = m.src.index as int;
            let dst = m.dst.index as int;
            let p = moving_piece(g, m);
            let placed = match m.promotion {
                None => p,
                Some(k) => pc(g.player, k.piece_kind()),
            };
            let entry = make_entry(g, m);
            let ba = board_after(g, m);
            let u1 = board_remove(ba, dst);
            let u2 = board_set(u1, src, p);
            let u3 = match entry.captured {
                None => u2,
                Some(cp) => board_set(u2, entry.captured_square->0.index as int, cp),
            };
            let u4 = if placed.kind is King && (dst == src + 2 || dst == src - 2) {
                let (rs, rd) = rook_squares(m);
                board_set(board_remove(u3, rd), rs, pc(g.player, PieceKind::Rook))
            } else {
                u3
            };
            u4 == g.board
        }),
{
    let src = m.src.index as int;
    let dst = m.dst.index as int;
    let cap = capture_square(g, m);
    let p = moving_piece(g, m);
    let pm = p.code() as int;
    let placed = match m.promotion {
        None => p,
        Some(k) => pc(g.player, k.piece_kind()),
    };
    let qm = placed.code() as int;
    let entry = make_entry(g, m);
    let ba = board_after(g, m);
    lemma_board_after_facts(g, m);
    crate::board::lemma_code_of_piece(p);
    crate::board::lemma_code_of_piece(placed);
    let u1 = board_remove(ba, dst);
    let u2 = board_set(u1, src, p);
    let u3 = match entry.captured {
        None => u2,
        Some(cp) => board_set(u2, entry.captured_square->0.index as int, cp),
    };
    let u4 = if placed.kind is King && (dst == src + 2 || dst == src - 2) {
        let (rs, rd) = rook_squares(m);
        board_set(board_remove(u3, rd), rs, pc(g.player, PieceKind::Rook))
    } else {
        u3
    };
    // the mirror is restored square by square
    assert(u4.pieces =~= g.board.pieces);
    // each piece plane is restored: unaffected planes are untouched, and
    // the affected ones return by the bit round-trip lemmas
    let s64 = src as u64;
    let d64 = dst as u64;
    let c64 = cap as u64;
    match entry.captured {
        None => {},
        Some(cp) => {
            let cm = cp.code() as int;
            crate::board::lemma_code_of_piece(cp);
            assert(crate::board::bbs_has(g.board, cm, cap));
            assert(cm != pm && cm != qm);
            crate::bitboard::lemma_bb_clear_roundtrip(g.board.bbs[cm], c64);
        },
    }
    if m.promotion is Some {
        assert(crate::board::bbs_has(g.board, pm, src));
        assert(!crate::board::bbs_has(g.board, qm, dst));
        crate::bitboard::lemma_bb_clear_roundtrip(g.board.bbs[pm], s64);
        crate::bitboard::lemma_bb_set_roundtrip(g.board.bbs[qm], d64);
    } else {
        assert(crate::board::bbs_has(g.board, pm, src));
        assert(!crate::board::bbs_has(g.board, pm, dst));
        crate::bitboard::lemma_bb_move_roundtrip(g.board.bbs[pm], s64, d64);
    }
    if placed.kind is King && (dst == src + 2 || dst == src - 2) {
        let (rs, rd) = rook_squares(m);
        let rook = pc(g.player, PieceKind::Rook);
        let rm = rook.code() as int;
        crate::board::lemma_code_of_piece(rook);
        assert(crate::board::bbs_has(g.board, rm, rs));
        assert(!crate::board::bbs_has(g.board, rm, rd));
        crate::bitboard::lemma_bb_move_roundtrip(g.board.bbs[rm], rs as u64, rd as u64);
    }
    assert(u4.bbs =~= g.board.bbs);
}

/// Removing the piece on square `i` XORs its key out of the piece hash.
proof fn lemma_z_remove(s: Seq<Option<Piece>>, i: int, z: u64)
    requires
        0 <= i < 64,
        s.len() == 64,
        z == pieces_hash(s, 64),
        s[i] is Some,
    ensures
        z ^ square_contrib(s[i], i) == pieces_hash(s.update(i, None), 64),
{
    lemma_hash_update(s, i, None, 64);
    lemma_xor_cancel(z ^ square_contrib(s[i], i), 0u64);
}

/// Placing `q` on the empty square `i` XORs its key into the piece hash.
proof fn lemma_z_set(s: Seq<Option<Piece>>, i: int, q: Piece, z: u64)
    requires
        0 <= i < 64,
        s.len() == 64,
        z == pieces_hash(s, 64),
        s[i] is None,
    ensures
        z ^ square_contrib(Some(q), i) == pieces_hash(s.update(i, Some(q)), 64),
{
    lemma_hash_update(s, i, Some(q), 64);
    lemma_xor_cancel(z, 0u64);
}

impl Game {
    /// Well-formedness of this game; see `gv_wf`.
    pub open spec fn inv(&self) -> bool {
        gv_wf(self@)
    }

    /// Make move `m`: push an undo record, move the pieces, update rights,
    /// en-passant target, clocks and the Zobrist key, and give the other
    /// player the move.
    #[verifier::rlimit(100)]
    pub fn make_move(&mut self, m: Move)
        requires
            old(self).inv(),
            movable(old(self)@, m),
        ensures
            final(self)@ == spec_make(old(self)@, m),
            final(self).inv(),
    {
        proof {
            lemma_make_wf(old(self)@, m);
            lemma_board_after_facts(old(self)@, m);
        }
        let ghost g0 = self@;
        let src = m.src;
        let dst = m.dst;
        let p = match self.board.piece_at(src) {
            Some(p) => p,
            None => vstd::pervasive::unreached(),
        };
        let is_ep = matches!(p.kind, PieceKind::Pawn) && (match self.en_passant_target {
            Some(t) => t.index == dst.index,
            None => false,
        });
        proof {
            assert(is_ep == is_ep_capture(g0, m));
        }
        let cap_sq = if is_ep {
            Square { index: (src.index / 8) * 8 + dst.index % 8 }
        } else {
            dst
        };
        proof {
            assert(cap_sq.index as int == capture_square(g0, m));
        }
        let captured = self.board.piece_at(cap_sq);
        self.history.push(
            HistoryEntry {
                mv: Some(m),
                captured,
                captured_square: if captured.is_some() {
                    Some(cap_sq)
                } else {
                    None
                },
                prior_white_castle_rights: self.white_castle_rights,
                prior_black_castle_rights: self.black_castle_rights,
                prior_en_passant_target: self.en_passant_target,
                prior_halfmove_clock: self.halfmove_clock,
                prior_fullmove_number: self.fullmove_number,
                prior_zobrist: self.zobrist,
            },
        );
        // Zobrist: strip the non-piece keys, then mirror each board edit.
        let zm0 = meta_hash(
            self.player,
            self.white_castle_rights,
            self.black_castle_rights,
            self.en_passant_target,
        );
        let mut z = self.zobrist ^ zm0;
        proof {
            lemma_xor_cancel(pieces_hash(g0.board.pieces, 64), zm0);
            assert(z == pieces_hash(self.board@.pieces, 64));
        }
        match captured {
            None => {},
            Some(cp) => {
                proof {
                    lemma_z_remove(self.board@.pieces, cap_sq.index as int, z);
                }
                self.board.remove_at(cap_sq);
                z = z ^ piece_square_key(cp, cap_sq);
            },
        }
        assert(z == pieces_hash(self.board@.pieces, 64));
        proof {
            lemma_z_remove(self.board@.pieces, src.index as int, z);
        }
        self.board.remove_at(src);
        z = z ^ piece_square_key(p, src);
        let placed = match m.promotion {
            None => p,
            Some(k) => Piece { player: self.player, kind: k.piece_kind() },
        };
        proof {
            lemma_z_set(self.board@.pieces, dst.index as int, placed, z);
        }
        self.board.set_at(dst, placed);
        z = z ^ piece_square_key(placed, dst);
        let is_cas = matches!(p.kind, PieceKind::King) && (dst.index as i16 - src.index as i16 == 2
            || src.index as i16 - dst.index as i16 == 2);
        proof {
            assert(is_cas == is_castle(g0, m));
        }
        if is_cas {
            let (rs, rd) = if dst.index == 6 {
                (7u8, 5u8)
            } else if dst.index == 2 {
                (0u8, 3u8)
            } else if dst.index == 62 {
                (63u8, 61u8)
            } else {
                (56u8, 59u8)
            };
            proof {
                assert(rs as int == rook_squares(m).0 && rd as int == rook_squares(m).1);
            }
            let rook = Piece { player: self.player, kind: PieceKind::Rook };
            proof {
                assert(self.board@.pieces[rs as int] == Some(rook));
                lemma_z_remove(self.board@.pieces, rs as int, z);
            }
            self.board.remove_at(Square { index: rs });
            z = z ^ piece_square_key(rook, Square { index: rs });
            proof {
                lemma_z_set(self.board@.pieces, rd as int, rook, z);
            }
            self.board.set_at(Square { index: rd }, rook);
            z = z ^ piece_square_key(rook, Square { index: rd });
        }
        assert(self.board@ == board_after(g0, m));
        assert(z == pieces_hash(board_after(g0, m).pieces, 64));
        // castling rights, by the squares the move touches
        if src.index == 4 {
            self.white_castle_rights = CastleRights::none();
        }
        if src.index == 7 || dst.index == 7 {
            self.white_castle_rights = self.white_castle_rights.without_king_side();
        }
        if src.index == 0 || dst.index == 0 {
            self.white_castle_rights = self.white_castle_rights.without_queen_side();
        }
        if src.index == 60 {
            self.black_castle_rights = CastleRights::none();
        }
        if src.index == 63 || dst.index == 63 {
            self.black_castle_rights = self.black_castle_rights.without_king_side();
        }
        if src.index == 56 || dst.index == 56 {
            self.black_castle_rights = self.black_castle_rights.without_queen_side();
        }
        assert(self.white_castle_rights == wcr_after(g0, m));
        assert(self.black_castle_rights == bcr_after(g0, m));
        // en-passant target from a double push
        let is_double = matches!(p.kind, PieceKind::Pawn) && (dst.index as i16 - src.index as i16
            == 16 || src.index as i16 - dst.index as i16 == 16);
        proof {
            assert(is_double == is_double_push(g0, m));
        }
        self.en_passant_target = if is_double {
            Some(Square { index: (src.index + dst.index) / 2 })
        } else {
            None
        };
        // clocks and side to move
        self.halfmove_clock = if matches!(p.kind, PieceKind::Pawn) || captured.is_some() {
            0
        } else {
            self.halfmove_clock.saturating_add(1)
        };
        if matches!(self.player, Player::Black) {
            self.fullmove_number = self.fullmove_number.saturating_add(1);
        }
        self.player = self.player.other();
        let zm1 = meta_hash(
            self.player,
            self.white_castle_rights,
            self.black_castle_rights,
            self.en_passant_target,
        );
        self.zobrist = z ^ zm1;
        proof {
            assert(self@ =~= spec_make(g0, m));
        }
    }
}

impl Game {
    /// Undo the most recent `make_move`, restoring the previous state bit
    /// for bit.
    #[verifier::rlimit(100)]
    pub fn undo_move(&mut self)
        requires
            undoable(old(self)@),
        ensures
            final(self)@ == spec_undo(old(self)@),
            gv_wf(final(self)@),
    {
        let ghost (g0, m0): (GameV, Move) = choose|g0: GameV, m0: Move|
            gv_wf(g0) && movable(g0, m0) && old(self)@ == #[trigger] spec_make(g0, m0);
        proof {
            lemma_board_after_facts(g0, m0);
            lemma_make_wf(g0, m0);
            lemma_make_undo(g0, m0);
        }
        let entry = match self.history.pop() {
            Some(e) => e,
            None => vstd::pervasive::unreached(),
        };
        let m = match entry.mv {
            Some(m) => m,
            None => vstd::pervasive::unreached(),
        };
        proof {
            assert(m == m0);
        }
        let placed = match self.board.piece_at(m.dst) {
            Some(p) => p,
            None => vstd::pervasive::unreached(),
        };
        let orig = match m.promotion {
            None => placed,
            Some(_) => Piece { player: placed.player, kind: PieceKind::Pawn },
        };
        self.board.remove_at(m.dst);
        self.board.set_at(m.src, orig);
        match entry.captured {
            None => {},
            Some(cp) => {
                let cap_sq = match entry.captured_square {
                    Some(s) => s,
                    None => vstd::pervasive::unreached(),
                };
                self.board.set_at(cap_sq, cp);
            },
        }
        let is_cas = matches!(placed.kind, PieceKind::King) && (m.dst.index as i16
            - m.src.index as i16 == 2 || m.src.index as i16 - m.dst.index as i16 == 2);
        if is_cas {
            let (rs, rd) = if m.dst.index == 6 {
                (7u8, 5u8)
            } else if m.dst.index == 2 {
                (0u8, 3u8)
            } else if m.dst.index == 62 {
                (63u8, 61u8)
            } else {
                (56u8, 59u8)
            };
            self.board.remove_at(Square { index: rd });
            self.board.set_at(Square { index: rs }, Piece { player: placed.player, kind: PieceKind::Rook });
        }
        self.white_castle_rights = entry.prior_white_castle_rights;
        self.black_castle_rights = entry.prior_black_castle_rights;
        self.en_passant_target = entry.prior_en_passant_target;
        self.halfmove_clock = entry.prior_halfmove_clock;
        self.fullmove_number = entry.prior_fullmove_number;
        self.zobrist = entry.prior_zobrist;
        self.player = self.player.other();
        proof {
            assert(self@ =~= spec_undo(old(self)@));
        }
    }

    /// Pass the move to the opponent: clears the en-passant target and
    /// advances the clock, moving no piece.
    pub fn make_null_move(&mut self)
        requires
            old(self).inv(),
        ensures
            final(self)@ == spec_make_null(old(self)@),
            final(self).inv(),
    {
        let ghost g0 = self@;
        self.history.push(
            HistoryEntry {
                mv: None,
                captured: None,
                captured_square: None,
                prior_white_castle_rights: self.white_castle_rights,
                prior_black_castle_rights: self.black_castle_rights,
                prior_en_passant_target: self.en_passant_target,
                prior_halfmove_clock: self.halfmove_clock,
                prior_fullmove_number: self.fullmove_number,
                prior_zobrist: self.zobrist,
            },
        );
        let zm0 = meta_hash(
            self.player,
            self.white_castle_rights,
            self.black_castle_rights,
            self.en_passant_target,
        );
        proof {
            lemma_xor_cancel(pieces_hash(g0.board.pieces, 64), zm0);
        }
        self.player = self.player.other();
        self.en_passant_target = None;
        self.halfmove_clock = self.halfmove_clock.saturating_add(1);
        let zm1 = meta_hash(self.player, self.white_castle_rights, self.black_castle_rights, None);
        self.zobrist = (self.zobrist ^ zm0) ^ zm1;
        proof {
            assert(self@ =~= spec_make_null(g0));
        }
    }

    /// Undo the most recent `make_null_move`.
    pub fn undo_null_move(&mut self)
        requires
            null_undoable(old(self)@),
        ensures
            final(self)@ == spec_undo(old(self)@),
            gv_wf(final(self)@),
    {
        let ghost g0: GameV = choose|g0: GameV| gv_wf(g0) && old(self)@ == #[trigger] spec_make_null(
            g0,
        );
        let entry = match self.history.pop() {
            Some(e) => e,
            None => vstd::pervasive::unreached(),
        };
        self.white_castle_rights = entry.prior_white_castle_rights;
        self.black_castle_rights = entry.prior_black_castle_rights;
        self.en_passant_target = entry.prior_en_passant_target;
        self.halfmove_clock = entry.prior_halfmove_clock;
        self.fullmove_number = entry.prior_fullmove_number;
        self.zobrist = entry.prior_zobrist;
        self.player = self.player.other();
        proof {
            assert(self@ =~= spec_undo(old(self)@));
            assert(spec_undo(spec_make_null(g0)) =~= g0);
        }
    }

    /// The game at the standard starting position.
    pub fn new() -> (r: Game)
        ensures
            r.inv(),
            r@.player is White,
            r@.wcr == CastleRights::both(),
            r@.bcr == CastleRights::both(),
            r@.ep is None,
            r@.halfmove == 0,
            r@.fullmove == 1,
            r@.history.len() == 0,
            forall|i: int| 0 <= i < 64 ==> r@.board.pieces[i] == crate::board::start_piece(i),
    {
        let board = Board::start();
        let zobrist = crate::zobrist::compute_zobrist(
            &board,
            Player::White,
            CastleRights::both(),
            CastleRights::both(),
            None,
        );
        let g = Game {
            board,
            player: Player::White,
            white_castle_rights: CastleRights::both(),
            black_castle_rights: CastleRights::both(),
            en_passant_target: None,
            halfmove_clock: 0,
            fullmove_number: 1,
            zobrist,
            history: Vec::new(),
        };
        proof {
            lemma_start_position_wf(g@);
        }
        g
    }

    /// Has this position occurred before in the game? Compared by Zobrist
    /// key, which covers pieces, rights, side to move and en passant.
    pub fn is_repeated_position(&self) -> (r: bool)
        ensures
            r == repeated_position(self@),
    {
        let n = self.history.len();
        let mut i: usize = 0;
        while i < n
            invariant
                i <= n,
                n == self@.history.len(),
                forall|j: int| 0 <= j < i ==> #[trigger] self@.history[j].prior_zobrist
                    != self@.zobrist,
            decreases n - i,
        {
            if self.history[i].prior_zobrist == self.zobrist {
                return true;
            }
            i = i + 1;
        }
        false
    }

    /// Fifty full moves without a pawn move or capture.
    pub fn is_stalemate_by_fifty_move_rule(&self) -> (r: bool)
        ensures
            r == (self@.halfmove >= 100),
    {
        self.halfmove_clock >= 100
    }
}

/// A starting-position game is well formed.
proof fn lemma_start_position_wf(g: GameV)
    requires
        bv_wf(g.board),
        forall|i: int| 0 <= i < 64 ==> g.board.pieces[i] == crate::board::start_piece(i),
        g.player is White,
        g.wcr == CastleRights::both(),
        g.bcr == CastleRights::both(),
        g.ep is None,
        g.zobrist == zobrist_of(g.board.pieces, g.player, g.wcr, g.bcr, g.ep),
    ensures
        gv_wf(g),
{
    let b = g.board;
    let wk = pc(Player::White, PieceKind::King);
    let bk = pc(Player::Black, PieceKind::King);
    assert(crate::board::piece_of_code(5) == wk);
    assert(crate::board::piece_of_code(11) == bk);
    assert(crate::board::start_piece(4) == Some(wk));
    assert(b.pieces[4] == Some(wk));
    assert(crate::board::bbs_has(b, 5, 4) == crate::bitboard::bit(b.bbs[5], 4u64));
    let wbb = Bitboard::from_bits(b.bbs[5]);
    assert(wbb.has(4));
    assert forall|j: int| wbb.has(j) implies j == 4 by {
        assert(crate::board::bbs_has(b, 5, j) == crate::bitboard::bit(b.bbs[5], j as u64));
        assert(b.pieces[j] == Some(wk));
        assert(crate::board::start_piece(j) == Some(wk));
    }
    assert(crate::board::start_piece(60) == Some(bk));
    assert(b.pieces[60] == Some(bk));
    assert(crate::board::bbs_has(b, 11, 60) == crate::bitboard::bit(b.bbs[11], 60u64));
    let bbb = Bitboard::from_bits(b.bbs[11]);
    assert(bbb.has(60));
    assert forall|j: int| bbb.has(j) implies j == 60 by {
        assert(crate::board::bbs_has(b, 11, j) == crate::bitboard::bit(b.bbs[11], j as u64));
        assert(b.pieces[j] == Some(bk));
        assert(crate::board::start_piece(j) == Some(bk));
    }
    assert(kings_ok(b));
    let wr = pc(Player::White, PieceKind::Rook);
    let br = pc(Player::Black, PieceKind::Rook);
    assert(crate::board::start_piece(0) == Some(wr));
    assert(crate::board::start_piece(7) == Some(wr));
    assert(crate::board::start_piece(56) == Some(br));
    assert(crate::board::start_piece(63) == Some(br));
    assert(rights_wf(g));
}

/// Undoing a null move restores the state exactly.
pub proof fn lemma_null_roundtrip(g: GameV)
    ensures
        spec_undo(spec_make_null(g)) == g,
{
    assert(spec_undo(spec_make_null(g)) =~= g);
}

/// Making a move and undoing it restores the Zobrist key; a corollary of
/// the exact round trip.
pub proof fn lemma_zobrist_roundtrip(g: GameV, m: Move)
    requires
        gv_wf(g),
        movable(g, m),
    ensures
        spec_undo(spec_make(g, m)).zobrist == g.zobrist,
{
    lemma_make_undo(g, m);
}

/// The stored Zobrist key of any well-formed game is exactly the XOR
/// reconstruction over its pieces, castling rights, side to move and
/// en-passant file.
pub proof fn lemma_zobrist_reconstruction(g: GameV)
    requires
        gv_wf(g),
    ensures
        g.zobrist == zobrist_of(g.board.pieces, g.player, g.wcr, g.bcr, g.ep),
{
}

/// Games in the same position (same pieces, rights, side and en-passant
/// target) carry the same Zobrist key.
pub proof fn lemma_zobrist_position_function(a: GameV, b: GameV)
    requires
        gv_wf(a),
        gv_wf(b),
        a.board.pieces == b.board.pieces,
        a.player == b.player,
        a.wcr == b.wcr,
        a.bcr == b.bcr,
        a.ep == b.ep,
    ensures
        a.zobrist == b.zobrist,
{
}

/// A king that did not move is still on its square after the move.
proof fn lemma_king_stays(g: GameV, m: Move, k: int)
    requires
        gv_wf(g),
        movable(g, m),
        0 <= k < 64,
        g.board.pieces[k] matches Some(q) && q.kind is King,
        moving_piece(g, m) != g.board.pieces[k]->0,
    ensures
        board_after(g, m).pieces[k] == g.board.pieces[k],
{
    lemma_board_after_facts(g, m);
    let src = m.src.index as int;
    let dst = m.dst.index as int;
    let cap = capture_square(g, m);
    let q = g.board.pieces[k]->0;
    assert(k != src);
    assert(k != dst);
    if is_ep_capture(g, m) {
        assert(g.board.pieces[cap] == Some(
            pc(
                match g.player {
                    Player::White => Player::Black,
                    Player::Black => Player::White,
                },
                PieceKind::Pawn,
            ),
        ));
    }
    assert(k != cap);
    if is_castle(g, m) {
        let rs = rook_squares(m).0;
        let rd = rook_squares(m).1;
        assert(g.board.pieces[rs] == Some(pc(g.player, PieceKind::Rook)));
        assert(k != rs);
        assert(g.board.pieces[rd] is None);
        assert(k != rd);
    }
}

} // verus!
