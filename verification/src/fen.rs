//! Reading a position from Forsyth-Edwards notation: "pieces side
//! castling en-passant halfmove fullmove". The grammar is mirrored by a
//! specification-level parser, and `from_fen` succeeds exactly when that
//! parser accepts the string, the position has one king each, and the
//! player who just moved is not left in check.

use vstd::prelude::*;
use crate::board::{Board, BoardV, bv_wf};
use crate::castling::CastleRights;
use crate::game::{kings_ok, pc, Game};
use crate::movegen::{in_check, king_square, lemma_king_square, valid_pos};
use crate::piece::{Piece, PieceKind, Player};
use crate::square::Square;

verus! {

/// Why a FEN string was refused.
#[derive(Clone, Copy, Debug, PartialEq, Eq, Structural)]
pub enum FenError {
    /// The board field is malformed or does not fill the board.
    BadBoard,
    /// Not exactly one king per side.
    BadKings,
    /// The side-to-move field is not `w` or `b`.
    BadSide,
    /// The castling field holds something other than `-` or `KQkq`.
    BadCastling,
    /// The en-passant field is not `-` or a square name.
    BadEnPassant,
    /// A clock field is not a number.
    BadNumber,
    /// The player who just moved is left in check.
    InvalidPosition,
}

impl FenError {
    /// A short description of the error.
    pub fn message(&self) -> &'static str {
        match self {
            FenError::BadBoard => "malformed piece placement",
            FenError::BadKings => "each side needs exactly one king",
            FenError::BadSide => "side to move must be w or b",
            FenError::BadCastling => "malformed castling rights",
            FenError::BadEnPassant => "malformed en passant target",
            FenError::BadNumber => "malformed move counter",
            FenError::InvalidPosition => "the side not to move is in check",
        }
    }
}

/// What a well-formed FEN record denotes, before the consistency filters:
/// the pieces, the side to move, the castling rights and en-passant
/// target as written, and the two clocks.
#[verifier::ext_equal]
pub struct FenFields {
    pub pieces: Seq<Option<Piece>>,
    pub player: Player,
    pub wcr: CastleRights,
    pub bcr: CastleRights,
    pub ep: Option<Square>,
    pub halfmove: int,
    pub fullmove: int,
}

/// The piece a FEN letter denotes.
pub open spec fn spec_char_piece(c: char) -> Option<Piece> {
    match c {
        'P' => Some(pc(Player::White, PieceKind::Pawn)),
        'N' => Some(pc(Player::White, PieceKind::Knight)),
        'B' => Some(pc(Player::White, PieceKind::Bishop)),
        'R' => Some(pc(Player::White, PieceKind::Rook)),
        'Q' => Some(pc(Player::White, PieceKind::Queen)),
        'K' => Some(pc(Player::White, PieceKind::King)),
        'p' => Some(pc(Player::Black, PieceKind::Pawn)),
        'n' => Some(pc(Player::Black, PieceKind::Knight)),
        'b' => Some(pc(Player::Black, PieceKind::Bishop)),
        'r' => Some(pc(Player::Black, PieceKind::Rook)),
        'q' => Some(pc(Player::Black, PieceKind::Queen)),
        'k' => Some(pc(Player::Black, PieceKind::King)),
        _ => None,
    }
}

pub open spec fn blank_board() -> Seq<Option<Piece>> {
    Seq::new(64, |i: int| None)
}

/// The piece-placement field: ranks eight down to one, slash-separated,
/// digits skipping empty squares; ends at the first space with the board
/// exactly filled. Returns the pieces and the position after the space.
pub open spec fn parse_board(
    s: Seq<char>,
    i: int,
    rank: int,
    file: int,
    acc: Seq<Option<Piece>>,
) -> Option<(Seq<Option<Piece>>, int)>
    decreases s.len() - i,
{
    if i < 0 || i >= s.len() {
        None
    } else {
        let c = s[i];
        if c == ' ' {
            if rank == 0 && file == 8 {
                Some((acc, i + 1))
            } else {
                None
            }
        } else if c == '/' {
            if file == 8 && rank > 0 {
                parse_board(s, i + 1, rank - 1, 0, acc)
            } else {
                None
            }
        } else if '1' <= c && c <= '8' {
            let d = c as int - '0' as int;
            if file + d > 8 {
                None
            } else {
                parse_board(s, i + 1, rank, file + d, acc)
            }
        } else {
            match spec_char_piece(c) {
                None => None,
                Some(p) => if file >= 8 || rank < 0 {
                    None
                } else {
                    parse_board(s, i + 1, rank, file + 1, acc.update(rank * 8 + file, Some(p)))
                },
            }
        }
    }
}

/// The castling field after a leading right: letters of `KQkq`, at most
/// four, ending at a space or the end; at least one must have been seen.
pub open spec fn parse_rights(
    s: Seq<char>,
    i: int,
    wcr: CastleRights,
    bcr: CastleRights,
    seen: int,
) -> Option<(CastleRights, CastleRights, int)>
    decreases s.len() - i,
{
    if i < 0 || i >= s.len() || s[i] == ' ' {
        if seen == 0 {
            None
        } else {
            Some((wcr, bcr, i))
        }
    } else if seen >= 4 {
        None
    } else if s[i] == 'K' {
        parse_rights(s, i + 1, CastleRights { king_side: true, queen_side: wcr.queen_side }, bcr, seen + 1)
    } else if s[i] == 'Q' {
        parse_rights(s, i + 1, CastleRights { king_side: wcr.king_side, queen_side: true }, bcr, seen + 1)
    } else if s[i] == 'k' {
        parse_rights(s, i + 1, wcr, CastleRights { king_side: true, queen_side: bcr.queen_side }, seen + 1)
    } else if s[i] == 'q' {
        parse_rights(s, i + 1, wcr, CastleRights { king_side: bcr.king_side, queen_side: true }, seen + 1)
    } else {
        None
    }
}

/// The castling field: `-` or a run of rights.
pub open spec fn parse_castling(s: Seq<char>, i: int) -> Option<(CastleRights, CastleRights, int)> {
    if 0 <= i < s.len() && s[i] == '-' {
        Some((CastleRights::none(), CastleRights::none(), i + 1))
    } else {
        parse_rights(s, i, CastleRights::none(), CastleRights::none(), 0)
    }
}

/// The en-passant field: `-` or a square name.
pub open spec fn parse_ep(s: Seq<char>, i: int) -> Option<(Option<Square>, int)> {
    if i < 0 || i >= s.len() {
        None
    } else if s[i] == '-' {
        Some((None, i + 1))
    } else if i + 1 >= s.len() {
        None
    } else if 'a' <= s[i] && s[i] <= 'h' && '1' <= s[i + 1] && s[i + 1] <= '8' {
        Some(
            (
                Some(
                    Square {
                        index: ((s[i + 1] as int - '1' as int) * 8 + (s[i] as int
                            - 'a' as int)) as u8,
                    },
                ),
                i + 2,
            ),
        )
    } else {
        None
    }
}

/// A run of decimal digits from `i`, as the exec parser reads it:
/// saturating near the top of the counter; returns the value and the
/// position after the run.
pub open spec fn spec_number(s: Seq<char>, i: int, value: int) -> (int, int)
    decreases s.len() - i,
{
    if i < 0 || i >= s.len() {
        (value, i)
    } else {
        let c = s[i];
        if '0' <= c && c <= '9' {
            spec_number(
                s,
                i + 1,
                if value > 429496728 {
                    0xFFFF_FFFFint
                } else {
                    value * 10 + (c as int - '0' as int)
                },
            )
        } else {
            (value, i)
        }
    }
}

/// The whole record: board, side, castling, en passant and the two
/// clocks, space-separated. Anything after the last clock is ignored.
pub open spec fn spec_fen(s: Seq<char>) -> Option<FenFields> {
    match parse_board(s, 0, 7, 0, blank_board()) {
        None => None,
        Some(bp) => {
            let pieces = bp.0;
            let i = bp.1;
            if !(i < s.len() && (s[i] == 'w' || s[i] == 'b')) {
                None
            } else {
                let player = if s[i] == 'w' {
                    Player::White
                } else {
                    Player::Black
                };
                if !(i + 1 < s.len() && s[i + 1] == ' ') {
                    None
                } else {
                    match parse_castling(s, i + 2) {
                        None => None,
                        Some(cr) => {
                            let m0 = cr.2;
                            if !(m0 < s.len() && s[m0] == ' ') {
                                None
                            } else {
                                match parse_ep(s, m0 + 1) {
                                    None => None,
                                    Some(ept) => {
                                        let q = ept.1;
                                        if !(q < s.len() && s[q] == ' ') {
                                            None
                                        } else {
                                            let n1 = spec_number(s, q + 1, 0);
                                            if !(n1.1 > q + 1) {
                                                None
                                            } else if !(n1.1 < s.len() && s[n1.1] == ' ') {
                                                None
                                            } else {
                                                let n2 = spec_number(s, n1.1 + 1, 0);
                                                if !(n2.1 > n1.1 + 1) {
                                                    None
                                                } else {
                                                    Some(
                                                        FenFields {
                                                            pieces,
                                                            player,
                                                            wcr: cr.0,
                                                            bcr: cr.1,
                                                            ep: ept.0,
                                                            halfmove: n1.0,
                                                            fullmove: n2.0,
                                                        },
                                                    )
                                                }
                                            }
                                        }
                                    },
                                }
                            }
                        },
                    }
                }
            }
        },
    }
}

/// Exactly one square holds `piece`.
pub open spec fn exactly_one(pieces: Seq<Option<Piece>>, piece: Piece) -> bool {
    exists|k: int|
        0 <= k < 64 && #[trigger] pieces[k] == Some(piece) && (forall|j: int|
            0 <= j < 64 && #[trigger] pieces[j] == Some(piece) ==> j == k)
}

/// Being in check, read off the mirror alone.
pub open spec fn pieces_in_check(pieces: Seq<Option<Piece>>, player: Player) -> bool {
    in_check(BoardV { bbs: Seq::empty(), pieces }, player)
}

/// On a well-formed board the check predicate depends on the mirror only.
proof fn lemma_pieces_in_check(b: BoardV, player: Player)
    requires
        bv_wf(b),
        kings_ok(b),
    ensures
        in_check(b, player) == pieces_in_check(b.pieces, player),
{
    lemma_king_square(b, player);
    let d = BoardV { bbs: Seq::empty(), pieces: b.pieces };
    let ks = king_square(b, player);
    assert(d.pieces[ks] == Some(pc(player, PieceKind::King)));
    assert(king_square(d, player) == ks);
}

/// The en-passant target a double push could have just produced.
pub open spec fn fen_ep_ok(pieces: Seq<Option<Piece>>, player: Player, t: Square) -> bool {
    if player is White {
        t.index / 8 == 5 && pieces[t.index as int] is None && pieces[t.index - 8] == Some(
            pc(Player::Black, PieceKind::Pawn),
        )
    } else {
        t.index / 8 == 2 && pieces[t.index as int] is None && pieces[t.index + 8] == Some(
            pc(Player::White, PieceKind::Pawn),
        )
    }
}

/// The piece a FEN letter stands for.
fn piece_of_char(c: char) -> (r: Option<Piece>)
    ensures
        r == spec_char_piece(c),
{
    match c {
        'P' => Some(Piece { player: Player::White, kind: PieceKind::Pawn }),
        'N' => Some(Piece { player: Player::White, kind: PieceKind::Knight }),
        'B' => Some(Piece { player: Player::White, kind: PieceKind::Bishop }),
        'R' => Some(Piece { player: Player::White, kind: PieceKind::Rook }),
        'Q' => Some(Piece { player: Player::White, kind: PieceKind::Queen }),
        'K' => Some(Piece { player: Player::White, kind: PieceKind::King }),
        'p' => Some(Piece { player: Player::Black, kind: PieceKind::Pawn }),
        'n' => Some(Piece { player: Player::Black, kind: PieceKind::Knight }),
        'b' => Some(Piece { player: Player::Black, kind: PieceKind::Bishop }),
        'r' => Some(Piece { player: Player::Black, kind: PieceKind::Rook }),
        'q' => Some(Piece { player: Player::Black, kind: PieceKind::Queen }),
        'k' => Some(Piece { player: Player::Black, kind: PieceKind::King }),
        _ => None,
    }
}

/// Find the single square holding `piece`, if there is exactly one.
fn find_single(board: &Board, piece: Piece) -> (r: Option<Square>)
    requires
        bv_wf(board@),
    ensures
        r matches Some(s) ==> s.wf() && board@.pieces[s.index as int] == Some(piece) && (forall|
            j: int,
        | 0 <= j < 64 && #[trigger] board@.pieces[j] == Some(piece) ==> j == s.index as int),
        r is Some <==> exactly_one(board@.pieces, piece),
{
    let mut found: Option<Square> = None;
    let mut i: u8 = 0;
    while i < 64
        invariant
            i <= 64,
            bv_wf(board@),
            match found {
                None => forall|j: int| 0 <= j < i ==> #[trigger] board@.pieces[j] != Some(piece),
                Some(s) => s.wf() && s.index < i && board@.pieces[s.index as int] == Some(piece)
                    && (forall|j: int|
                    0 <= j < i && #[trigger] board@.pieces[j] == Some(piece) ==> j
                        == s.index as int),
            },
        decreases 64 - i,
    {
        match board.piece_at(Square { index: i }) {
            Some(p) if p == piece => {
                match found {
                    None => {
                        found = Some(Square { index: i });
                    },
                    Some(prev) => {
                        proof {
                            // two distinct squares hold the piece
                            assert(board@.pieces[prev.index as int] == Some(piece));
                            assert(board@.pieces[i as int] == Some(piece));
                            assert(prev.index as int != i as int);
                            assert(!exactly_one(board@.pieces, piece)) by {
                                if exactly_one(board@.pieces, piece) {
                                    let k = choose|k: int|
                                        0 <= k < 64 && #[trigger] board@.pieces[k] == Some(piece)
                                            && (forall|j: int|
                                            0 <= j < 64 && #[trigger] board@.pieces[j] == Some(
                                                piece,
                                            ) ==> j == k);
                                    assert(prev.index as int == k);
                                    assert(i as int == k);
                                }
                            }
                        }
                        return None;
                    },
                }
            },
            _ => {},
        }
        i = i + 1;
    }
    proof {
        if found is Some {
            assert(exactly_one(board@.pieces, piece));
        } else {
            assert(!exactly_one(board@.pieces, piece)) by {
                if exactly_one(board@.pieces, piece) {
                    let k = choose|k: int|
                        0 <= k < 64 && #[trigger] board@.pieces[k] == Some(piece) && (forall|
                            j: int,
                        | 0 <= j < 64 && #[trigger] board@.pieces[j] == Some(piece) ==> j == k);
                    assert(board@.pieces[k] != Some(piece));
                }
            }
        }
    }
    found
}

impl Game {
    /// Read a game from a FEN record. The parse succeeds exactly when the
    /// specification-level parser accepts the string, the board has one
    /// king per side, and the player who just moved is not left in check;
    /// the fields of the game then equal the record's, except that
    /// castling rights without king and rook at home, and an en-passant
    /// target that no double push could have produced, are dropped, and
    /// the clocks are clamped into range.
    #[verifier::rlimit(100)]
    pub fn from_fen(fen: &str) -> (r: Result<Game, FenError>)
        ensures
            r matches Ok(g) ==> g.inv() && valid_pos(g@) && g@.history.len() == 0,
            r is Ok <==> (spec_fen(fen@) matches Some(f) && exactly_one(
                f.pieces,
                pc(Player::White, PieceKind::King),
            ) && exactly_one(f.pieces, pc(Player::Black, PieceKind::King)) && !pieces_in_check(
                f.pieces,
                f.player.other(),
            )),
            r matches Ok(g) ==> ({
                let f = spec_fen(fen@)->0;
                &&& g@.board.pieces == f.pieces
                &&& g@.player == f.player
                &&& g@.wcr.king_side == (f.wcr.king_side && f.pieces[4] == Some(
                    pc(Player::White, PieceKind::King),
                ) && f.pieces[7] == Some(pc(Player::White, PieceKind::Rook)))
                &&& g@.wcr.queen_side == (f.wcr.queen_side && f.pieces[4] == Some(
                    pc(Player::White, PieceKind::King),
                ) && f.pieces[0] == Some(pc(Player::White, PieceKind::Rook)))
                &&& g@.bcr.king_side == (f.bcr.king_side && f.pieces[60] == Some(
                    pc(Player::Black, PieceKind::King),
                ) && f.pieces[63] == Some(pc(Player::Black, PieceKind::Rook)))
                &&& g@.bcr.queen_side == (f.bcr.queen_side && f.pieces[60] == Some(
                    pc(Player::Black, PieceKind::King),
                ) && f.pieces[56] == Some(pc(Player::Black, PieceKind::Rook)))
                &&& g@.ep == (match f.ep {
                    Some(t) => if fen_ep_ok(f.pieces, f.player, t) {
                        Some(t)
                    } else {
                        None
                    },
                    None => None,
                })
                &&& g@.halfmove as int == (if f.halfmove > 255 {
                    255int
                } else {
                    f.halfmove
                })
                &&& g@.fullmove as int == (if f.fullmove == 0 {
                    1int
                } else {
                    f.fullmove
                })
            }),
    {
        let len = fen.unicode_len();
        let mut pieces: [Option<Piece>; 64] = [None; 64];
        let mut pos: usize = 0;
        let mut rank: i16 = 7;
        let mut file: i16 = 0;
        proof {
            assert(pieces@ =~= blank_board());
        }
        // piece placement, rank eight down to rank one
        loop
            invariant_except_break
                pos <= len,
                len == fen@.len(),
                -1 <= rank <= 7,
                0 <= file <= 8,
                parse_board(fen@, 0, 7, 0, blank_board()) == parse_board(
                    fen@,
                    pos as int,
                    rank as int,
                    file as int,
                    pieces@,
                ),
            ensures
                pos <= len,
                len == fen@.len(),
                parse_board(fen@, 0, 7, 0, blank_board()) == Some((pieces@, pos as int)),
            decreases len - pos,
        {
            if pos >= len {
                return Err(FenError::BadBoard);
            }
            let c = fen.get_char(pos);
            if c == ' ' {
                if !(rank == 0 && file == 8) {
                    return Err(FenError::BadBoard);
                }
                pos = pos + 1;
                break ;
            } else if c == '/' {
                if file != 8 || rank <= 0 {
                    return Err(FenError::BadBoard);
                }
                rank = rank - 1;
                file = 0;
                pos = pos + 1;
            } else if '1' <= c && c <= '8' {
                let d = (c as u32) - ('0' as u32);
                if file + d as i16 > 8 {
                    return Err(FenError::BadBoard);
                }
                file = file + d as i16;
                pos = pos + 1;
            } else {
                match piece_of_char(c) {
                    None => {
                        return Err(FenError::BadBoard);
                    },
                    Some(p) => {
                        if file >= 8 || rank < 0 {
                            return Err(FenError::BadBoard);
                        }
                        let ghost acc0 = pieces@;
                        pieces[(rank * 8 + file) as usize] = Some(p);
                        proof {
                            assert(pieces@ =~= acc0.update(rank as int * 8 + file as int, Some(p)));
                        }
                        file = file + 1;
                        pos = pos + 1;
                    },
                }
            }
        }
        let ghost board_pieces = pieces@;
        let ghost after_board = pos as int;
        proof {
            assert(parse_board(fen@, 0, 7, 0, blank_board()) == Some((board_pieces, after_board)));
        }
        let board = Board::from_pieces(&pieces);
        // exactly one king each
        let wk = match find_single(&board, Piece { player: Player::White, kind: PieceKind::King }) {
            None => {
                return Err(FenError::BadKings);
            },
            Some(s) => s,
        };
        let bk = match find_single(&board, Piece { player: Player::Black, kind: PieceKind::King }) {
            None => {
                return Err(FenError::BadKings);
            },
            Some(s) => s,
        };
        proof {
            lemma_kings_single(board@, wk, bk);
        }
        // side to move
        if pos >= len {
            return Err(FenError::BadSide);
        }
        let side_c = fen.get_char(pos);
        let player = if side_c == 'w' {
            Player::White
        } else if side_c == 'b' {
            Player::Black
        } else {
            return Err(FenError::BadSide);
        };
        pos = pos + 1;
        if pos >= len || fen.get_char(pos) != ' ' {
            return Err(FenError::BadCastling);
        }
        pos = pos + 1;
        // castling rights
        let ghost castling_start = pos as int;
        let mut wcr = CastleRights::none();
        let mut bcr = CastleRights::none();
        if pos < len && fen.get_char(pos) == '-' {
            proof {
                assert(fen@[castling_start] == '-');
            }
            pos = pos + 1;
        } else {
            let mut seen: usize = 0;
            loop
                invariant
                    castling_start <= pos <= len,
                    len == fen@.len(),
                    seen <= 4,
                    parse_board(fen@, 0, 7, 0, blank_board()) == Some((board_pieces, after_board)),
                    after_board < len,
                    fen@[after_board] == 'w' || fen@[after_board] == 'b',
                    after_board + 1 < len && fen@[after_board + 1] == ' ',
                    castling_start == after_board + 2,
                    castling_start >= len || fen@[castling_start] != '-',
                    parse_rights(
                        fen@,
                        castling_start,
                        CastleRights::none(),
                        CastleRights::none(),
                        0,
                    ) == parse_rights(fen@, pos as int, wcr, bcr, seen as int),
                    pos == castling_start <==> seen == 0,
                ensures
                    castling_start <= pos <= len,
                    len == fen@.len(),
                    seen <= 4,
                    parse_rights(
                        fen@,
                        castling_start,
                        CastleRights::none(),
                        CastleRights::none(),
                        0,
                    ) == parse_rights(fen@, pos as int, wcr, bcr, seen as int),
                    pos == castling_start <==> seen == 0,
                    pos >= len || fen@[pos as int] == ' ',
                decreases len - pos,
            {
                if pos >= len {
                    break ;
                }
                let c = fen.get_char(pos);
                if c == ' ' {
                    break ;
                }
                if seen >= 4 {
                    return Err(FenError::BadCastling);
                }
                if c == 'K' {
                    wcr = CastleRights { king_side: true, queen_side: wcr.queen_side };
                } else if c == 'Q' {
                    wcr = CastleRights { king_side: wcr.king_side, queen_side: true };
                } else if c == 'k' {
                    bcr = CastleRights { king_side: true, queen_side: bcr.queen_side };
                } else if c == 'q' {
                    bcr = CastleRights { king_side: bcr.king_side, queen_side: true };
                } else {
                    return Err(FenError::BadCastling);
                }
                seen = seen + 1;
                pos = pos + 1;
            }
            if seen == 0 {
                return Err(FenError::BadCastling);
            }
        }
        let ghost wcr_raw = wcr;
        let ghost bcr_raw = bcr;
        let ghost after_castling = pos as int;
        proof {
            assert(parse_castling(fen@, castling_start) == Some(
                (wcr_raw, bcr_raw, after_castling),
            ));
        }
        // drop rights whose king or rook has left home
        let wk_home = matches!(board.piece_at(Square { index: 4 }), Some(Piece { player: Player::White, kind: PieceKind::King }));
        if !(wk_home && matches!(board.piece_at(Square { index: 7 }), Some(Piece { player: Player::White, kind: PieceKind::Rook }))) {
            wcr = wcr.without_king_side();
        }
        if !(wk_home && matches!(board.piece_at(Square { index: 0 }), Some(Piece { player: Player::White, kind: PieceKind::Rook }))) {
            wcr = wcr.without_queen_side();
        }
        let bk_home = matches!(board.piece_at(Square { index: 60 }), Some(Piece { player: Player::Black, kind: PieceKind::King }));
        if !(bk_home && matches!(board.piece_at(Square { index: 63 }), Some(Piece { player: Player::Black, kind: PieceKind::Rook }))) {
            bcr = bcr.without_king_side();
        }
        if !(bk_home && matches!(board.piece_at(Square { index: 56 }), Some(Piece { player: Player::Black, kind: PieceKind::Rook }))) {
            bcr = bcr.without_queen_side();
        }
        if pos >= len || fen.get_char(pos) != ' ' {
            return Err(FenError::BadEnPassant);
        }
        pos = pos + 1;
        // en-passant target
        let ghost ep_start = pos as int;
        let mut ep: Option<Square> = None;
        if pos < len && fen.get_char(pos) == '-' {
            pos = pos + 1;
        } else {
            if pos >= len || pos + 1 >= len {
                return Err(FenError::BadEnPassant);
            }
            let fc = fen.get_char(pos);
            let rc = fen.get_char(pos + 1);
            if !('a' <= fc && fc <= 'h' && '1' <= rc && rc <= '8') {
                return Err(FenError::BadEnPassant);
            }
            let f = ((fc as u32) - ('a' as u32)) as u8;
            let r_ = ((rc as u32) - ('1' as u32)) as u8;
            ep = Some(Square { index: r_ * 8 + f });
            pos = pos + 2;
        }
        let ghost ep_raw = ep;
        let ghost after_ep = pos as int;
        proof {
            assert(parse_ep(fen@, ep_start) == Some((ep_raw, after_ep)));
        }
        // drop an en-passant target no double push could have produced
        match ep {
            None => {},
            Some(t) => {
                let ok = if matches!(player, Player::White) {
                    t.index / 8 == 5 && board.piece_at(t).is_none() && matches!(
                        board.piece_at(Square { index: t.index - 8 }),
                        Some(Piece { player: Player::Black, kind: PieceKind::Pawn }),
                    )
                } else {
                    t.index / 8 == 2 && board.piece_at(t).is_none() && matches!(
                        board.piece_at(Square { index: t.index + 8 }),
                        Some(Piece { player: Player::White, kind: PieceKind::Pawn }),
                    )
                };
                if !ok {
                    ep = None;
                }
            },
        }
        // clocks
        if pos >= len || fen.get_char(pos) != ' ' {
            return Err(FenError::BadNumber);
        }
        pos = pos + 1;
        let (halfmove_raw, pos2) = match parse_number(fen, pos, len) {
            None => {
                return Err(FenError::BadNumber);
            },
            Some(x) => x,
        };
        pos = pos2;
        let halfmove: u8 = if halfmove_raw > 255 {
            255
        } else {
            halfmove_raw as u8
        };
        if pos >= len || fen.get_char(pos) != ' ' {
            return Err(FenError::BadNumber);
        }
        pos = pos + 1;
        let (fullmove_raw, _) = match parse_number(fen, pos, len) {
            None => {
                return Err(FenError::BadNumber);
            },
            Some(x) => x,
        };
        let fullmove: u32 = if fullmove_raw == 0 {
            1
        } else {
            fullmove_raw
        };
        proof {
            assert(spec_fen(fen@) matches Some(f) && f.pieces == board_pieces && f.player == player
                && f.wcr == wcr_raw && f.bcr == bcr_raw && f.ep == ep_raw && f.halfmove
                == halfmove_raw as int && f.fullmove == fullmove_raw as int);
        }
        let zobrist = crate::zobrist::compute_zobrist(&board, player, wcr, bcr, ep);
        let g = Game {
            board,
            player,
            white_castle_rights: wcr,
            black_castle_rights: bcr,
            en_passant_target: ep,
            halfmove_clock: halfmove,
            fullmove_number: fullmove,
            zobrist,
            history: Vec::new(),
        };
        // the player who just moved must not be left in check
        let checked = g.board.king_in_check(g.player.other());
        proof {
            lemma_pieces_in_check(g.board@, g.player.other());
        }
        if checked {
            return Err(FenError::InvalidPosition);
        }
        Ok(g)
    }
}

/// Parse a decimal number exactly as `spec_number` reads it; `None` when
/// no digit stands at `start`.
fn parse_number(fen: &str, start: usize, len: usize) -> (r: Option<(u32, usize)>)
    requires
        start <= len,
        len == fen@.len(),
    ensures
        ({
            let sn = spec_number(fen@, start as int, 0);
            &&& (r matches Some(p) ==> p.0 as int == sn.0 && p.1 as int == sn.1 && start < p.1
                <= len)
            &&& (r is Some <==> sn.1 > start)
        }),
{
    let mut pos = start;
    let mut value: u32 = 0;
    let mut any = false;
    while pos < len
        invariant
            start <= pos <= len,
            len == fen@.len(),
            any <==> pos > start,
            spec_number(fen@, start as int, 0) == spec_number(fen@, pos as int, value as int),
        ensures
            start <= pos <= len,
            len == fen@.len(),
            any <==> pos > start,
            spec_number(fen@, start as int, 0) == spec_number(fen@, pos as int, value as int),
            pos >= len || !('0' <= fen@[pos as int] && fen@[pos as int] <= '9'),
        decreases len - pos,
    {
        let c = fen.get_char(pos);
        if '0' <= c && c <= '9' {
            let d = (c as u32) - ('0' as u32);
            value = if value > 429496728 {
                u32::MAX
            } else {
                value * 10 + d
            };
            any = true;
            pos = pos + 1;
        } else {
            break ;
        }
    }
    if any {
        Some((value, pos))
    } else {
        None
    }
}

/// Both kings found singly means the board's king planes are single.
proof fn lemma_kings_single(b: crate::board::BoardV, wk: Square, bk: Square)
    requires
        bv_wf(b),
        wk.wf(),
        bk.wf(),
        b.pieces[wk.index as int] == Some(pc(Player::White, PieceKind::King)),
        forall|j: int|
            0 <= j < 64 && #[trigger] b.pieces[j] == Some(pc(Player::White, PieceKind::King)) ==> j
                == wk.index as int,
        b.pieces[bk.index as int] == Some(pc(Player::Black, PieceKind::King)),
        forall|j: int|
            0 <= j < 64 && #[trigger] b.pieces[j] == Some(pc(Player::Black, PieceKind::King)) ==> j
                == bk.index as int,
    ensures
        kings_ok(b),
{
    assert(crate::board::piece_of_code(5) == pc(Player::White, PieceKind::King));
    assert(crate::board::piece_of_code(11) == pc(Player::Black, PieceKind::King));
    let wbb = crate::bitboard::Bitboard::from_bits(b.bbs[5]);
    assert(crate::board::bbs_has(b, 5, wk.index as int) == crate::bitboard::bit(
        b.bbs[5],
        wk.index as u64,
    ));
    assert(wbb.has(wk.index as int));
    assert forall|j: int| wbb.has(j) implies j == wk.index as int by {
        assert(crate::board::bbs_has(b, 5, j) == crate::bitboard::bit(b.bbs[5], j as u64));
        assert(b.pieces[j] == Some(pc(Player::White, PieceKind::King)));
    }
    let bbb = crate::bitboard::Bitboard::from_bits(b.bbs[11]);
    assert(crate::board::bbs_has(b, 11, bk.index as int) == crate::bitboard::bit(
        b.bbs[11],
        bk.index as u64,
    ));
    assert(bbb.has(bk.index as int));
    assert forall|j: int| bbb.has(j) implies j == bk.index as int by {
        assert(crate::board::bbs_has(b, 11, j) == crate::bitboard::bit(b.bbs[11], j as u64));
        assert(b.pieces[j] == Some(pc(Player::Black, PieceKind::King)));
    }
}

} // verus!
