//! The board: one bitboard per (player, kind) plus a square -> piece mirror.
//!
//! The invariant `bv_wf` ties the two representations together: a bitboard
//! has square `i` set exactly when the mirror holds that piece at `i`.

use vstd::prelude::*;
use crate::bitboard::{bit, Bitboard};
use crate::piece::{Piece, PieceKind, Player};
use crate::square::Square;

verus! {

/// The six piece bitboards of one player.
#[derive(Clone, Copy, Debug, PartialEq, Eq, Structural)]
pub struct PlayerPieces {
    pub pawns: Bitboard,
    pub knights: Bitboard,
    pub bishops: Bitboard,
    pub rooks: Bitboard,
    pub queens: Bitboard,
    pub king: Bitboard,
}

impl PlayerPieces {
    /// All squares occupied by this player.
    pub fn all(&self) -> (r: Bitboard)
        ensures
            forall|j: int|
                r.has(j) <==> (self.pawns.has(j) || self.knights.has(j) || self.bishops.has(j)
                    || self.rooks.has(j) || self.queens.has(j) || self.king.has(j)),
    {
        self.pawns.union(self.knights).union(self.bishops).union(self.rooks).union(
            self.queens,
        ).union(self.king)
    }
}

/// The board: bitboards for both players and the square -> piece mirror.
#[derive(Clone, Copy, Debug)]
pub struct Board {
    pub white_pieces: PlayerPieces,
    pub black_pieces: PlayerPieces,
    pub pieces: [Option<Piece>; 64],
}

/// The mathematical model of a board: the twelve bitboards in piece-code
/// order, and the mirror as a sequence.
#[verifier::ext_equal]
pub struct BoardV {
    pub bbs: Seq<u64>,
    pub pieces: Seq<Option<Piece>>,
}

/// The piece with code `c`, inverse of `Piece::code`.
pub open spec fn piece_of_code(c: int) -> Piece {
    let player = if c < 6 {
        Player::White
    } else {
        Player::Black
    };
    let k = if c < 6 {
        c
    } else {
        c - 6
    };
    let kind = if k == 0 {
        PieceKind::Pawn
    } else if k == 1 {
        PieceKind::Knight
    } else if k == 2 {
        PieceKind::Bishop
    } else if k == 3 {
        PieceKind::Rook
    } else if k == 4 {
        PieceKind::Queen
    } else {
        PieceKind::King
    };
    Piece { player, kind }
}

/// Square `i` of bitboard `c` in the model.
pub open spec fn bbs_has(b: BoardV, c: int, i: int) -> bool {
    bit(b.bbs[c], i as u64)
}

/// Well-formedness: the mirror and the bitboards describe the same position.
pub open spec fn bv_wf(b: BoardV) -> bool {
    &&& b.bbs.len() == 12
    &&& b.pieces.len() == 64
    &&& forall|i: int, c: int|
        0 <= i < 64 && 0 <= c < 12 ==> (#[trigger] bbs_has(b, c, i) <==> b.pieces[i] == Some(
            piece_of_code(c),
        ))
}

/// Placing `p` on the empty square `i`.
pub open spec fn board_set(b: BoardV, i: int, p: Piece) -> BoardV {
    let c = p.code() as int;
    BoardV {
        bbs: b.bbs.update(c, b.bbs[c] | (1u64 << (i as u64))),
        pieces: b.pieces.update(i, Some(p)),
    }
}

/// Clearing square `i`; the identity if the square is empty.
pub open spec fn board_remove(b: BoardV, i: int) -> BoardV {
    match b.pieces[i] {
        None => b,
        Some(p) => {
            let c = p.code() as int;
            BoardV {
                bbs: b.bbs.update(c, b.bbs[c] & !(1u64 << (i as u64))),
                pieces: b.pieces.update(i, None),
            }
        },
    }
}

pub proof fn lemma_code_of_piece(p: Piece)
    ensures
        0 <= p.code() < 12,
        piece_of_code(p.code() as int) == p,
{
}

pub proof fn lemma_piece_of_code(c: int)
    requires
        0 <= c < 12,
    ensures
        piece_of_code(c).code() as int == c,
{
}

pub proof fn lemma_board_set_wf(b: BoardV, i: int, p: Piece)
    requires
        bv_wf(b),
        0 <= i < 64,
        b.pieces[i] is None,
    ensures
        bv_wf(board_set(b, i, p)),
{
    let nb = board_set(b, i, p);
    let pc = p.code() as int;
    lemma_code_of_piece(p);
    assert forall|i2: int, c2: int| 0 <= i2 < 64 && 0 <= c2 < 12 implies (#[trigger] bbs_has(
        nb,
        c2,
        i2,
    ) <==> nb.pieces[i2] == Some(piece_of_code(c2))) by {
        lemma_piece_of_code(c2);
        assert(bbs_has(b, c2, i2) <==> b.pieces[i2] == Some(piece_of_code(c2)));
        if c2 == pc {
            crate::bitboard::lemma_bit_set(b.bbs[pc], i as u64);
        }
    }
}

pub proof fn lemma_board_remove_wf(b: BoardV, i: int)
    requires
        bv_wf(b),
        0 <= i < 64,
    ensures
        bv_wf(board_remove(b, i)),
{
    let nb = board_remove(b, i);
    match b.pieces[i] {
        None => {},
        Some(p) => {
            let pc = p.code() as int;
            lemma_code_of_piece(p);
            assert forall|i2: int, c2: int| 0 <= i2 < 64 && 0 <= c2 < 12 implies (
            #[trigger] bbs_has(nb, c2, i2) <==> nb.pieces[i2] == Some(piece_of_code(c2))) by {
                lemma_piece_of_code(c2);
                assert(bbs_has(b, c2, i2) <==> b.pieces[i2] == Some(piece_of_code(c2)));
                if c2 == pc {
                    crate::bitboard::lemma_bit_unset(b.bbs[pc], i as u64);
                }
            }
        },
    }
}

impl View for Board {
    type V = BoardV;

    open spec fn view(&self) -> BoardV {
        BoardV {
            bbs: seq![
                self.white_pieces.pawns.bits,
                self.white_pieces.knights.bits,
                self.white_pieces.bishops.bits,
                self.white_pieces.rooks.bits,
                self.white_pieces.queens.bits,
                self.white_pieces.king.bits,
                self.black_pieces.pawns.bits,
                self.black_pieces.knights.bits,
                self.black_pieces.bishops.bits,
                self.black_pieces.rooks.bits,
                self.black_pieces.queens.bits,
                self.black_pieces.king.bits,
            ],
            pieces: self.pieces@,
        }
    }
}

impl Board {
    /// The piece standing on `square`, if any.
    pub fn piece_at(&self, square: Square) -> (r: Option<Piece>)
        requires
            square.wf(),
        ensures
            r == self@.pieces[square.index as int],
    {
        self.pieces[square.index as usize]
    }

    /// The piece bitboards of `player`.
    pub fn player_pieces(&self, player: Player) -> (r: &PlayerPieces)
        ensures
            *r == (match player {
                Player::White => self.white_pieces,
                Player::Black => self.black_pieces,
            }),
    {
        match player {
            Player::White => &self.white_pieces,
            Player::Black => &self.black_pieces,
        }
    }

    /// Place `piece` on the empty square `square`, in bitboard and mirror.
    pub fn set_at(&mut self, square: Square, piece: Piece)
        requires
            bv_wf(old(self)@),
            square.wf(),
            old(self)@.pieces[square.index as int] is None,
        ensures
            final(self)@ == board_set(old(self)@, square.index as int, piece),
            bv_wf(final(self)@),
    {
        proof {
            lemma_board_set_wf(old(self)@, square.index as int, piece);
        }
        match piece.player {
            Player::White => match piece.kind {
                PieceKind::Pawn => {
                    self.white_pieces.pawns = self.white_pieces.pawns.set(square);
                },
                PieceKind::Knight => {
                    self.white_pieces.knights = self.white_pieces.knights.set(square);
                },
                PieceKind::Bishop => {
                    self.white_pieces.bishops = self.white_pieces.bishops.set(square);
                },
                PieceKind::Rook => {
                    self.white_pieces.rooks = self.white_pieces.rooks.set(square);
                },
                PieceKind::Queen => {
                    self.white_pieces.queens = self.white_pieces.queens.set(square);
                },
                PieceKind::King => {
                    self.white_pieces.king = self.white_pieces.king.set(square);
                },
            },
            Player::Black => match piece.kind {
                PieceKind::Pawn => {
                    self.black_pieces.pawns = self.black_pieces.pawns.set(square);
                },
                PieceKind::Knight => {
                    self.black_pieces.knights = self.black_pieces.knights.set(square);
                },
                PieceKind::Bishop => {
                    self.black_pieces.bishops = self.black_pieces.bishops.set(square);
                },
                PieceKind::Rook => {
                    self.black_pieces.rooks = self.black_pieces.rooks.set(square);
                },
                PieceKind::Queen => {
                    self.black_pieces.queens = self.black_pieces.queens.set(square);
                },
                PieceKind::King => {
                    self.black_pieces.king = self.black_pieces.king.set(square);
                },
            },
        }
        self.pieces[square.index as usize] = Some(piece);
        proof {
            assert(self@.bbs =~= board_set(old(self)@, square.index as int, piece).bbs);
            assert(self@.pieces =~= board_set(old(self)@, square.index as int, piece).pieces);
        }
    }

    /// Clear `square`; reports whether a piece stood there.
    pub fn remove_at(&mut self, square: Square) -> (r: bool)
        requires
            bv_wf(old(self)@),
            square.wf(),
        ensures
            final(self)@ == board_remove(old(self)@, square.index as int),
            bv_wf(final(self)@),
            r == old(self)@.pieces[square.index as int] is Some,
    {
        proof {
            lemma_board_remove_wf(old(self)@, square.index as int);
        }
        let piece = match self.pieces[square.index as usize] {
            None => {
                return false;
            },
            Some(p) => p,
        };
        match piece.player {
            Player::White => match piece.kind {
                PieceKind::Pawn => {
                    self.white_pieces.pawns = self.white_pieces.pawns.unset(square);
                },
                PieceKind::Knight => {
                    self.white_pieces.knights = self.white_pieces.knights.unset(square);
                },
                PieceKind::Bishop => {
                    self.white_pieces.bishops = self.white_pieces.bishops.unset(square);
                },
                PieceKind::Rook => {
                    self.white_pieces.rooks = self.white_pieces.rooks.unset(square);
                },
                PieceKind::Queen => {
                    self.white_pieces.queens = self.white_pieces.queens.unset(square);
                },
                PieceKind::King => {
                    self.white_pieces.king = self.white_pieces.king.unset(square);
                },
            },
            Player::Black => match piece.kind {
                PieceKind::Pawn => {
                    self.black_pieces.pawns = self.black_pieces.pawns.unset(square);
                },
                PieceKind::Knight => {
                    self.black_pieces.knights = self.black_pieces.knights.unset(square);
                },
                PieceKind::Bishop => {
                    self.black_pieces.bishops = self.black_pieces.bishops.unset(square);
                },
                PieceKind::Rook => {
                    self.black_pieces.rooks = self.black_pieces.rooks.unset(square);
                },
                PieceKind::Queen => {
                    self.black_pieces.queens = self.black_pieces.queens.unset(square);
                },
                PieceKind::King => {
                    self.black_pieces.king = self.black_pieces.king.unset(square);
                },
            },
        }
        self.pieces[square.index as usize] = None;
        proof {
            assert(self@.bbs =~= board_remove(old(self)@, square.index as int).bbs);
            assert(self@.pieces =~= board_remove(old(self)@, square.index as int).pieces);
        }
        true
    }

    /// An empty board.
    pub fn empty() -> (r: Board)
        ensures
            bv_wf(r@),
            forall|i: int| 0 <= i < 64 ==> r@.pieces[i] is None,
    {
        let b = Board {
            white_pieces: PlayerPieces {
                pawns: Bitboard::empty(),
                knights: Bitboard::empty(),
                bishops: Bitboard::empty(),
                rooks: Bitboard::empty(),
                queens: Bitboard::empty(),
                king: Bitboard::empty(),
            },
            black_pieces: PlayerPieces {
                pawns: Bitboard::empty(),
                knights: Bitboard::empty(),
                bishops: Bitboard::empty(),
                rooks: Bitboard::empty(),
                queens: Bitboard::empty(),
                king: Bitboard::empty(),
            },
            pieces: [None; 64],
        };
        proof {
            crate::bitboard::lemma_bit_zero();
        }
        b
    }

    /// The board holding exactly the pieces of `pieces`.
    pub fn from_pieces(pieces: &[Option<Piece>; 64]) -> (r: Board)
        ensures
            bv_wf(r@),
            r@.pieces =~= pieces@,
    {
        let mut b = Board::empty();
        let mut i: u8 = 0;
        while i < 64
            invariant
                i <= 64,
                bv_wf(b@),
                forall|j: int| 0 <= j < i ==> b@.pieces[j] == pieces@[j],
                forall|j: int| i <= j < 64 ==> b@.pieces[j] is None,
            decreases 64 - i,
        {
            match pieces[i as usize] {
                None => {},
                Some(p) => {
                    b.set_at(Square { index: i }, p);
                },
            }
            i = i + 1;
        }
        b
    }

    /// The standard chess starting position.
    pub fn start() -> (r: Board)
        ensures
            bv_wf(r@),
            forall|i: int| 0 <= i < 64 ==> r@.pieces[i] == start_piece(i),
    {
        let mut pieces: [Option<Piece>; 64] = [None; 64];
        let mut i: u8 = 0;
        while i < 64
            invariant
                i <= 64,
                forall|j: int| 0 <= j < i ==> pieces@[j] == start_piece(j),
            decreases 64 - i,
        {
            pieces[i as usize] = start_piece_at(i);
            i = i + 1;
        }
        Board::from_pieces(&pieces)
    }
}

/// The piece on square `i` in the starting position.
pub open spec fn start_piece(i: int) -> Option<Piece> {
    let rank = i / 8;
    let file = i % 8;
    if rank == 1 {
        Some(Piece { player: Player::White, kind: PieceKind::Pawn })
    } else if rank == 6 {
        Some(Piece { player: Player::Black, kind: PieceKind::Pawn })
    } else if rank == 0 || rank == 7 {
        let player = if rank == 0 {
            Player::White
        } else {
            Player::Black
        };
        let kind = if file == 0 || file == 7 {
            PieceKind::Rook
        } else if file == 1 || file == 6 {
            PieceKind::Knight
        } else if file == 2 || file == 5 {
            PieceKind::Bishop
        } else if file == 3 {
            PieceKind::Queen
        } else {
            PieceKind::King
        };
        Some(Piece { player, kind })
    } else {
        None
    }
}

fn start_piece_at(i: u8) -> (r: Option<Piece>)
    requires
        i < 64,
    ensures
        r == start_piece(i as int),
{
    let rank = i / 8;
    let file = i % 8;
    if rank == 1 {
        Some(Piece { player: Player::White, kind: PieceKind::Pawn })
    } else if rank == 6 {
        Some(Piece { player: Player::Black, kind: PieceKind::Pawn })
    } else if rank == 0 || rank == 7 {
        let player = if rank == 0 {
            Player::White
        } else {
            Player::Black
        };
        let kind = if file == 0 || file == 7 {
            PieceKind::Rook
        } else if file == 1 || file == 6 {
            PieceKind::Knight
        } else if file == 2 || file == 5 {
            PieceKind::Bishop
        } else if file == 3 {
            PieceKind::Queen
        } else {
            PieceKind::King
        };
        Some(Piece { player, kind })
    } else {
        None
    }
}

} // verus!
