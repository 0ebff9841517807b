//! Players, piece kinds and pieces.

use vstd::prelude::*;

verus! {

/// One of the two sides.
#[derive(Clone, Copy, Debug, PartialEq, Eq, Structural)]
pub enum Player {
    White,
    Black,
}

impl Player {
    /// The opponent of this player.
    #[verifier::allow_in_spec]
    pub fn other(self) -> Player
        returns
            (match self {
                Player::White => Player::Black,
                Player::Black => Player::White,
            }),
    {
        match self {
            Player::White => Player::Black,
            Player::Black => Player::White,
        }
    }
}

/// The six kinds of chess piece.
#[derive(Clone, Copy, Debug, PartialEq, Eq, Structural)]
pub enum PieceKind {
    Pawn,
    Knight,
    Bishop,
    Rook,
    Queen,
    King,
}

impl PieceKind {
    /// A stable numbering of the kinds, used for table lookups and hashing.
    #[verifier::allow_in_spec]
    pub fn code(self) -> u8
        returns
            (match self {
                PieceKind::Pawn => 0u8,
                PieceKind::Knight => 1u8,
                PieceKind::Bishop => 2u8,
                PieceKind::Rook => 3u8,
                PieceKind::Queen => 4u8,
                PieceKind::King => 5u8,
            }),
    {
        match self {
            PieceKind::Pawn => 0,
            PieceKind::Knight => 1,
            PieceKind::Bishop => 2,
            PieceKind::Rook => 3,
            PieceKind::Queen => 4,
            PieceKind::King => 5,
        }
    }
}

/// The kinds a pawn may promote to.
#[derive(Clone, Copy, Debug, PartialEq, Eq, Structural)]
pub enum PromotionPieceKind {
    Knight,
    Bishop,
    Rook,
    Queen,
}

impl PromotionPieceKind {
    /// The piece kind this promotion produces.
    #[verifier::allow_in_spec]
    pub fn piece_kind(self) -> PieceKind
        returns
            (match self {
                PromotionPieceKind::Knight => PieceKind::Knight,
                PromotionPieceKind::Bishop => PieceKind::Bishop,
                PromotionPieceKind::Rook => PieceKind::Rook,
                PromotionPieceKind::Queen => PieceKind::Queen,
            }),
    {
        match self {
            PromotionPieceKind::Knight => PieceKind::Knight,
            PromotionPieceKind::Bishop => PieceKind::Bishop,
            PromotionPieceKind::Rook => PieceKind::Rook,
            PromotionPieceKind::Queen => PieceKind::Queen,
        }
    }
}

/// A piece: a kind owned by a player.
#[derive(Clone, Copy, Debug, PartialEq, Eq, Structural)]
pub struct Piece {
    pub player: Player,
    pub kind: PieceKind,
}

impl Piece {
    #[verifier::allow_in_spec]
    pub fn new(player: Player, kind: PieceKind) -> Piece
        returns
            (Piece { player, kind }),
    {
        Piece { player, kind }
    }

    /// A stable numbering of the twelve (player, kind) pairs.
    #[verifier::allow_in_spec]
    pub fn code(self) -> u8
        returns
            ((match self.player {
                Player::White => 0u8,
                Player::Black => 6u8,
            } + self.kind.code()) as u8),
    {
        let base: u8 = match self.player {
            Player::White => 0,
            Player::Black => 6,
        };
        base + self.kind.code()
    }
}

} // verus!
