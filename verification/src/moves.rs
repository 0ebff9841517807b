//! Moves: source, destination, and an optional promotion.
//!
//! Castling is encoded as a king move two files sideways; en passant as a
//! pawn capture onto the en-passant target square.

use vstd::prelude::*;
use crate::piece::PromotionPieceKind;
use crate::square::Square;

verus! {

/// A move of the side to play.
#[derive(Clone, Copy, Debug, PartialEq, Eq, Structural)]
pub struct Move {
    pub src: Square,
    pub dst: Square,
    pub promotion: Option<PromotionPieceKind>,
}

impl Move {
    pub open spec fn wf(self) -> bool {
        self.src.wf() && self.dst.wf()
    }

    #[verifier::allow_in_spec]
    pub fn new(src: Square, dst: Square) -> Move
        returns
            (Move { src, dst, promotion: None }),
    {
        Move { src, dst, promotion: None }
    }

    #[verifier::allow_in_spec]
    pub fn new_with_promotion(src: Square, dst: Square, promotion: PromotionPieceKind) -> Move
        returns
            (Move { src, dst, promotion: Some(promotion) }),
    {
        Move { src, dst, promotion: Some(promotion) }
    }
}

} // verus!
