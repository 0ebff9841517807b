//! Castling rights of one player.

use vstd::prelude::*;

verus! {

/// May this player still castle king-side / queen-side?
#[derive(Clone, Copy, Debug, PartialEq, Eq, Structural)]
pub struct CastleRights {
    pub king_side: bool,
    pub queen_side: bool,
}

impl CastleRights {
    #[verifier::allow_in_spec]
    pub fn none() -> CastleRights
        returns
            (CastleRights { king_side: false, queen_side: false }),
    {
        CastleRights { king_side: false, queen_side: false }
    }

    #[verifier::allow_in_spec]
    pub fn both() -> CastleRights
        returns
            (CastleRights { king_side: true, queen_side: true }),
    {
        CastleRights { king_side: true, queen_side: true }
    }

    #[verifier::allow_in_spec]
    pub fn can_castle(self) -> bool
        returns
            (self.king_side || self.queen_side),
    {
        self.king_side || self.queen_side
    }


    #[verifier::allow_in_spec]
    pub fn without_king_side(self) -> CastleRights
        returns
            (CastleRights { king_side: false, queen_side: self.queen_side }),
    {
        CastleRights { king_side: false, queen_side: self.queen_side }
    }

    #[verifier::allow_in_spec]
    pub fn without_queen_side(self) -> CastleRights
        returns
            (CastleRights { king_side: self.king_side, queen_side: false }),
    {
        CastleRights { king_side: self.king_side, queen_side: false }
    }
}

} // verus!
