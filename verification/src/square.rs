//! Squares of the chess board, indexed 0..64 with file a..h = 0..7 and
//! rank 1..8 = 0..7, so that `index = rank * 8 + file`.

use vstd::prelude::*;

verus! {

/// A square of the board. Valid squares have `index < 64`.
#[derive(Clone, Copy, Debug, PartialEq, Eq, Structural)]
pub struct Square {
    pub index: u8,
}

impl Square {
    /// Is this a real square of the board?
    pub open spec fn wf(self) -> bool {
        self.index < 64
    }

    #[verifier::allow_in_spec]
    pub fn new(index: u8) -> Square
        requires
            index < 64,
        returns
            (Square { index }),
    {
        Square { index }
    }

    #[verifier::allow_in_spec]
    pub fn from_file_rank(file: u8, rank: u8) -> Square
        requires
            file < 8,
            rank < 8,
        returns
            (Square { index: (rank * 8 + file) as u8 }),
    {
        Square { index: rank * 8 + file }
    }

    /// The file of this square, a..h = 0..7.
    #[verifier::allow_in_spec]
    pub fn file(self) -> u8
        returns
            (self.index % 8) as u8,
    {
        self.index % 8
    }

    /// The rank of this square, 1..8 = 0..7.
    #[verifier::allow_in_spec]
    pub fn rank(self) -> u8
        returns
            (self.index / 8) as u8,
    {
        self.index / 8
    }
}

} // verus!
