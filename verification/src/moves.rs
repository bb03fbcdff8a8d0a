//! A chess move as plain values: source and destination square indices in
//! rank-major order, and a promotion code (`0..=5` a piece kind,
//! `NO_PROMOTION` none). Everything the engine's own logic reads of a move
//! is here; the board library's move type appears only at the boundary.

use vstd::prelude::*;

verus! {

/// Promotion code meaning "not a promotion".
pub const NO_PROMOTION: u8 = 6;

/// Number of piece kinds (pawn, knight, bishop, rook, queen, king).
pub const PIECE_KINDS: u8 = 6;

/// Piece-kind code of a queen.
pub const QUEEN: u8 = 4;

#[derive(Debug, Clone, Copy, PartialEq, Eq, Structural, Hash)]
pub struct MoveData {
    pub from: u8,
    pub to: u8,
    pub promotion: u8,
}

impl MoveData {
    pub open spec fn wf(self) -> bool {
        &&& self.from < 64
        &&& self.to < 64
        &&& self.promotion <= NO_PROMOTION
    }

    pub fn new(from: u8, to: u8, promotion: u8) -> (r: Self)
        requires
            from < 64,
            to < 64,
            promotion <= NO_PROMOTION,
        ensures
            r == (MoveData { from, to, promotion }),
            r.wf(),
    {
        MoveData { from, to, promotion }
    }

    pub open spec fn is_promotion_spec(self) -> bool {
        self.promotion < NO_PROMOTION
    }

    pub fn is_promotion(&self) -> (r: bool)
        ensures
            r == self.is_promotion_spec(),
    {
        self.promotion < NO_PROMOTION
    }
}

} // verus!
