//! Resetting the puzzle: scattering the pieces around the outside of the
//! puzzle, each to a side of its own.
use vstd::prelude::*;

verus! {

/// A reset of the pieces has been asked for and not yet carried out.
pub struct Reset(pub bool);

impl Reset {
    /// Whether a reset was asked for; it counts as carried out afterwards.
    pub fn consume(&mut self) -> (asked: bool)
        ensures
            asked == old(self).0,
            !final(self).0,
    {
        let asked = self.0;
        self.0 = false;
        asked
    }
}

impl Default for Reset {
    fn default() -> (r: Self)
        ensures
            !r.0,
    {
        Reset(false)
    }
}

/// A side of the puzzle that a piece can be scattered to.
#[derive(Clone, Copy, Debug, PartialEq, Eq, Structural)]
pub enum Side {
    Left,
    Top,
    Bottom,
    Right,
}

/// The side numbered `index`: 0 left, 1 top, 2 bottom, 3 right.
pub fn side_from_index(index: u8) -> (side: Side)
    requires
        index < 4,
    ensures
        side == match index {
            0 => Side::Left,
            1 => Side::Top,
            2 => Side::Bottom,
            _ => Side::Right,
        },
{
    match index {
        0 => Side::Left,
        1 => Side::Top,
        2 => Side::Bottom,
        _ => Side::Right,
    }
}

} // verus!
