//! Static road geometry, kept only for a renderer to draw.

use crate::direction::Orientation;
use crate::units::MAX_POS;
use vstd::prelude::*;

verus! {

/// One road of the intersection: a centred strip of a given half-width,
/// horizontal or vertical. Pure rendering data; no car reads it.
#[derive(Clone, Copy, PartialEq, Eq, Structural, Debug)]
pub struct Road {
    pub pos_x: i64,
    pub pos_y: i64,
    pub half_width: i64,
    pub orientation: Orientation,
}

impl Road {
    /// Creates a road centred at the given point with the given full width.
    pub fn new(pos_x: i64, pos_y: i64, width: i64, orientation: Orientation) -> (r: Road)
        requires
            0 <= width <= MAX_POS,
        ensures
            r == (Road { pos_x, pos_y, half_width: (width / 2) as i64, orientation }),
    {
        Road { pos_x, pos_y, half_width: width / 2, orientation }
    }
}

} // verus!
