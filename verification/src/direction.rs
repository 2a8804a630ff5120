//! Travel direction along a lane and lane orientation in the plane.

use vstd::prelude::*;

verus! {

/// Which way positions increase for traffic in a lane.
#[derive(Clone, Copy, PartialEq, Eq, Structural, Debug)]
pub enum Direction {
    Forward,
    Backward,
}

/// How a lane is laid out in the plane; used only to place cars and
/// lights for a renderer.
#[derive(Clone, Copy, PartialEq, Eq, Structural, Debug)]
pub enum Orientation {
    Horizontal,
    Vertical,
}

impl Direction {
    /// The sign by which a travel direction scales coordinates: `+1`
    /// forward, `-1` backward.
    pub open spec fn sign_spec(self) -> int {
        match self {
            Direction::Forward => 1,
            Direction::Backward => -1,
        }
    }

    /// Executable counterpart of [`Direction::sign_spec`]; the one place
    /// the direction-to-sign mapping is defined.
    pub fn sign(self) -> (s: i64)
        ensures
            s == self.sign_spec(),
    {
        match self {
            Direction::Forward => 1,
            Direction::Backward => -1,
        }
    }

    /// Multiplies `x` by this direction's sign, exactly.
    pub fn signed(self, x: i64) -> (r: i64)
        requires
            x > i64::MIN,
        ensures
            r == self.sign_spec() * x,
    {
        match self {
            Direction::Forward => x,
            Direction::Backward => -x,
        }
    }
}

} // verus!
