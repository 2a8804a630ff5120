//! Fixed-point units and the bounds that keep every computation inside `i64`.
//!
//! A scalar quantity (a coordinate along a lane, a speed, a duration) is an
//! `i64` holding one thousandth of the nominal unit: a position of `8.0`
//! units is stored as `8000`, a time step of `0.1` seconds as `100`
//! milliseconds. Speeds are milli-units per second, so a car moving at
//! speed `v` for `dt` milliseconds advances by `v * dt / 1000` milli-units.

use vstd::prelude::*;

verus! {

/// Fixed-point scale: milli-units per unit, and milliseconds per second.
pub const SCALE: i64 = 1000;

/// Largest magnitude allowed for a coordinate, length, gap or margin.
pub const MAX_POS: i64 = 1_000_000_000_000;

/// Largest speed allowed, in milli-units per second.
pub const MAX_SPEED: i64 = 1_000_000_000;

/// Largest time step and phase duration allowed, in milliseconds.
pub const MAX_DT: i64 = 1_000_000;

/// Distance covered by a car moving at `speed` milli-units per second for
/// `dt` milliseconds. Exact integer arithmetic: the product is scaled back
/// down by `SCALE`.
pub open spec fn advance_amount(speed: int, dt: int) -> int {
    speed * dt / (SCALE as int)
}

/// The advance of a bounded speed over a bounded time step stays small.
pub proof fn lemma_advance_bounds(speed: int, dt: int)
    requires
        0 <= speed <= MAX_SPEED,
        0 <= dt <= MAX_DT,
    ensures
        0 <= advance_amount(speed, dt) <= MAX_POS,
{
    assert(0 <= speed * dt <= MAX_SPEED * MAX_DT) by (nonlinear_arith)
        requires
            0 <= speed <= MAX_SPEED,
            0 <= dt <= MAX_DT,
    ;
    assert(0 <= speed * dt / (SCALE as int) <= MAX_POS) by (nonlinear_arith)
        requires
            0 <= speed * dt <= 1_000_000_000_000_000int,
    ;
}

/// Computes `speed * dt / SCALE` in executable code.
pub fn advance_by(speed: i64, dt: i64) -> (r: i64)
    requires
        0 <= speed <= MAX_SPEED,
        0 <= dt <= MAX_DT,
    ensures
        r == advance_amount(speed as int, dt as int),
        0 <= r <= MAX_POS,
{
    proof {
        lemma_advance_bounds(speed as int, dt as int);
        assert(speed * dt <= MAX_SPEED * MAX_DT) by (nonlinear_arith)
            requires
                0 <= speed <= MAX_SPEED,
                0 <= dt <= MAX_DT,
        ;
    }
    (speed * dt) / SCALE
}

} // verus!
