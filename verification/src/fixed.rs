//! Fixed-point decimal numbers.
//!
//! A [`Fixed`] value is an `i64` count of units of one trillionth, so
//! twelve decimal places are represented exactly. All contracts in this
//! crate speak of the unit count directly, which keeps every statement in
//! plain integer arithmetic.

use vstd::prelude::*;

verus! {

/// Units per whole one: fixed-point values carry twelve decimal places.
pub const SCALE: i64 = 1_000_000_000_000;

/// The circle constant pi in fixed-point units, correctly rounded to
/// twelve decimal places.
pub const PI_UNITS: i64 = 3_141_592_653_590;

/// A fixed-point decimal number whose value is `units / SCALE`.
#[derive(Clone, Copy, Debug, PartialEq, Eq, Structural)]
pub struct Fixed {
    pub units: i64,
}

impl Fixed {
    /// The fixed-point representation of the whole number `n`.
    pub fn from_int(n: i64) -> (r: Fixed)
        requires
            -(i64::MAX / SCALE) <= n <= i64::MAX / SCALE,
        ensures
            r.units == n * SCALE,
    {
        Fixed { units: n * SCALE }
    }

    /// The fixed-point number holding exactly `units` units.
    pub fn from_units(units: i64) -> (r: Fixed)
        ensures
            r.units == units,
    {
        Fixed { units }
    }
}

} // verus!
