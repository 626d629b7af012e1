//! Shape variants and their areas.
//!
//! [`Shape`] is a closed, tagged union: a value is exactly one of a
//! circle, a rectangle or a square, carrying its fixed-point dimensions.
//! The area is computed by one exhaustive match, so adding a variant
//! breaks every dispatch site until it is handled. Constructors reject
//! negative dimensions; a constructed shape is immutable.

use vstd::arithmetic::div_mod::lemma_div_is_ordered;
use vstd::arithmetic::div_mod::lemma_fundamental_div_mod;
use vstd::arithmetic::div_mod::lemma_mod_bound;
use vstd::prelude::*;

use crate::fixed::Fixed;
use crate::fixed::PI_UNITS;
use crate::fixed::SCALE;
use crate::outcome::FailureReason;
use crate::outcome::Outcome;

verus! {

/// A closed set of shape variants, each carrying fixed-point dimensions.
#[derive(Clone, Copy, Debug, PartialEq, Eq, Structural)]
pub enum Shape {
    /// A circle with the given radius.
    Circle(Fixed),
    /// A rectangle with the given width and height.
    Rectangle(Fixed, Fixed),
    /// A square with the given side.
    Square(Fixed),
}

/// Largest dimension, in units, for which an area is computed: one
/// thousand five hundred wholes. It keeps every intermediate product
/// representable.
pub const MAX_DIM_UNITS: i64 = 1_500_000_000_000_000;

impl Shape {
    /// Every dimension of the shape is non-negative. Constructors
    /// establish this, and shapes are immutable once constructed.
    pub open spec fn wf(self) -> bool {
        match self {
            Shape::Circle(r) => r.units >= 0,
            Shape::Rectangle(w, h) => w.units >= 0 && h.units >= 0,
            Shape::Square(s) => s.units >= 0,
        }
    }

    /// Every dimension is small enough for the area to stay inside the
    /// fixed-point range.
    pub open spec fn in_range(self) -> bool {
        match self {
            Shape::Circle(r) => r.units <= MAX_DIM_UNITS,
            Shape::Rectangle(w, h) => w.units <= MAX_DIM_UNITS && h.units <= MAX_DIM_UNITS,
            Shape::Square(s) => s.units <= MAX_DIM_UNITS,
        }
    }

    /// The area of the shape in fixed-point units: pi times radius
    /// squared for a circle, width times height for a rectangle, side
    /// squared for a square, each truncated to whole units. The circle
    /// divides in two stages -- the squared radius is brought back to
    /// units before the pi factor -- so the intermediate product stays
    /// representable; the truncation this adds is below five trillionths
    /// of a whole (see `lemma_circle_area_bracket`).
    pub open spec fn area_units(self) -> int {
        match self {
            Shape::Circle(r) => ((PI_UNITS as int) * (((r.units as int) * (r.units as int)) / (
            SCALE as int))) / (SCALE as int),
            Shape::Rectangle(w, h) => ((w.units as int) * (h.units as int)) / (SCALE as int),
            Shape::Square(s) => ((s.units as int) * (s.units as int)) / (SCALE as int),
        }
    }

    /// A circle with the given radius; rejected with `NegativeInput`
    /// exactly when the radius is negative.
    pub fn circle(radius: Fixed) -> (r: Outcome<Shape>)
        ensures
            match r {
                Outcome::Failure(reason) => radius.units < 0 && reason
                    == FailureReason::NegativeInput,
                Outcome::Success(s) => radius.units >= 0 && s == Shape::Circle(radius),
            },
    {
        if radius.units < 0 {
            Outcome::Failure(FailureReason::NegativeInput)
        } else {
            Outcome::Success(Shape::Circle(radius))
        }
    }

    /// A rectangle with the given width and height; rejected with
    /// `NegativeInput` exactly when either dimension is negative.
    pub fn rectangle(width: Fixed, height: Fixed) -> (r: Outcome<Shape>)
        ensures
            match r {
                Outcome::Failure(reason) => (width.units < 0 || height.units < 0) && reason
                    == FailureReason::NegativeInput,
                Outcome::Success(s) => width.units >= 0 && height.units >= 0 && s
                    == Shape::Rectangle(width, height),
            },
    {
        if width.units < 0 || height.units < 0 {
            Outcome::Failure(FailureReason::NegativeInput)
        } else {
            Outcome::Success(Shape::Rectangle(width, height))
        }
    }

    /// A square with the given side; rejected with `NegativeInput`
    /// exactly when the side is negative.
    pub fn square(side: Fixed) -> (r: Outcome<Shape>)
        ensures
            match r {
                Outcome::Failure(reason) => side.units < 0 && reason
                    == FailureReason::NegativeInput,
                Outcome::Success(s) => side.units >= 0 && s == Shape::Square(side),
            },
    {
        if side.units < 0 {
            Outcome::Failure(FailureReason::NegativeInput)
        } else {
            Outcome::Success(Shape::Square(side))
        }
    }

    /// The area of the shape, dispatched exhaustively over the variants.
    pub fn area(&self) -> (a: Fixed)
        requires
            self.wf(),
            self.in_range(),
        ensures
            a.units == self.area_units(),
            a.units >= 0,
    {
        match self {
            Shape::Circle(r) => {
                let ru: u128 = r.units as u128;
                proof {
                    assert(ru <= 1_500_000_000_000_000u128);
                    assert(ru * ru <= 1_500_000_000_000_000u128 * 1_500_000_000_000_000u128)
                        by (nonlinear_arith)
                        requires
                            ru <= 1_500_000_000_000_000u128,
                    ;
                }
                let rsq: u128 = ru * ru;
                let t: u128 = rsq / (SCALE as u128);
                proof {
                    assert(SCALE as u128 == 1_000_000_000_000u128);
                    lemma_div_is_ordered(
                        rsq as int,
                        1_500_000_000_000_000u128 * 1_500_000_000_000_000u128,
                        1_000_000_000_000,
                    );
                    assert(t <= 2_250_000_000_000_000_000u128);
                    assert(PI_UNITS as u128 == 3_141_592_653_590u128);
                }
                let num: u128 = (PI_UNITS as u128) * t;
                let q: u128 = num / (SCALE as u128);
                proof {
                    lemma_div_is_ordered(
                        num as int,
                        3_141_592_653_590u128 * 2_250_000_000_000_000_000u128,
                        1_000_000_000_000,
                    );
                    assert(q <= i64::MAX as u128);
                    assert(q as int == self.area_units());
                }
                Fixed { units: q as i64 }
            },
            Shape::Rectangle(w, h) => {
                let wu: u128 = w.units as u128;
                let hu: u128 = h.units as u128;
                proof {
                    assert(wu * hu <= 1_500_000_000_000_000u128 * 1_500_000_000_000_000u128)
                        by (nonlinear_arith)
                        requires
                            wu <= 1_500_000_000_000_000u128,
                            hu <= 1_500_000_000_000_000u128,
                    ;
                }
                let num: u128 = wu * hu;
                let q: u128 = num / (SCALE as u128);
                proof {
                    lemma_div_is_ordered(
                        num as int,
                        1_500_000_000_000_000u128 * 1_500_000_000_000_000u128,
                        1_000_000_000_000,
                    );
                    assert(q <= i64::MAX as u128);
                    assert(q as int == self.area_units());
                }
                Fixed { units: q as i64 }
            },
            Shape::Square(s) => {
                let su: u128 = s.units as u128;
                proof {
                    assert(su * su <= 1_500_000_000_000_000u128 * 1_500_000_000_000_000u128)
                        by (nonlinear_arith)
                        requires
                            su <= 1_500_000_000_000_000u128,
                    ;
                }
                let num: u128 = su * su;
                let q: u128 = num / (SCALE as u128);
                proof {
                    lemma_div_is_ordered(
                        num as int,
                        1_500_000_000_000_000u128 * 1_500_000_000_000_000u128,
                        1_000_000_000_000,
                    );
                    assert(q <= i64::MAX as u128);
                    assert(q as int == self.area_units());
                }
                Fixed { units: q as i64 }
            },
        }
    }
}

/// A circle's area is pi times the radius squared: the computed area
/// falls short of the exact scaled product by less than one fixed-point
/// unit plus one scaled pi step -- under five trillionths of a whole.
pub proof fn lemma_circle_area_bracket(r: Fixed)
    requires
        r.units >= 0,
    ensures
        Shape::Circle(r).area_units() * ((SCALE as int) * (SCALE as int)) <= (PI_UNITS as int) * (
        r.units as int) * (r.units as int),
        (PI_UNITS as int) * (r.units as int) * (r.units as int) < (Shape::Circle(r).area_units()
            + 1) * ((SCALE as int) * (SCALE as int)) + (PI_UNITS as int) * (SCALE as int),
{
    let p: int = PI_UNITS as int;
    let s: int = SCALE as int;
    let ru: int = r.units as int;
    let t: int = (ru * ru) / s;
    let a: int = (p * t) / s;
    lemma_fundamental_div_mod(ru * ru, s);
    lemma_mod_bound(ru * ru, s);
    lemma_fundamental_div_mod(p * t, s);
    lemma_mod_bound(p * t, s);
    assert(s * t <= ru * ru < s * t + s);
    assert(s * a <= p * t < s * a + s);
    assert(a * (s * s) <= (s * a) * s) by (nonlinear_arith);
    assert((s * a) * s <= (p * t) * s) by (nonlinear_arith)
        requires
            s * a <= p * t,
            s > 0,
    ;
    assert((p * t) * s == p * (s * t)) by (nonlinear_arith);
    assert(p * (s * t) <= p * (ru * ru)) by (nonlinear_arith)
        requires
            s * t <= ru * ru,
            p > 0,
    ;
    assert(p * (ru * ru) == p * ru * ru) by (nonlinear_arith);
    assert(p * (ru * ru) < p * (s * t + s)) by (nonlinear_arith)
        requires
            ru * ru < s * t + s,
            p > 0,
    ;
    assert(p * (s * t + s) == (p * t) * s + p * s) by (nonlinear_arith);
    assert((p * t) * s < (s * a + s) * s) by (nonlinear_arith)
        requires
            p * t < s * a + s,
            s > 0,
    ;
    assert((s * a + s) * s == (a + 1) * (s * s)) by (nonlinear_arith);
}

/// A rectangle's area is width times height: within one fixed-point unit
/// always, and exact whenever the product lands on a whole unit.
pub proof fn lemma_rectangle_area_bracket(w: Fixed, h: Fixed)
    requires
        w.units >= 0,
        h.units >= 0,
    ensures
        Shape::Rectangle(w, h).area_units() * (SCALE as int) <= (w.units as int) * (h.units as int),
        (w.units as int) * (h.units as int) < (Shape::Rectangle(w, h).area_units() + 1) * (
        SCALE as int),
        ((w.units as int) * (h.units as int)) % (SCALE as int) == 0 ==> Shape::Rectangle(w,
            h,
        ).area_units() * (SCALE as int) == (w.units as int) * (h.units as int),
{
    let n: int = (w.units as int) * (h.units as int);
    let d: int = SCALE as int;
    lemma_fundamental_div_mod(n, d);
    lemma_mod_bound(n, d);
    assert((n / d) * d == d * (n / d)) by (nonlinear_arith);
    assert((n / d + 1) * d == d * (n / d) + d) by (nonlinear_arith);
}

/// A square's area is its side squared: within one fixed-point unit
/// always, and exact whenever the square lands on a whole unit.
pub proof fn lemma_square_area_bracket(s: Fixed)
    requires
        s.units >= 0,
    ensures
        Shape::Square(s).area_units() * (SCALE as int) <= (s.units as int) * (s.units as int),
        (s.units as int) * (s.units as int) < (Shape::Square(s).area_units() + 1) * (SCALE as int),
        ((s.units as int) * (s.units as int)) % (SCALE as int) == 0 ==> Shape::Square(
            s,
        ).area_units() * (SCALE as int) == (s.units as int) * (s.units as int),
{
    lemma_rectangle_area_bracket(s, s);
    lemma_square_is_rectangle(s);
}

/// A square is a rectangle with equal sides: the two areas agree.
pub proof fn lemma_square_is_rectangle(s: Fixed)
    ensures
        Shape::Square(s).area_units() == Shape::Rectangle(s, s).area_units(),
{
}

/// Area is a function of the shape alone: any two results that satisfy
/// the contract of `area` for the same shape are identical.
pub proof fn lemma_area_deterministic(s: Shape, a1: Fixed, a2: Fixed)
    requires
        a1.units == s.area_units(),
        a2.units == s.area_units(),
    ensures
        a1 == a2,
{
}

} // verus!
