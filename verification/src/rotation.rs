//! Turning a point of the cube by three angles.
//!
//! The turn is the product of three turns about the axes: first about the x
//! axis by gamma, next about the y axis by beta, last about the z axis by
//! alpha. Its sines and cosines are whole numbers of millionths, so that a
//! turned coordinate is an exact whole number of `TRIG_UNIT`³ parts of a
//! hundredth.

use vstd::prelude::*;
use crate::constants::CIRCLE_TOLERANCE;
use crate::constants::TRIG_UNIT;
use crate::constants::TRIG_UNIT_CUBED;

verus! {

/// The sines and cosines of the three angles, each in `TRIG_UNIT` parts.
pub struct Trig {
    pub sin_a: int,
    pub cos_a: int,
    pub sin_b: int,
    pub cos_b: int,
    pub sin_c: int,
    pub cos_c: int,
}

impl Trig {
    /// Every sine and cosine lies between minus one and one.
    pub open spec fn in_range(self) -> bool {
        &&& -TRIG_UNIT <= self.sin_a <= TRIG_UNIT
        &&& -TRIG_UNIT <= self.cos_a <= TRIG_UNIT
        &&& -TRIG_UNIT <= self.sin_b <= TRIG_UNIT
        &&& -TRIG_UNIT <= self.cos_b <= TRIG_UNIT
        &&& -TRIG_UNIT <= self.sin_c <= TRIG_UNIT
        &&& -TRIG_UNIT <= self.cos_c <= TRIG_UNIT
    }

    /// Whether a sine and a cosine can belong to one angle: the sum of their
    /// squares misses the square of `TRIG_UNIT` by no more than rounding each
    /// to a whole number of parts can bring about.
    pub open spec fn near_circle(sin: int, cos: int) -> bool {
        -CIRCLE_TOLERANCE <= sin * sin + cos * cos - TRIG_UNIT * TRIG_UNIT <= CIRCLE_TOLERANCE
    }

    /// Every sine and cosine lies between minus one and one, and each pair
    /// can belong to one angle.
    pub open spec fn wf(self) -> bool {
        &&& self.in_range()
        &&& Trig::near_circle(self.sin_a, self.cos_a)
        &&& Trig::near_circle(self.sin_b, self.cos_b)
        &&& Trig::near_circle(self.sin_c, self.cos_c)
    }

    /// The sines and cosines of three angles of zero.
    pub open spec fn zero() -> Trig {
        Trig {
            sin_a: 0,
            cos_a: TRIG_UNIT as int,
            sin_b: 0,
            cos_b: TRIG_UNIT as int,
            sin_c: 0,
            cos_c: TRIG_UNIT as int,
        }
    }
}

/// The x coordinate of the turned point (i, j, k), in `TRIG_UNIT`³ parts.
pub open spec fn rotated_x(i: int, j: int, k: int, t: Trig) -> int {
    i * t.cos_a * t.cos_b * TRIG_UNIT
        + j * t.cos_a * t.sin_b * t.sin_c
        - j * t.sin_a * t.cos_c * TRIG_UNIT
        + k * t.cos_a * t.sin_b * t.cos_c
        + k * t.sin_a * t.sin_c * TRIG_UNIT
}

/// The y coordinate of the turned point (i, j, k), in `TRIG_UNIT`³ parts.
pub open spec fn rotated_y(i: int, j: int, k: int, t: Trig) -> int {
    i * t.sin_a * t.cos_b * TRIG_UNIT
        + j * t.sin_a * t.sin_b * t.sin_c
        + j * t.cos_a * t.cos_c * TRIG_UNIT
        + k * t.sin_a * t.sin_b * t.cos_c
        - k * t.cos_a * t.sin_c * TRIG_UNIT
}

/// The z coordinate of the turned point (i, j, k), in `TRIG_UNIT`³ parts.
pub open spec fn rotated_z(i: int, j: int, k: int, t: Trig) -> int {
    -(i * t.sin_b * TRIG_UNIT * TRIG_UNIT)
        + j * t.cos_b * t.sin_c * TRIG_UNIT
        + k * t.cos_b * t.cos_c * TRIG_UNIT
}

/// The sines and cosines of the angles alpha, beta and gamma of one frame.
#[derive(Clone, Copy, Debug)]
pub struct Orientation {
    sin_a: i32,
    cos_a: i32,
    sin_b: i32,
    cos_b: i32,
    sin_c: i32,
    cos_c: i32,
}

impl View for Orientation {
    type V = Trig;

    closed spec fn view(&self) -> Trig {
        Trig {
            sin_a: self.sin_a as int,
            cos_a: self.cos_a as int,
            sin_b: self.sin_b as int,
            cos_b: self.cos_b as int,
            sin_c: self.sin_c as int,
            cos_c: self.cos_c as int,
        }
    }
}

/// Whether a sine or cosine lies between minus one and one.
fn is_trig_value(v: i32) -> (ok: bool)
    ensures
        ok == (-TRIG_UNIT <= v <= TRIG_UNIT),
{
    -TRIG_UNIT <= v && v <= TRIG_UNIT
}

/// Whether a sine and a cosine can belong to one angle.
fn is_trig_pair(sin: i32, cos: i32) -> (ok: bool)
    ensures
        ok == (-TRIG_UNIT <= sin <= TRIG_UNIT && -TRIG_UNIT <= cos <= TRIG_UNIT
            && Trig::near_circle(sin as int, cos as int)),
{
    if !is_trig_value(sin) || !is_trig_value(cos) {
        return false;
    }
    proof {
        assert(0 <= sin * sin <= 1_000_000_000_000) by (nonlinear_arith)
            requires
                -1_000_000 <= sin <= 1_000_000,
        ;
        assert(0 <= cos * cos <= 1_000_000_000_000) by (nonlinear_arith)
            requires
                -1_000_000 <= cos <= 1_000_000,
        ;
    }
    let s: i64 = sin as i64;
    let c: i64 = cos as i64;
    let unit: i64 = TRIG_UNIT as i64;
    let off: i64 = s * s + c * c - unit * unit;
    -(CIRCLE_TOLERANCE as i64) <= off && off <= CIRCLE_TOLERANCE as i64
}

impl Orientation {
    /// Holds of every orientation that exists.
    #[verifier::type_invariant]
    pub open spec fn well_formed(self) -> bool {
        self@.wf()
    }

    /// Takes the sines and cosines of alpha, beta and gamma, each in
    /// `TRIG_UNIT` parts, rounded to the nearest part. A value beyond minus
    /// one or one is refused, and so is a pair that lies too far from the
    /// unit circle to be the sine and cosine of one angle.
    pub fn new(sin_a: i32, cos_a: i32, sin_b: i32, cos_b: i32, sin_c: i32, cos_c: i32) -> (made:
        Option<Orientation>)
        ensures
            made is Some <==> (Trig {
                sin_a: sin_a as int,
                cos_a: cos_a as int,
                sin_b: sin_b as int,
                cos_b: cos_b as int,
                sin_c: sin_c as int,
                cos_c: cos_c as int,
            }).wf(),
            made is Some ==> made.unwrap()@ == (Trig {
                sin_a: sin_a as int,
                cos_a: cos_a as int,
                sin_b: sin_b as int,
                cos_b: cos_b as int,
                sin_c: sin_c as int,
                cos_c: cos_c as int,
            }),
    {
        if is_trig_pair(sin_a, cos_a) && is_trig_pair(sin_b, cos_b) && is_trig_pair(sin_c, cos_c) {
            Some(Orientation { sin_a, cos_a, sin_b, cos_b, sin_c, cos_c })
        } else {
            None
        }
    }

    /// The orientation in which all three angles are zero.
    pub fn identity() -> (made: Orientation)
        ensures
            made@ == Trig::zero(),
    {
        Orientation {
            sin_a: 0,
            cos_a: TRIG_UNIT,
            sin_b: 0,
            cos_b: TRIG_UNIT,
            sin_c: 0,
            cos_c: TRIG_UNIT,
        }
    }
}

/// The largest size of one term of a turned coordinate: a coordinate of the
/// cube times `TRIG_UNIT`³.
pub open spec fn term_limit() -> int {
    0x8000_0000 * TRIG_UNIT_CUBED
}

/// The largest size of a turned coordinate, which has at most five terms.
pub open spec fn rotated_limit() -> int {
    5 * term_limit()
}

/// The product of a coordinate and three factors, each of which is a sine, a
/// cosine or `TRIG_UNIT`.
fn term(v: i32, f1: i32, f2: i32, f3: i32) -> (r: i128)
    requires
        -TRIG_UNIT <= f1 <= TRIG_UNIT,
        -TRIG_UNIT <= f2 <= TRIG_UNIT,
        -TRIG_UNIT <= f3 <= TRIG_UNIT,
    ensures
        r == v * f1 * f2 * f3,
        -term_limit() <= r <= term_limit(),
{
    proof {
        assert(-0x8000_0000 * 1_000_000 <= v * f1 <= 0x8000_0000 * 1_000_000) by (nonlinear_arith)
            requires
                -0x8000_0000 <= v <= 0x8000_0000,
                -1_000_000 <= f1 <= 1_000_000,
        ;
        assert(-0x8000_0000 * 1_000_000_000_000 <= v * f1 * f2 <= 0x8000_0000 * 1_000_000_000_000)
            by (nonlinear_arith)
            requires
                -0x8000_0000 * 1_000_000 <= v * f1 <= 0x8000_0000 * 1_000_000,
                -1_000_000 <= f2 <= 1_000_000,
        ;
        assert(-0x8000_0000 * 1_000_000_000_000_000_000 <= v * f1 * f2 * f3 <= 0x8000_0000
            * 1_000_000_000_000_000_000) by (nonlinear_arith)
            requires
                -0x8000_0000 * 1_000_000_000_000 <= v * f1 * f2 <= 0x8000_0000 * 1_000_000_000_000,
                -1_000_000 <= f3 <= 1_000_000,
        ;
    }
    (v as i128) * (f1 as i128) * (f2 as i128) * (f3 as i128)
}

/// The x coordinate of the point (i, j, k) after the turn, in `TRIG_UNIT`³
/// parts of a hundredth.
pub fn calculate_x(i: i32, j: i32, k: i32, orientation: &Orientation) -> (x: i128)
    ensures
        x == rotated_x(i as int, j as int, k as int, orientation@),
        -rotated_limit() <= x <= rotated_limit(),
{
    proof {
        use_type_invariant(orientation);
    }
    let o = orientation;
    term(i, o.cos_a, o.cos_b, TRIG_UNIT) + term(j, o.cos_a, o.sin_b, o.sin_c) - term(
        j,
        o.sin_a,
        o.cos_c,
        TRIG_UNIT,
    ) + term(k, o.cos_a, o.sin_b, o.cos_c) + term(k, o.sin_a, o.sin_c, TRIG_UNIT)
}

/// The y coordinate of the point (i, j, k) after the turn, in `TRIG_UNIT`³
/// parts of a hundredth.
pub fn calculate_y(i: i32, j: i32, k: i32, orientation: &Orientation) -> (y: i128)
    ensures
        y == rotated_y(i as int, j as int, k as int, orientation@),
        -rotated_limit() <= y <= rotated_limit(),
{
    proof {
        use_type_invariant(orientation);
    }
    let o = orientation;
    term(i, o.sin_a, o.cos_b, TRIG_UNIT) + term(j, o.sin_a, o.sin_b, o.sin_c) + term(
        j,
        o.cos_a,
        o.cos_c,
        TRIG_UNIT,
    ) + term(k, o.sin_a, o.sin_b, o.cos_c) - term(k, o.cos_a, o.sin_c, TRIG_UNIT)
}

/// The z coordinate of the point (i, j, k) after the turn, in `TRIG_UNIT`³
/// parts of a hundredth.
pub fn calculate_z(i: i32, j: i32, k: i32, orientation: &Orientation) -> (z: i128)
    ensures
        z == rotated_z(i as int, j as int, k as int, orientation@),
        -rotated_limit() <= z <= rotated_limit(),
{
    proof {
        use_type_invariant(orientation);
    }
    let o = orientation;
    -term(i, o.sin_b, TRIG_UNIT, TRIG_UNIT) + term(j, o.cos_b, o.sin_c, TRIG_UNIT) + term(
        k,
        o.cos_b,
        o.cos_c,
        TRIG_UNIT,
    )
}

} // verus!
