//! Turning back with rounded sines and cosines.
//!
//! Where the sines and cosines are rounded to whole parts of `TRIG_UNIT`,
//! the turn by the negated angles in the reverse order brings a point back
//! to where it was up to a small error, which this module bounds.

use vstd::prelude::*;
use crate::constants::CIRCLE_TOLERANCE;
use crate::constants::TRIG_UNIT;
use crate::rotation::Trig;
use crate::rotation_laws::lemma_circle;
use crate::rotation_laws::lemma_negated_factor;
use crate::rotation_laws::lemma_rotation_is_three_turns;
use crate::rotation_laws::lemma_sum_times;
use crate::rotation_laws::lemma_turn_scales;
use crate::rotation_laws::rotated;
use crate::rotation_laws::rotated_back;
use crate::rotation_laws::turned_about_x;
use crate::rotation_laws::turned_about_y;
use crate::rotation_laws::turned_about_z;
use crate::rotation_laws::Vector3;

verus! {

/// Whether no coordinate of `v` is larger in size than `m`.
pub open spec fn within(v: Vector3, m: int) -> bool {
    &&& -m <= v.x <= m
    &&& -m <= v.y <= m
    &&& -m <= v.z <= m
}

/// The sum of two vectors.
pub open spec fn plus(v: Vector3, w: Vector3) -> Vector3 {
    Vector3 { x: v.x + w.x, y: v.y + w.y, z: v.z + w.z }
}

/// How far a sine and cosine pair lies off the unit circle: the sum of their
/// squares less the square of `TRIG_UNIT`.
pub open spec fn off_circle(s: int, c: int) -> int {
    s * s + c * c - TRIG_UNIT * TRIG_UNIT
}

/// The size of a product is at most the product of the bounds of its factors.
proof fn lemma_product_within(a: int, a_limit: int, b: int, b_limit: int)
    requires
        -a_limit <= a <= a_limit,
        -b_limit <= b <= b_limit,
    ensures
        -(a_limit * b_limit) <= a * b <= a_limit * b_limit,
{
    assert(-(a_limit * b_limit) <= a * b <= a_limit * b_limit) by (nonlinear_arith)
        requires
            -a_limit <= a <= a_limit,
            -b_limit <= b <= b_limit,
    ;
}

/// A turn about an axis at most doubles the largest coordinate, apart from
/// the factor `TRIG_UNIT` that it brings in.
proof fn lemma_turn_within(v: Vector3, m: int, s: int, c: int)
    requires
        within(v, m),
        -TRIG_UNIT <= s <= TRIG_UNIT,
        -TRIG_UNIT <= c <= TRIG_UNIT,
    ensures
        within(turned_about_x(v, s, c), 2_000_000 * m),
        within(turned_about_y(v, s, c), 2_000_000 * m),
        within(turned_about_z(v, s, c), 2_000_000 * m),
{
    lemma_product_within(v.x, m, 1_000_000, 1_000_000);
    lemma_product_within(v.y, m, 1_000_000, 1_000_000);
    lemma_product_within(v.z, m, 1_000_000, 1_000_000);
    lemma_product_within(v.x, m, s, 1_000_000);
    lemma_product_within(v.y, m, s, 1_000_000);
    lemma_product_within(v.z, m, s, 1_000_000);
    lemma_product_within(v.x, m, c, 1_000_000);
    lemma_product_within(v.y, m, c, 1_000_000);
    lemma_product_within(v.z, m, c, 1_000_000);
}

/// A turn about an axis of a sum is the sum of the turns.
pub(crate) proof fn lemma_turn_adds(a: Vector3, b: Vector3, s: int, c: int)
    ensures
        turned_about_x(plus(a, b), s, c) == plus(turned_about_x(a, s, c), turned_about_x(b, s, c)),
        turned_about_y(plus(a, b), s, c) == plus(turned_about_y(a, s, c), turned_about_y(b, s, c)),
        turned_about_z(plus(a, b), s, c) == plus(turned_about_z(a, s, c), turned_about_z(b, s, c)),
{
    lemma_sum_times(a.x, b.x, 1_000_000);
    lemma_sum_times(a.y, b.y, 1_000_000);
    lemma_sum_times(a.z, b.z, 1_000_000);
    lemma_sum_times(a.x, b.x, s);
    lemma_sum_times(a.y, b.y, s);
    lemma_sum_times(a.z, b.z, s);
    lemma_sum_times(a.x, b.x, c);
    lemma_sum_times(a.y, b.y, c);
    lemma_sum_times(a.z, b.z, c);
}

/// A coordinate times the sum of the squares of a sine and a cosine is the
/// coordinate times the square of `TRIG_UNIT` and the coordinate times what
/// the pair is off the circle.
proof fn lemma_split(p: int, s: int, c: int)
    ensures
        p * (s * s + c * c) == p * 1_000_000_000_000 + p * off_circle(s, c),
{
    let e = off_circle(s, c);
    assert(p * (1_000_000_000_000 + e) == p * 1_000_000_000_000 + p * e) by (nonlinear_arith);
}

/// Turning about one axis and back by the negated angle multiplies the two
/// coordinates that the turn mixes by the sum of the squares of sine and
/// cosine, and the third by the square of `TRIG_UNIT`.
proof fn lemma_turn_and_back(v: Vector3, s: int, c: int)
    ensures
        turned_about_x(turned_about_x(v, s, c), -s, c) == plus(
            v.scaled(1_000_000_000_000),
            Vector3 { x: 0, y: v.y * off_circle(s, c), z: v.z * off_circle(s, c) },
        ),
        turned_about_y(turned_about_y(v, s, c), -s, c) == plus(
            v.scaled(1_000_000_000_000),
            Vector3 { x: v.x * off_circle(s, c), y: 0, z: v.z * off_circle(s, c) },
        ),
        turned_about_z(turned_about_z(v, s, c), -s, c) == plus(
            v.scaled(1_000_000_000_000),
            Vector3 { x: v.x * off_circle(s, c), y: v.y * off_circle(s, c), z: 0 },
        ),
{
    let (x, y, z) = (v.x, v.y, v.z);
    let n = s * s + c * c;
    lemma_circle(y, z, s, c, n);
    lemma_circle(z, x, s, c, n);
    lemma_circle(x, y, s, c, n);
    lemma_negated_factor(y * s + z * c, s);
    lemma_negated_factor(y * c - z * s, s);
    lemma_negated_factor(z * c - x * s, s);
    lemma_negated_factor(x * c + z * s, s);
    lemma_negated_factor(x * s + y * c, s);
    lemma_negated_factor(x * c - y * s, s);
    lemma_split(x, s, c);
    lemma_split(y, s, c);
    lemma_split(z, s, c);
}

/// With sines and cosines that are rounded to whole parts, the turn by the
/// negated angles in the reverse order undoes a turn up to a small error:
/// each coordinate of the result is the coordinate of the point, in
/// `TRIG_UNIT`⁶ parts, give or take 21 · `CIRCLE_TOLERANCE` · `TRIG_UNIT`⁴
/// times the largest coordinate of the point. That is less than three parts
/// in a hundred thousand of that coordinate.
pub proof fn lemma_rotation_nearly_inverts(p: Vector3, t: Trig, m: int)
    requires
        t.wf(),
        within(p, m),
    ensures
        exists|error: Vector3|
            {
                &&& rotated_back(rotated(p, t), t) == plus(
                    p.scaled(1_000_000_000_000_000_000_000_000_000_000_000_000),
                    error,
                )
                &&& #[trigger] within(error, 21 * CIRCLE_TOLERANCE * 1_000_000_000_000_000_000_000_000 * m)
            },
{
    let tol = CIRCLE_TOLERANCE as int;
    let (sa, ca, sb, cb, sc, cc) = (t.sin_a, t.cos_a, t.sin_b, t.cos_b, t.sin_c, t.cos_c);
    let (ea, eb, ec) = (off_circle(sa, ca), off_circle(sb, cb), off_circle(sc, cc));
    let v = turned_about_x(p, sc, cc);
    let w = turned_about_y(v, sb, cb);
    let q = turned_about_z(w, sa, ca);
    lemma_rotation_is_three_turns(p, t);
    assert(rotated(p, t) == q);
    lemma_turn_within(p, m, sc, cc);
    lemma_turn_within(v, 2_000_000 * m, sb, cb);

    // Back about the z axis.
    let e1 = Vector3 { x: w.x * ea, y: w.y * ea, z: 0 };
    lemma_turn_and_back(w, sa, ca);
    let q1 = turned_about_z(q, -sa, ca);
    assert(q1 == plus(w.scaled(1_000_000_000_000), e1));
    lemma_product_within(w.x, 4_000_000_000_000 * m, ea, tol);
    lemma_product_within(w.y, 4_000_000_000_000 * m, ea, tol);
    assert(within(e1, 4_000_000_000_000 * m * tol));

    // Back about the y axis.
    let e2 = Vector3 { x: v.x * eb, y: 0, z: v.z * eb };
    lemma_turn_adds(w.scaled(1_000_000_000_000), e1, -sb, cb);
    lemma_turn_scales(w, 1_000_000_000_000, -sb, cb);
    lemma_turn_and_back(v, sb, cb);
    let back1 = turned_about_y(e1, -sb, cb);
    lemma_turn_within(e1, 4_000_000_000_000 * m * tol, -sb, cb);
    lemma_product_within(v.x, 2_000_000 * m, eb, tol);
    lemma_product_within(v.z, 2_000_000 * m, eb, tol);
    let f2 = plus(e2.scaled(1_000_000_000_000), back1);
    let q2 = turned_about_y(q1, -sb, cb);
    assert(q2 == plus(v.scaled(1_000_000_000_000_000_000_000_000), f2));
    assert(within(f2, 10_000_000_000_000_000_000 * (m * tol)));

    // Back about the x axis.
    let e3 = Vector3 { x: 0, y: p.y * ec, z: p.z * ec };
    lemma_turn_adds(v.scaled(1_000_000_000_000_000_000_000_000), f2, -sc, cc);
    lemma_turn_scales(v, 1_000_000_000_000_000_000_000_000, -sc, cc);
    lemma_turn_and_back(p, sc, cc);
    let back2 = turned_about_x(f2, -sc, cc);
    lemma_turn_within(f2, 10_000_000_000_000_000_000 * (m * tol), -sc, cc);
    lemma_product_within(p.y, m, ec, tol);
    lemma_product_within(p.z, m, ec, tol);
    let error = plus(e3.scaled(1_000_000_000_000_000_000_000_000), back2);
    let q3 = turned_about_x(q2, -sc, cc);
    assert(q3 == plus(p.scaled(1_000_000_000_000_000_000_000_000_000_000_000_000), error));
    assert(within(error, 21_000_000_000_000_000_000_000_000 * (m * tol)));
    assert(21 * tol * 1_000_000_000_000_000_000_000_000 * m == 21_000_000_000_000_000_000_000_000 * (m * tol))
        by (nonlinear_arith);
    assert(rotated_back(q, t) == q3);
}

} // verus!
