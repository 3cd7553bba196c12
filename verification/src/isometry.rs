//! A turn keeps lengths and angles.
//!
//! With sines and cosines exactly on the unit circle the turned vectors have
//! the lengths and the scalar products of the vectors themselves. With
//! rounded sines and cosines the squares of the lengths are kept up to the
//! factor (1 ± `CIRCLE_TOLERANCE` / `TRIG_UNIT`²)³, which is within five
//! parts in a million.

use vstd::prelude::*;
use crate::constants::CIRCLE_TOLERANCE;
use crate::constants::TRIG_UNIT;
use crate::near_inverse::lemma_turn_adds;
use crate::near_inverse::plus;
use crate::rotation::Trig;
use crate::rotation_laws::lemma_difference_times;
use crate::rotation_laws::lemma_rotation_is_three_turns;
use crate::rotation_laws::lemma_sum_times;
use crate::rotation_laws::rotated;
use crate::rotation_laws::turned_about_x;
use crate::rotation_laws::turned_about_y;
use crate::rotation_laws::turned_about_z;
use crate::rotation_laws::Vector3;

verus! {

/// The scalar product of two vectors.
pub open spec fn dot(v: Vector3, w: Vector3) -> int {
    v.x * w.x + v.y * w.y + v.z * w.z
}

/// The square of the length of a vector.
pub open spec fn norm2(v: Vector3) -> int {
    dot(v, v)
}

/// The difference of two vectors.
pub open spec fn minus(v: Vector3, w: Vector3) -> Vector3 {
    Vector3 { x: v.x - w.x, y: v.y - w.y, z: v.z - w.z }
}

/// The least factor by which one turn about an axis changes the square of a
/// length, in parts of `TRIG_UNIT`².
pub open spec fn least_stretch() -> int {
    TRIG_UNIT * TRIG_UNIT - CIRCLE_TOLERANCE
}

/// The largest factor by which one turn about an axis changes the square of a
/// length, in parts of `TRIG_UNIT`².
pub open spec fn largest_stretch() -> int {
    TRIG_UNIT * TRIG_UNIT + CIRCLE_TOLERANCE
}

/// The pair of coordinates that a turn mixes keeps its scalar product with
/// another such pair, times the sum of the squares of sine and cosine.
proof fn lemma_pair_dot(p: int, q: int, r: int, t: int, s: int, c: int)
    ensures
        (p * c - q * s) * (r * c - t * s) + (p * s + q * c) * (r * s + t * c) == (s * s + c * c)
            * (p * r + q * t),
{
    assert((p * c - q * s) * (r * c - t * s) == (p * c) * (r * c) - (p * c) * (t * s) - (q * s)
        * (r * c) + (q * s) * (t * s)) by (nonlinear_arith);
    assert((p * s + q * c) * (r * s + t * c) == (p * s) * (r * s) + (p * s) * (t * c) + (q * c)
        * (r * s) + (q * c) * (t * c)) by (nonlinear_arith);
    assert((p * c) * (t * s) == (p * s) * (t * c)) by (nonlinear_arith);
    assert((q * s) * (r * c) == (q * c) * (r * s)) by (nonlinear_arith);
    assert((p * c) * (r * c) == (c * c) * (p * r)) by (nonlinear_arith);
    assert((p * s) * (r * s) == (s * s) * (p * r)) by (nonlinear_arith);
    assert((q * c) * (t * c) == (c * c) * (q * t)) by (nonlinear_arith);
    assert((q * s) * (t * s) == (s * s) * (q * t)) by (nonlinear_arith);
    let (pr, qt, ss, cc) = (p * r, q * t, s * s, c * c);
    assert((ss + cc) * (pr + qt) == ss * pr + ss * qt + cc * pr + cc * qt) by (nonlinear_arith);
}

/// The coordinate that a turn leaves alone is multiplied by `TRIG_UNIT`.
proof fn lemma_axis_dot(p: int, r: int)
    ensures
        (p * TRIG_UNIT) * (r * TRIG_UNIT) == (TRIG_UNIT * TRIG_UNIT) * (p * r),
{
    assert((p * 1_000_000) * (r * 1_000_000) == 1_000_000_000_000 * (p * r)) by (nonlinear_arith);
}

/// What a turn about one axis does to a scalar product: the part in the plane
/// of the turn is multiplied by the sum of the squares of sine and cosine,
/// the part along the axis by the square of `TRIG_UNIT`.
pub proof fn lemma_turn_dot(v: Vector3, w: Vector3, s: int, c: int)
    ensures
        dot(turned_about_x(v, s, c), turned_about_x(w, s, c)) == (s * s + c * c) * (v.y * w.y + v.z
            * w.z) + (TRIG_UNIT * TRIG_UNIT) * (v.x * w.x),
        dot(turned_about_y(v, s, c), turned_about_y(w, s, c)) == (s * s + c * c) * (v.z * w.z + v.x
            * w.x) + (TRIG_UNIT * TRIG_UNIT) * (v.y * w.y),
        dot(turned_about_z(v, s, c), turned_about_z(w, s, c)) == (s * s + c * c) * (v.x * w.x + v.y
            * w.y) + (TRIG_UNIT * TRIG_UNIT) * (v.z * w.z),
{
    lemma_pair_dot(v.y, v.z, w.y, w.z, s, c);
    lemma_pair_dot(v.z, v.x, w.z, w.x, s, c);
    lemma_pair_dot(v.x, v.y, w.x, w.y, s, c);
    lemma_axis_dot(v.x, w.x);
    lemma_axis_dot(v.y, w.y);
    lemma_axis_dot(v.z, w.z);
}

/// A turn about one axis with sine and cosine exactly on the unit circle
/// keeps every scalar product, apart from the factor `TRIG_UNIT`².
proof fn lemma_exact_turn_dot(v: Vector3, w: Vector3, s: int, c: int)
    requires
        s * s + c * c == TRIG_UNIT * TRIG_UNIT,
    ensures
        dot(turned_about_x(v, s, c), turned_about_x(w, s, c)) == 1_000_000_000_000 * dot(v, w),
        dot(turned_about_y(v, s, c), turned_about_y(w, s, c)) == 1_000_000_000_000 * dot(v, w),
        dot(turned_about_z(v, s, c), turned_about_z(w, s, c)) == 1_000_000_000_000 * dot(v, w),
{
    lemma_turn_dot(v, w, s, c);
    let n = s * s + c * c;
    let u = TRIG_UNIT * TRIG_UNIT;
    assert(n == 1_000_000_000_000 && u == 1_000_000_000_000);
    assert(n * (v.y * w.y + v.z * w.z) == 1_000_000_000_000 * (v.y * w.y + v.z * w.z));
    assert(n * (v.z * w.z + v.x * w.x) == 1_000_000_000_000 * (v.z * w.z + v.x * w.x));
    assert(n * (v.x * w.x + v.y * w.y) == 1_000_000_000_000 * (v.x * w.x + v.y * w.y));
    assert(u * (v.x * w.x) == 1_000_000_000_000 * (v.x * w.x));
    assert(u * (v.y * w.y) == 1_000_000_000_000 * (v.y * w.y));
    assert(u * (v.z * w.z) == 1_000_000_000_000 * (v.z * w.z));
}

/// The turn keeps angles and lengths: where every sine and cosine pair lies
/// exactly on the unit circle, the scalar product of two turned vectors is
/// that of the vectors, exactly. The turned unit vectors are therefore of
/// length one and at right angles to each other. (The scalar product of two
/// turned vectors counts `TRIG_UNIT`⁶ parts.)
pub proof fn lemma_rotation_keeps_scalar_products(p: Vector3, q: Vector3, t: Trig)
    requires
        t.is_exact(),
    ensures
        dot(rotated(p, t), rotated(q, t)) == 1_000_000_000_000_000_000_000_000_000_000_000_000
            * dot(p, q),
{
    let p1 = turned_about_x(p, t.sin_c, t.cos_c);
    let q1 = turned_about_x(q, t.sin_c, t.cos_c);
    let p2 = turned_about_y(p1, t.sin_b, t.cos_b);
    let q2 = turned_about_y(q1, t.sin_b, t.cos_b);
    lemma_rotation_is_three_turns(p, t);
    lemma_rotation_is_three_turns(q, t);
    lemma_exact_turn_dot(p, q, t.sin_c, t.cos_c);
    lemma_exact_turn_dot(p1, q1, t.sin_b, t.cos_b);
    lemma_exact_turn_dot(p2, q2, t.sin_a, t.cos_a);
}

/// The turn keeps lengths: where every sine and cosine pair lies exactly on
/// the unit circle, the turned vector is as long as the vector.
pub proof fn lemma_rotation_keeps_length(p: Vector3, t: Trig)
    requires
        t.is_exact(),
    ensures
        norm2(rotated(p, t)) == 1_000_000_000_000_000_000_000_000_000_000_000_000 * norm2(p),
{
    lemma_rotation_keeps_scalar_products(p, p, t);
}

/// A weighted sum of two squares lies between the least and the largest
/// weight times their sum.
proof fn lemma_between(n: int, u: int, a: int, b: int, lo: int, hi: int)
    requires
        lo <= n <= hi,
        lo <= u <= hi,
        a >= 0,
        b >= 0,
    ensures
        lo * (a + b) <= n * a + u * b <= hi * (a + b),
{
    assert(lo * a <= n * a <= hi * a) by (nonlinear_arith)
        requires
            lo <= n <= hi,
            a >= 0,
    ;
    assert(lo * b <= u * b <= hi * b) by (nonlinear_arith)
        requires
            lo <= u <= hi,
            b >= 0,
    ;
    assert(lo * (a + b) == lo * a + lo * b) by (nonlinear_arith);
    assert(hi * (a + b) == hi * a + hi * b) by (nonlinear_arith);
}

/// A sum of two squares is not negative.
proof fn lemma_squares(a: int, b: int)
    ensures
        a * a + b * b >= 0,
        a * a >= 0,
{
    assert(a * a >= 0 && b * b >= 0) by (nonlinear_arith);
}

/// A turn about one axis with a sine and cosine that can belong to one angle
/// changes the square of a length by a factor between the least and the
/// largest stretch.
proof fn lemma_turn_length(v: Vector3, s: int, c: int)
    requires
        Trig::near_circle(s, c),
    ensures
        least_stretch() * norm2(v) <= norm2(turned_about_x(v, s, c)) <= largest_stretch() * norm2(
            v,
        ),
        least_stretch() * norm2(v) <= norm2(turned_about_y(v, s, c)) <= largest_stretch() * norm2(
            v,
        ),
        least_stretch() * norm2(v) <= norm2(turned_about_z(v, s, c)) <= largest_stretch() * norm2(
            v,
        ),
        norm2(v) >= 0,
{
    let n = s * s + c * c;
    let u = TRIG_UNIT * TRIG_UNIT;
    lemma_turn_dot(v, v, s, c);
    lemma_squares(v.y, v.z);
    lemma_squares(v.z, v.x);
    lemma_squares(v.x, v.y);
    lemma_between(n, u, v.y * v.y + v.z * v.z, v.x * v.x, least_stretch(), largest_stretch());
    lemma_between(n, u, v.z * v.z + v.x * v.x, v.y * v.y, least_stretch(), largest_stretch());
    lemma_between(n, u, v.x * v.x + v.y * v.y, v.z * v.z, least_stretch(), largest_stretch());
}

/// Two bounds one after the other multiply.
proof fn lemma_chain(lo: int, hi: int, k_lo: int, k_hi: int, a: int, b: int, c: int)
    requires
        0 <= lo <= hi,
        a >= 0,
        k_lo * a <= b <= k_hi * a,
        lo * b <= c <= hi * b,
    ensures
        (lo * k_lo) * a <= c <= (hi * k_hi) * a,
{
    assert(lo * (k_lo * a) <= lo * b) by (nonlinear_arith)
        requires
            k_lo * a <= b,
            lo >= 0,
    ;
    assert(hi * b <= hi * (k_hi * a)) by (nonlinear_arith)
        requires
            b <= k_hi * a,
            hi >= 0,
    ;
    assert(lo * (k_lo * a) == (lo * k_lo) * a) by (nonlinear_arith);
    assert(hi * (k_hi * a) == (hi * k_hi) * a) by (nonlinear_arith);
}

/// With rounded sines and cosines the turn nearly keeps lengths: the square
/// of the length of the turned vector is that of the vector, in
/// `TRIG_UNIT`⁶ parts, up to the factor (1 ± `CIRCLE_TOLERANCE` /
/// `TRIG_UNIT`²)³.
pub proof fn lemma_rotation_nearly_keeps_length(p: Vector3, t: Trig)
    requires
        t.wf(),
    ensures
        least_stretch() * least_stretch() * least_stretch() * norm2(p) <= norm2(rotated(p, t)),
        norm2(rotated(p, t)) <= largest_stretch() * largest_stretch() * largest_stretch() * norm2(
            p,
        ),
{
    let lo = least_stretch();
    let hi = largest_stretch();
    let p1 = turned_about_x(p, t.sin_c, t.cos_c);
    let p2 = turned_about_y(p1, t.sin_b, t.cos_b);
    let p3 = turned_about_z(p2, t.sin_a, t.cos_a);
    lemma_rotation_is_three_turns(p, t);
    lemma_turn_length(p, t.sin_c, t.cos_c);
    lemma_turn_length(p1, t.sin_b, t.cos_b);
    lemma_turn_length(p2, t.sin_a, t.cos_a);
    lemma_chain(lo, hi, lo, hi, norm2(p), norm2(p1), norm2(p2));
    lemma_chain(lo, hi, lo * lo, hi * hi, norm2(p), norm2(p2), norm2(p3));
    assert(lo * (lo * lo) == lo * lo * lo) by (nonlinear_arith);
    assert(hi * (hi * hi) == hi * hi * hi) by (nonlinear_arith);
}

/// The turn of a sum is the sum of the turns, and the turn of a difference
/// the difference of the turns.
pub proof fn lemma_rotation_adds(p: Vector3, q: Vector3, t: Trig)
    ensures
        rotated(plus(p, q), t) == plus(rotated(p, t), rotated(q, t)),
        rotated(minus(p, q), t) == minus(rotated(p, t), rotated(q, t)),
{
    let d = minus(p, q);
    assert(p == plus(d, q));
    lemma_sum_of_turns(p, q, t);
    lemma_sum_of_turns(d, q, t);
}

/// The turn of a sum is the sum of the turns.
proof fn lemma_sum_of_turns(p: Vector3, q: Vector3, t: Trig)
    ensures
        rotated(plus(p, q), t) == plus(rotated(p, t), rotated(q, t)),
{
    let p1 = turned_about_x(p, t.sin_c, t.cos_c);
    let q1 = turned_about_x(q, t.sin_c, t.cos_c);
    let p2 = turned_about_y(p1, t.sin_b, t.cos_b);
    let q2 = turned_about_y(q1, t.sin_b, t.cos_b);
    lemma_rotation_is_three_turns(p, t);
    lemma_rotation_is_three_turns(q, t);
    lemma_rotation_is_three_turns(plus(p, q), t);
    lemma_turn_adds(p, q, t.sin_c, t.cos_c);
    lemma_turn_adds(p1, q1, t.sin_b, t.cos_b);
    lemma_turn_adds(p2, q2, t.sin_a, t.cos_a);
}

/// Four times a scalar product is the square of the length of the sum less
/// that of the difference.
proof fn lemma_polarization(a: Vector3, b: Vector3)
    ensures
        4 * dot(a, b) == norm2(plus(a, b)) - norm2(minus(a, b)),
{
    assert((a.x + b.x) * (a.x + b.x) - (a.x - b.x) * (a.x - b.x) == 4 * (a.x * b.x))
        by (nonlinear_arith);
    assert((a.y + b.y) * (a.y + b.y) - (a.y - b.y) * (a.y - b.y) == 4 * (a.y * b.y))
        by (nonlinear_arith);
    assert((a.z + b.z) * (a.z + b.z) - (a.z - b.z) * (a.z - b.z) == 4 * (a.z * b.z))
        by (nonlinear_arith);
}

/// With rounded sines and cosines the turn nearly keeps scalar products, and
/// with them right angles: four times the scalar product of two turned
/// vectors lies between the bounds that the lengths of their sum and of
/// their difference allow. For two unit vectors at right angles it is off
/// zero by less than five parts in a million of `TRIG_UNIT`⁶.
pub proof fn lemma_rotation_nearly_keeps_scalar_products(p: Vector3, q: Vector3, t: Trig)
    requires
        t.wf(),
    ensures
        4 * dot(rotated(p, t), rotated(q, t)) <= largest_stretch() * largest_stretch()
            * largest_stretch() * norm2(plus(p, q)) - least_stretch() * least_stretch()
            * least_stretch() * norm2(minus(p, q)),
        4 * dot(rotated(p, t), rotated(q, t)) >= least_stretch() * least_stretch()
            * least_stretch() * norm2(plus(p, q)) - largest_stretch() * largest_stretch()
            * largest_stretch() * norm2(minus(p, q)),
{
    lemma_rotation_adds(p, q, t);
    lemma_polarization(rotated(p, t), rotated(q, t));
    lemma_rotation_nearly_keeps_length(plus(p, q), t);
    lemma_rotation_nearly_keeps_length(minus(p, q), t);
}

/// The vector product of two vectors.
pub open spec fn cross(v: Vector3, w: Vector3) -> Vector3 {
    Vector3 { x: v.y * w.z - v.z * w.y, y: v.z * w.x - v.x * w.z, z: v.x * w.y - v.y * w.x }
}

/// The volume that three vectors span, with its sign: the determinant of the
/// matrix whose columns they are.
pub open spec fn triple(u: Vector3, v: Vector3, w: Vector3) -> int {
    dot(cross(u, v), w)
}

/// The sum of the squares of a sine and a cosine.
pub open spec fn circle(s: int, c: int) -> int {
    s * s + c * c
}

/// The pair of coordinates that a turn mixes keeps the area that it spans
/// with another such pair, times the sum of the squares of sine and cosine.
proof fn lemma_pair_area(p: int, q: int, r: int, t: int, s: int, c: int)
    ensures
        (p * c - q * s) * (r * s + t * c) - (p * s + q * c) * (r * c - t * s) == (s * s + c * c)
            * (p * t - q * r),
{
    assert((p * c - q * s) * (r * s + t * c) == (p * c) * (r * s) + (p * c) * (t * c) - (q * s)
        * (r * s) - (q * s) * (t * c)) by (nonlinear_arith);
    assert((p * s + q * c) * (r * c - t * s) == (p * s) * (r * c) - (p * s) * (t * s) + (q * c)
        * (r * c) - (q * c) * (t * s)) by (nonlinear_arith);
    assert((p * c) * (r * s) == (p * s) * (r * c)) by (nonlinear_arith);
    assert((q * s) * (t * c) == (q * c) * (t * s)) by (nonlinear_arith);
    assert((p * c) * (t * c) == (c * c) * (p * t)) by (nonlinear_arith);
    assert((p * s) * (t * s) == (s * s) * (p * t)) by (nonlinear_arith);
    assert((q * c) * (r * c) == (c * c) * (q * r)) by (nonlinear_arith);
    assert((q * s) * (r * s) == (s * s) * (q * r)) by (nonlinear_arith);
    let (pt, qr, ss, cc) = (p * t, q * r, s * s, c * c);
    assert((ss + cc) * (pt - qr) == ss * pt - ss * qr + cc * pt - cc * qr) by (nonlinear_arith);
}

/// The two parts of a vector product that lie in the plane of a turn, for
/// vectors turned in that plane: with a the pair (a1, a2) and the third
/// coordinate a3, and b likewise.
proof fn lemma_plane_parts(a1: int, a2: int, a3: int, b1: int, b2: int, b3: int, s: int, c: int)
    ensures
        (a1 * s + a2 * c) * (b3 * TRIG_UNIT) - (a3 * TRIG_UNIT) * (b1 * s + b2 * c) == TRIG_UNIT
            * ((a2 * b3 - a3 * b2) * c - (a3 * b1 - a1 * b3) * s),
        (a3 * TRIG_UNIT) * (b1 * c - b2 * s) - (a1 * c - a2 * s) * (b3 * TRIG_UNIT) == TRIG_UNIT
            * ((a2 * b3 - a3 * b2) * s + (a3 * b1 - a1 * b3) * c),
{
    let u = TRIG_UNIT as int;
    lemma_sum_times(a1 * s, a2 * c, b3 * u);
    lemma_times_sum(a3 * u, b1 * s, b2 * c);
    lemma_times_difference(a3 * u, b1 * c, b2 * s);
    lemma_difference_times(a1 * c, a2 * s, b3 * u);
    lemma_mixed(a1, s, b3, u);
    lemma_mixed(a2, c, b3, u);
    lemma_mixed(a1, c, b3, u);
    lemma_mixed(a2, s, b3, u);
    lemma_mixed_other(a3, u, b1, s);
    lemma_mixed_other(a3, u, b2, c);
    lemma_mixed_other(a3, u, b1, c);
    lemma_mixed_other(a3, u, b2, s);
    lemma_difference_times(a2 * b3, a3 * b2, c);
    lemma_difference_times(a3 * b1, a1 * b3, s);
    lemma_difference_times(a2 * b3, a3 * b2, s);
    lemma_difference_times(a3 * b1, a1 * b3, c);
    let (m1, m2) = ((a2 * b3 - a3 * b2) * c, (a3 * b1 - a1 * b3) * s);
    let (m3, m4) = ((a2 * b3 - a3 * b2) * s, (a3 * b1 - a1 * b3) * c);
    assert(u * (m1 - m2) == u * m1 - u * m2) by (nonlinear_arith);
    assert(u * (m3 + m4) == u * m3 + u * m4) by (nonlinear_arith);
    lemma_times_difference(u, (a2 * b3) * c, (a3 * b2) * c);
    lemma_times_difference(u, (a3 * b1) * s, (a1 * b3) * s);
    lemma_times_difference(u, (a2 * b3) * s, (a3 * b2) * s);
    lemma_times_difference(u, (a3 * b1) * c, (a1 * b3) * c);
}

/// A factor times a sum is the sum of the products.
proof fn lemma_times_sum(f: int, a: int, b: int)
    ensures
        f * (a + b) == f * a + f * b,
{
    assert(f * (a + b) == f * a + f * b) by (nonlinear_arith);
}

/// A factor times a difference is the difference of the products.
proof fn lemma_times_difference(f: int, a: int, b: int)
    ensures
        f * (a - b) == f * a - f * b,
{
    assert(f * (a - b) == f * a - f * b) by (nonlinear_arith);
}

/// The factors of a product of two products may be put in another order.
proof fn lemma_mixed(a: int, s: int, b: int, u: int)
    ensures
        (a * s) * (b * u) == u * ((a * b) * s),
{
    assert((a * s) * (b * u) == u * ((a * b) * s)) by (nonlinear_arith);
}

/// The factors of a product of two products may be put in another order.
proof fn lemma_mixed_other(a: int, u: int, b: int, s: int)
    ensures
        (a * u) * (b * s) == u * ((a * b) * s),
{
    assert((a * u) * (b * s) == u * ((a * b) * s)) by (nonlinear_arith);
}

/// The volume that three vectors span after each was turned in the plane of
/// its first two coordinates: the volume before, times `TRIG_UNIT`, times the
/// sum of the squares of sine and cosine.
proof fn lemma_turned_volume(
    a1: int,
    a2: int,
    a3: int,
    b1: int,
    b2: int,
    b3: int,
    d1: int,
    d2: int,
    d3: int,
    s: int,
    c: int,
)
    ensures
        ({
            let k1 = (a1 * s + a2 * c) * (b3 * TRIG_UNIT) - (a3 * TRIG_UNIT) * (b1 * s + b2 * c);
            let k2 = (a3 * TRIG_UNIT) * (b1 * c - b2 * s) - (a1 * c - a2 * s) * (b3 * TRIG_UNIT);
            let k3 = (a1 * c - a2 * s) * (b1 * s + b2 * c) - (a1 * s + a2 * c) * (b1 * c - b2 * s);
            k1 * (d1 * c - d2 * s) + k2 * (d1 * s + d2 * c) + k3 * (d3 * TRIG_UNIT)
        }) == TRIG_UNIT * circle(s, c) * ((a2 * b3 - a3 * b2) * d1 + (a3 * b1 - a1 * b3) * d2 + (a1
            * b2 - a2 * b1) * d3),
{
    let u = TRIG_UNIT as int;
    let n = circle(s, c);
    let (x1, x2, x3) = (a2 * b3 - a3 * b2, a3 * b1 - a1 * b3, a1 * b2 - a2 * b1);
    lemma_plane_parts(a1, a2, a3, b1, b2, b3, s, c);
    lemma_pair_area(a1, a2, b1, b2, s, c);
    lemma_pair_dot(x1, x2, d1, d2, s, c);
    let e1 = x1 * c - x2 * s;
    let e2 = x1 * s + x2 * c;
    let f1 = d1 * c - d2 * s;
    let f2 = d1 * s + d2 * c;
    assert((u * e1) * f1 + (u * e2) * f2 == u * (e1 * f1 + e2 * f2)) by (nonlinear_arith);
    assert((n * x3) * (d3 * u) == u * (n * (x3 * d3))) by (nonlinear_arith);
    assert(u * (n * (x1 * d1 + x2 * d2)) + u * (n * (x3 * d3)) == u * n * (x1 * d1 + x2 * d2 + x3
        * d3)) by (nonlinear_arith);
}

/// What a turn about one axis does to the volume that three vectors span: it
/// multiplies it by `TRIG_UNIT` and by the sum of the squares of sine and
/// cosine.
pub proof fn lemma_turn_volume(a: Vector3, b: Vector3, d: Vector3, s: int, c: int)
    ensures
        triple(turned_about_x(a, s, c), turned_about_x(b, s, c), turned_about_x(d, s, c))
            == TRIG_UNIT * circle(s, c) * triple(a, b, d),
        triple(turned_about_y(a, s, c), turned_about_y(b, s, c), turned_about_y(d, s, c))
            == TRIG_UNIT * circle(s, c) * triple(a, b, d),
        triple(turned_about_z(a, s, c), turned_about_z(b, s, c), turned_about_z(d, s, c))
            == TRIG_UNIT * circle(s, c) * triple(a, b, d),
{
    lemma_turned_volume(a.y, a.z, a.x, b.y, b.z, b.x, d.y, d.z, d.x, s, c);
    lemma_turned_volume(a.z, a.x, a.y, b.z, b.x, b.y, d.z, d.x, d.y, s, c);
    lemma_turned_volume(a.x, a.y, a.z, b.x, b.y, b.z, d.x, d.y, d.z, s, c);
}

/// The turn keeps handedness: the volume that three turned vectors span is
/// the volume that the vectors span, times `TRIG_UNIT`³ and the three sums of
/// squares of sine and cosine, all of which are positive. So the determinant
/// of the turn is positive; where every sine and cosine pair lies exactly on
/// the unit circle it is `TRIG_UNIT`⁹, which stands for one.
pub proof fn lemma_rotation_keeps_handedness(p: Vector3, q: Vector3, r: Vector3, t: Trig)
    ensures
        triple(rotated(p, t), rotated(q, t), rotated(r, t)) == (TRIG_UNIT * circle(
            t.sin_a,
            t.cos_a,
        )) * ((TRIG_UNIT * circle(t.sin_b, t.cos_b)) * ((TRIG_UNIT * circle(t.sin_c, t.cos_c))
            * triple(p, q, r))),
        t.wf() ==> least_stretch() <= circle(t.sin_a, t.cos_a) <= largest_stretch()
            && least_stretch() <= circle(t.sin_b, t.cos_b) <= largest_stretch() && least_stretch()
            <= circle(t.sin_c, t.cos_c) <= largest_stretch(),
        t.is_exact() ==> triple(rotated(p, t), rotated(q, t), rotated(r, t))
            == 1_000_000_000_000_000_000 * (1_000_000_000_000_000_000 * (1_000_000_000_000_000_000
            * triple(p, q, r))),
{
    let (p1, q1, r1) = (
        turned_about_x(p, t.sin_c, t.cos_c),
        turned_about_x(q, t.sin_c, t.cos_c),
        turned_about_x(r, t.sin_c, t.cos_c),
    );
    let (p2, q2, r2) = (
        turned_about_y(p1, t.sin_b, t.cos_b),
        turned_about_y(q1, t.sin_b, t.cos_b),
        turned_about_y(r1, t.sin_b, t.cos_b),
    );
    lemma_rotation_is_three_turns(p, t);
    lemma_rotation_is_three_turns(q, t);
    lemma_rotation_is_three_turns(r, t);
    lemma_turn_volume(p, q, r, t.sin_c, t.cos_c);
    lemma_turn_volume(p1, q1, r1, t.sin_b, t.cos_b);
    lemma_turn_volume(p2, q2, r2, t.sin_a, t.cos_a);
}

} // verus!
