//! Laws of the turn: it is one composition of three turns about the axes,
//! it leaves every point alone when the angles are zero, and the turn by the
//! negated angles in the reverse order undoes it.

use vstd::prelude::*;
use crate::constants::TRIG_UNIT;
use crate::constants::TRIG_UNIT_CUBED;
use crate::rotation::rotated_x;
use crate::rotation::rotated_y;
use crate::rotation::rotated_z;
use crate::rotation::Trig;

verus! {

/// A point or a direction with whole coordinates of any size.
pub struct Vector3 {
    pub x: int,
    pub y: int,
    pub z: int,
}

impl Vector3 {
    /// This vector with every coordinate multiplied by `k`.
    pub open spec fn scaled(self, k: int) -> Vector3 {
        Vector3 { x: self.x * k, y: self.y * k, z: self.z * k }
    }
}

impl Trig {
    /// Every sine and cosine pair lies exactly on the unit circle: the squares
    /// of the two add up to the square of `TRIG_UNIT`.
    pub open spec fn is_exact(self) -> bool {
        &&& self.sin_a * self.sin_a + self.cos_a * self.cos_a == TRIG_UNIT * TRIG_UNIT
        &&& self.sin_b * self.sin_b + self.cos_b * self.cos_b == TRIG_UNIT * TRIG_UNIT
        &&& self.sin_c * self.sin_c + self.cos_c * self.cos_c == TRIG_UNIT * TRIG_UNIT
    }
}

/// The point `p` after the turn, in `TRIG_UNIT`³ parts of its own unit.
pub open spec fn rotated(p: Vector3, t: Trig) -> Vector3 {
    Vector3 {
        x: rotated_x(p.x, p.y, p.z, t),
        y: rotated_y(p.x, p.y, p.z, t),
        z: rotated_z(p.x, p.y, p.z, t),
    }
}

/// `v` turned about the x axis by the angle with sine `s` and cosine `c`, in
/// `TRIG_UNIT` parts of its own unit.
pub open spec fn turned_about_x(v: Vector3, s: int, c: int) -> Vector3 {
    Vector3 { x: v.x * TRIG_UNIT, y: v.y * c - v.z * s, z: v.y * s + v.z * c }
}

/// `v` turned about the y axis by the angle with sine `s` and cosine `c`, in
/// `TRIG_UNIT` parts of its own unit.
pub open spec fn turned_about_y(v: Vector3, s: int, c: int) -> Vector3 {
    Vector3 { x: v.x * c + v.z * s, y: v.y * TRIG_UNIT, z: v.z * c - v.x * s }
}

/// `v` turned about the z axis by the angle with sine `s` and cosine `c`, in
/// `TRIG_UNIT` parts of its own unit.
pub open spec fn turned_about_z(v: Vector3, s: int, c: int) -> Vector3 {
    Vector3 { x: v.x * c - v.y * s, y: v.x * s + v.y * c, z: v.z * TRIG_UNIT }
}

/// `v` turned by the negated angles in the reverse order: about the z axis by
/// minus alpha, next about the y axis by minus beta, last about the x axis by
/// minus gamma. The result is in `TRIG_UNIT`³ parts of the unit of `v`.
pub open spec fn rotated_back(v: Vector3, t: Trig) -> Vector3 {
    turned_about_x(
        turned_about_y(turned_about_z(v, -t.sin_a, t.cos_a), -t.sin_b, t.cos_b),
        -t.sin_c,
        t.cos_c,
    )
}

/// The three coordinates of the turned point come from one and the same
/// composition of turns: about the x axis by gamma, next about the y axis by
/// beta, last about the z axis by alpha.
pub proof fn lemma_rotation_is_three_turns(p: Vector3, t: Trig)
    ensures
        rotated(p, t) == turned_about_z(
            turned_about_y(turned_about_x(p, t.sin_c, t.cos_c), t.sin_b, t.cos_b),
            t.sin_a,
            t.cos_a,
        ),
{
    let u = TRIG_UNIT as int;
    let (i, j, k) = (p.x, p.y, p.z);
    let (sa, ca, sb, cb, sc, cc) = (t.sin_a, t.cos_a, t.sin_b, t.cos_b, t.sin_c, t.cos_c);
    let inner = (j * sc) * sb + (k * cc) * sb;
    lemma_sum_times(j * sc, k * cc, sb);
    lemma_difference_times(j * cc, k * sc, u);
    // x
    lemma_sum_times((i * u) * cb, inner, ca);
    lemma_sum_times((j * sc) * sb, (k * cc) * sb, ca);
    lemma_difference_times((j * cc) * u, (k * sc) * u, sa);
    lemma_factors_swap(i, u, cb, ca);
    lemma_factors_swap(j, sc, sb, ca);
    lemma_factors_swap(k, cc, sb, ca);
    lemma_factors_swap(j, cc, u, sa);
    lemma_factors_swap(k, sc, u, sa);
    // y
    lemma_sum_times((i * u) * cb, inner, sa);
    lemma_sum_times((j * sc) * sb, (k * cc) * sb, sa);
    lemma_difference_times((j * cc) * u, (k * sc) * u, ca);
    lemma_factors_swap(i, u, cb, sa);
    lemma_factors_swap(j, sc, sb, sa);
    lemma_factors_swap(k, cc, sb, sa);
    lemma_factors_swap(j, cc, u, ca);
    lemma_factors_swap(k, sc, u, ca);
    // z
    lemma_sum_times(j * sc, k * cc, cb);
    lemma_difference_times((j * sc) * cb + (k * cc) * cb, (i * u) * sb, u);
    lemma_sum_times((j * sc) * cb, (k * cc) * cb, u);
    lemma_factors_swap(j, sc, cb, u);
    lemma_factors_swap(k, cc, cb, u);
    lemma_factors_swap(i, u, sb, u);
}

/// A sum times a factor is the sum of the products.
pub(crate) proof fn lemma_sum_times(a: int, b: int, f: int)
    ensures
        (a + b) * f == a * f + b * f,
{
    assert((a + b) * f == a * f + b * f) by (nonlinear_arith);
}

/// A difference times a factor is the difference of the products.
pub(crate) proof fn lemma_difference_times(a: int, b: int, f: int)
    ensures
        (a - b) * f == a * f - b * f,
{
    assert((a - b) * f == a * f - b * f) by (nonlinear_arith);
}

/// The last three factors of a product of four may change places.
proof fn lemma_factors_swap(a: int, b: int, c: int, d: int)
    ensures
        a * b * c * d == a * d * c * b,
        a * b * c * d == a * d * b * c,
        a * b * c * d == a * c * b * d,
{
    assert(a * b * c == a * c * b) by (nonlinear_arith);
    assert((a * b * c) * d == (a * d) * (b * c)) by (nonlinear_arith);
    assert((a * d) * (b * c) == (a * d) * c * b) by (nonlinear_arith);
    assert((a * d) * (b * c) == (a * d) * b * c) by (nonlinear_arith);
}

/// With all three angles at zero the turn changes nothing: the turned point is
/// the point itself, exactly.
pub proof fn lemma_zero_angles_keep_point(p: Vector3)
    ensures
        rotated(p, Trig::zero()) == p.scaled(TRIG_UNIT_CUBED as int),
{
}

/// Turning about one axis and back: each of the three turns is undone by the
/// turn with the negated sine, where the sine and cosine lie exactly on the
/// unit circle.
proof fn lemma_turn_inverts(v: Vector3, s: int, c: int)
    requires
        s * s + c * c == TRIG_UNIT * TRIG_UNIT,
    ensures
        turned_about_x(turned_about_x(v, s, c), -s, c) == v.scaled(1_000_000_000_000),
        turned_about_y(turned_about_y(v, s, c), -s, c) == v.scaled(1_000_000_000_000),
        turned_about_z(turned_about_z(v, s, c), -s, c) == v.scaled(1_000_000_000_000),
{
    let (x, y, z) = (v.x, v.y, v.z);
    lemma_circle(y, z, s, c, 1_000_000_000_000);
    lemma_circle(z, x, s, c, 1_000_000_000_000);
    lemma_circle(x, y, s, c, 1_000_000_000_000);
    lemma_negated_factor(y * s + z * c, s);
    lemma_negated_factor(y * c - z * s, s);
    lemma_negated_factor(z * c - x * s, s);
    lemma_negated_factor(x * c + z * s, s);
    lemma_negated_factor(x * s + y * c, s);
    lemma_negated_factor(x * c - y * s, s);
}

/// A product with a negated factor is the negated product.
pub(crate) proof fn lemma_negated_factor(a: int, f: int)
    ensures
        a * (-f) == -(a * f),
{
    assert(a * (-f) == -(a * f)) by (nonlinear_arith);
}

/// What makes a turn keep lengths: with s² + c² = n, the pair
/// (p·c − q·s, p·s + q·c) gives back p·n and q·n.
pub(crate) proof fn lemma_circle(p: int, q: int, s: int, c: int, n: int)
    requires
        s * s + c * c == n,
    ensures
        (p * c - q * s) * c + (p * s + q * c) * s == p * n,
        (p * s + q * c) * c - (p * c - q * s) * s == q * n,
{
    lemma_difference_times(p * c, q * s, c);
    lemma_sum_times(p * s, q * c, s);
    lemma_sum_times(p * s, q * c, c);
    lemma_difference_times(p * c, q * s, s);
    lemma_last_factors_swap(q, s, c);
    lemma_last_factors_swap(p, s, c);
    assert(p * c * c == p * (c * c)) by (nonlinear_arith);
    assert(p * s * s == p * (s * s)) by (nonlinear_arith);
    assert(q * c * c == q * (c * c)) by (nonlinear_arith);
    assert(q * s * s == q * (s * s)) by (nonlinear_arith);
    assert(p * (s * s) + p * (c * c) == p * (s * s + c * c)) by (nonlinear_arith);
    assert(q * (s * s) + q * (c * c) == q * (s * s + c * c)) by (nonlinear_arith);
}

/// A turn about an axis of a scaled vector is the scaled turn of the vector.
pub(crate) proof fn lemma_turn_scales(v: Vector3, k: int, s: int, c: int)
    ensures
        turned_about_x(v.scaled(k), s, c) == turned_about_x(v, s, c).scaled(k),
        turned_about_y(v.scaled(k), s, c) == turned_about_y(v, s, c).scaled(k),
        turned_about_z(v.scaled(k), s, c) == turned_about_z(v, s, c).scaled(k),
{
    let (x, y, z) = (v.x, v.y, v.z);
    lemma_last_factors_swap(x, k, 1_000_000);
    lemma_last_factors_swap(y, k, 1_000_000);
    lemma_last_factors_swap(z, k, 1_000_000);
    lemma_last_factors_swap(x, k, c);
    lemma_last_factors_swap(y, k, c);
    lemma_last_factors_swap(z, k, c);
    lemma_last_factors_swap(x, k, s);
    lemma_last_factors_swap(y, k, s);
    lemma_last_factors_swap(z, k, s);
    lemma_difference_times(y * c, z * s, k);
    lemma_sum_times(y * s, z * c, k);
    lemma_sum_times(x * c, z * s, k);
    lemma_difference_times(z * c, x * s, k);
    lemma_difference_times(x * c, y * s, k);
    lemma_sum_times(x * s, y * c, k);
}

/// The last two factors of a product of three may change places.
proof fn lemma_last_factors_swap(a: int, b: int, c: int)
    ensures
        a * b * c == a * c * b,
{
    assert(a * b * c == a * c * b) by (nonlinear_arith);
}

/// A turn is undone by the turn by the negated angles in the reverse order:
/// where every sine and cosine pair lies exactly on the unit circle, turning a
/// point and turning the result back gives the point itself, exactly. (The
/// result of the two turns counts `TRIG_UNIT`⁶ parts.)
pub proof fn lemma_rotation_inverts(p: Vector3, t: Trig)
    requires
        t.is_exact(),
    ensures
        rotated_back(rotated(p, t), t) == p.scaled(1_000_000_000_000_000_000_000_000_000_000_000_000),
{
    let px = turned_about_x(p, t.sin_c, t.cos_c);
    let py = turned_about_y(px, t.sin_b, t.cos_b);
    let pz = turned_about_z(py, t.sin_a, t.cos_a);
    lemma_rotation_is_three_turns(p, t);
    assert(rotated(p, t) == pz);
    lemma_turn_inverts(py, t.sin_a, t.cos_a);
    let b1 = turned_about_z(pz, -t.sin_a, t.cos_a);
    assert(b1 == py.scaled(1_000_000_000_000));
    lemma_turn_scales(py, 1_000_000_000_000, -t.sin_b, t.cos_b);
    lemma_turn_inverts(px, t.sin_b, t.cos_b);
    let b2 = turned_about_y(b1, -t.sin_b, t.cos_b);
    assert(b2 == px.scaled(1_000_000_000_000).scaled(1_000_000_000_000));
    assert(px.scaled(1_000_000_000_000).scaled(1_000_000_000_000) == px.scaled(1_000_000_000_000_000_000_000_000));
    lemma_turn_scales(px, 1_000_000_000_000_000_000_000_000, -t.sin_c, t.cos_c);
    lemma_turn_inverts(p, t.sin_c, t.cos_c);
    let b3 = turned_about_x(b2, -t.sin_c, t.cos_c);
    assert(b3 == p.scaled(1_000_000_000_000).scaled(1_000_000_000_000_000_000_000_000));
}

} // verus!
