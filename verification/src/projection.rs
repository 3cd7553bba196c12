//! Perspective projection of a turned point onto the canvas.
//!
//! The camera stands on the positive z axis, at the camera distance from the
//! cube's centre, and looks at the centre. A point's effective distance is the
//! camera distance less the point's z coordinate; its depth key is the
//! reciprocal of that, so that a nearer point has the larger key. The screen
//! position is worked out as an exact fraction and rounded once.

use vstd::prelude::*;
use crate::constants::MAX_CANVAS_SIDE;
use crate::constants::PARAMETER_LIMIT;
use crate::constants::TRIG_UNIT_CUBED;
use crate::rotation::rotated_limit;
use crate::rounding::lemma_nearest_unique;
use crate::rounding::nearest;
use crate::rounding::nearest_whole;

verus! {

/// The effective distance of a point from the camera, in `TRIG_UNIT`³ parts of
/// a hundredth: the camera distance, given in hundredths, less the point's z
/// coordinate, given in those parts.
pub open spec fn effective_distance(distance_from_camera: int, z: int) -> int {
    distance_from_camera * TRIG_UNIT_CUBED - z
}

/// The size of a number.
pub open spec fn magnitude(v: int) -> int {
    if v >= 0 {
        v
    } else {
        -v
    }
}

/// A coordinate with the sign of the effective distance e moved onto it, so
/// that v/e equals the result over the size of e.
pub open spec fn toward(v: int, e: int) -> int {
    if e >= 0 {
        v
    } else {
        -v
    }
}

/// The column of a point with turned x coordinate x and effective distance e,
/// which is not zero: the whole number nearest to
/// width/2 + (scale/100) · (x/e) · (width/height).
pub open spec fn screen_x(width: int, height: int, scale: int, x: int, e: int) -> int {
    let d = 100 * height * magnitude(e);
    nearest(width * d + 2 * (scale * width * toward(x, e)), 2 * d)
}

/// The row of a point with turned y coordinate y and effective distance e,
/// which is not zero: the whole number nearest to
/// height/2 − (scale/100) · (y/e). Rows count downward, so a point higher up
/// has the smaller row.
pub open spec fn screen_y(height: int, scale: int, y: int, e: int) -> int {
    let d = 100 * magnitude(e);
    nearest(height * d - 2 * (scale * toward(y, e)), 2 * d)
}

/// A cell of the canvas with the effective distance of the point that fell on
/// it.
pub struct Pixel {
    pub xp: int,
    pub yp: int,
    pub distance: int,
}

/// Where the turned point (x, y, z) falls on a canvas of the given size, or
/// `None` where it falls nowhere: its effective distance is zero, or its column
/// or row lies outside the canvas.
pub open spec fn projected(
    width: int,
    height: int,
    distance_from_camera: int,
    scale: int,
    x: int,
    y: int,
    z: int,
) -> Option<Pixel> {
    let e = effective_distance(distance_from_camera, z);
    let xp = screen_x(width, height, scale, x, e);
    let yp = screen_y(height, scale, y, e);
    if e != 0 && 0 <= xp < width && 0 <= yp < height {
        Some(Pixel { xp, yp, distance: e })
    } else {
        None
    }
}

/// A point on the canvas: its column, its row, and its effective distance from
/// the camera, whose reciprocal is the depth key.
#[derive(Clone, Copy, Debug, PartialEq, Eq, Structural)]
pub struct ScreenPoint {
    pub xp: usize,
    pub yp: usize,
    pub distance: i128,
}

impl View for ScreenPoint {
    type V = Pixel;

    open spec fn view(&self) -> Pixel {
        Pixel { xp: self.xp as int, yp: self.yp as int, distance: self.distance as int }
    }
}

/// The largest size of an effective distance.
pub open spec fn distance_limit() -> int {
    PARAMETER_LIMIT * TRIG_UNIT_CUBED + rotated_limit()
}

/// The product of two numbers, neither of which is beyond its bound.
fn product(a: i128, b: i128, Ghost(a_limit): Ghost<int>, Ghost(b_limit): Ghost<int>) -> (r: i128)
    requires
        -a_limit <= a <= a_limit,
        -b_limit <= b <= b_limit,
        a_limit * b_limit <= i128::MAX,
    ensures
        r == a * b,
        -(a_limit * b_limit) <= r <= a_limit * b_limit,
        a > 0 && b > 0 ==> r > 0,
{
    proof {
        assert(-(a_limit * b_limit) <= a * b <= a_limit * b_limit) by (nonlinear_arith)
            requires
                -a_limit <= a <= a_limit,
                -b_limit <= b <= b_limit,
        ;
        assert(a > 0 && b > 0 ==> a * b > 0) by (nonlinear_arith);
    }
    a * b
}

/// Projects the turned point (x, y, z), given in `TRIG_UNIT`³ parts of a
/// hundredth, onto a canvas of `width` columns and `height` rows. The camera
/// distance and the projection scale are in hundredths. The sample is dropped,
/// and `None` returned, where its effective distance is zero or where it falls
/// outside the canvas.
pub fn project(
    x: i128,
    y: i128,
    z: i128,
    distance_from_camera: i64,
    projection_scale: i64,
    width: usize,
    height: usize,
) -> (point: Option<ScreenPoint>)
    requires
        -rotated_limit() <= x <= rotated_limit(),
        -rotated_limit() <= y <= rotated_limit(),
        -rotated_limit() <= z <= rotated_limit(),
        -PARAMETER_LIMIT <= distance_from_camera <= PARAMETER_LIMIT,
        -PARAMETER_LIMIT <= projection_scale <= PARAMETER_LIMIT,
        1 <= width <= MAX_CANVAS_SIDE,
        1 <= height <= MAX_CANVAS_SIDE,
    ensures
        match point {
            Some(p) => projected(
                width as int,
                height as int,
                distance_from_camera as int,
                projection_scale as int,
                x as int,
                y as int,
                z as int,
            ) == Some(p@),
            None => projected(
                width as int,
                height as int,
                distance_from_camera as int,
                projection_scale as int,
                x as int,
                y as int,
                z as int,
            ) is None,
        },
{
    let e: i128 = (distance_from_camera as i128) * TRIG_UNIT_CUBED - z;
    if e == 0 {
        return None;
    }
    let size: i128 = if e >= 0 {
        e
    } else {
        -e
    };
    let xs: i128 = if e >= 0 {
        x
    } else {
        -x
    };
    let ys: i128 = if e >= 0 {
        y
    } else {
        -y
    };
    let w: i128 = width as i128;
    let h: i128 = height as i128;
    let scale: i128 = projection_scale as i128;

    let dx: i128 = product(100 * h, size, Ghost(102_400), Ghost(distance_limit()));
    let wdx: i128 = product(w, dx, Ghost(1_024), Ghost(102_400 * distance_limit()));
    let sw: i128 = product(scale, w, Ghost(1_000_000), Ghost(1_024));
    let swx: i128 = product(sw, xs, Ghost(1_024_000_000), Ghost(rotated_limit()));
    let xp: i128 = nearest_whole(wdx + 2 * swx, 2 * dx);

    let dy: i128 = 100 * size;
    let hdy: i128 = product(h, dy, Ghost(1_024), Ghost(100 * distance_limit()));
    let sy: i128 = product(scale, ys, Ghost(1_000_000), Ghost(rotated_limit()));
    let yp: i128 = nearest_whole(hdy - 2 * sy, 2 * dy);

    if 0 <= xp && xp < w && 0 <= yp && yp < h {
        Some(ScreenPoint { xp: xp as usize, yp: yp as usize, distance: e })
    } else {
        None
    }
}

/// The whole number nearest to half of `n`, the lower of two equally near, is
/// `n / 2` rounded down, whatever positive number both are measured in.
proof fn lemma_nearest_half(n: int, d: int)
    requires
        d > 0,
    ensures
        nearest(n * d, 2 * d) == n / 2,
{
    let q = n / 2;
    assert((2 * q - 1) * (2 * d) < 2 * (n * d) <= (2 * q + 1) * (2 * d)) by (nonlinear_arith)
        requires
            2 * q - 1 < n <= 2 * q + 1,
            d > 0,
    ;
    lemma_nearest_unique(n * d, 2 * d, q);
}

/// The centre stays in the centre: a point whose turned coordinates are all
/// zero falls on the middle cell of the canvas, whatever the projection scale
/// and whatever the camera distance, as long as that is not zero.
pub proof fn lemma_centre_is_fixed(
    width: int,
    height: int,
    distance_from_camera: int,
    scale: int,
)
    requires
        width >= 1,
        height >= 1,
        distance_from_camera != 0,
    ensures
        projected(width, height, distance_from_camera, scale, 0, 0, 0) == Some(
            Pixel {
                xp: width / 2,
                yp: height / 2,
                distance: distance_from_camera * TRIG_UNIT_CUBED,
            },
        ),
{
    let e = effective_distance(distance_from_camera, 0);
    let dx = 100 * height * magnitude(e);
    let dy = 100 * magnitude(e);
    assert(dx > 0) by (nonlinear_arith)
        requires
            dx == 100 * height * magnitude(e),
            height >= 1,
            magnitude(e) > 0,
    ;
    lemma_nearest_half(width, dx);
    lemma_nearest_half(height, dy);
}

/// The edges of the canvas: the point is kept exactly where its effective
/// distance is not zero, its column is one of 0 to `width` − 1 and its row is
/// one of 0 to `height` − 1. One step beyond an edge it is dropped.
pub proof fn lemma_kept_within_edges(
    width: int,
    height: int,
    distance_from_camera: int,
    scale: int,
    x: int,
    y: int,
    z: int,
)
    ensures
        projected(width, height, distance_from_camera, scale, x, y, z) is Some <==> {
            let e = effective_distance(distance_from_camera, z);
            &&& e != 0
            &&& 0 <= screen_x(width, height, scale, x, e) <= width - 1
            &&& 0 <= screen_y(height, scale, y, e) <= height - 1
        },
        projected(width, height, distance_from_camera, scale, x, y, z) matches Some(p) ==> {
            let e = effective_distance(distance_from_camera, z);
            &&& p.xp == screen_x(width, height, scale, x, e)
            &&& p.yp == screen_y(height, scale, y, e)
            &&& p.distance == e
        },
{
}

} // verus!
