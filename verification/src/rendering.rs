//! Drawing the cube: sampling its six faces and offering every sample to the
//! canvas.
//!
//! Each face is the set of points at which one coordinate is held at plus or
//! minus the half width while the other two run from minus the half width up
//! to, but not including, the half width, in steps of the resolution step. The
//! tags are `K` for the back (z low), `F` for the front (z high), `L` for the
//! left (x low), `R` for the right (x high), `B` for the bottom (y low) and `T`
//! for the top (y high).

use vstd::prelude::*;
use vstd::arithmetic::div_mod::lemma_mod_sub_multiples_vanish;
use vstd::arithmetic::div_mod::lemma_small_mod;
use vstd::seq_lib::lemma_seq_concat_contains_all_elements;
use crate::constants::PARAMETER_LIMIT;
use crate::constants::TRIG_UNIT_CUBED;
use crate::cube_parameters::CubeParameters;
use crate::frame::FrameState;
use crate::frame::FrameView;
use crate::projection::lemma_centre_is_fixed;
use crate::projection::project;
use crate::projection::projected;
use crate::rotation::calculate_x;
use crate::rotation::calculate_y;
use crate::rotation::calculate_z;
use crate::rotation::rotated_x;
use crate::rotation::rotated_y;
use crate::rotation::rotated_z;
use crate::rotation::Orientation;
use crate::rotation::Trig;

verus! {

/// A point of a face, in hundredths, with the tag of the face.
pub struct Sample {
    pub x: int,
    pub y: int,
    pub z: int,
    pub tag: char,
}

/// What the place of a sample on the canvas depends on besides the sample.
pub struct Scene {
    /// Sines and cosines of the three angles.
    pub trig: Trig,
    /// Distance of the camera, in hundredths.
    pub distance: int,
    /// Projection scale, in hundredths.
    pub scale: int,
}

/// Where a sample falls on a canvas of the given size, if anywhere.
pub open spec fn landing(width: int, height: int, s: Sample, scene: Scene) -> Option<
    crate::projection::Pixel,
> {
    projected(
        width,
        height,
        scene.distance,
        scene.scale,
        rotated_x(s.x, s.y, s.z, scene.trig),
        rotated_y(s.x, s.y, s.z, scene.trig),
        rotated_z(s.x, s.y, s.z, scene.trig),
    )
}

/// The canvas after one sample was turned, projected and offered to it.
pub open spec fn offered(f: FrameView, s: Sample, scene: Scene) -> FrameView {
    match landing(f.width, f.height, s, scene) {
        Some(pixel) => f.plotted(pixel, s.tag),
        None => f,
    }
}

/// The canvas after the samples were offered to it one after the other.
pub open spec fn drawn(f: FrameView, samples: Seq<Sample>, scene: Scene) -> FrameView
    decreases samples.len(),
{
    if samples.len() == 0 {
        f
    } else {
        offered(drawn(f, samples.drop_last(), scene), samples.last(), scene)
    }
}

/// The grid values from `start` on: `start`, `start + step`, and so on, as
/// long as they are below the half width.
pub open spec fn offsets_from(start: int, half_width: int, step: int) -> Seq<int>
    decreases
        (if start < half_width {
            half_width - start
        } else {
            0
        }),
{
    if start < half_width && step > 0 {
        seq![start] + offsets_from(start + step, half_width, step)
    } else {
        Seq::empty()
    }
}

/// The grid values of a face: from minus the half width up to, but not
/// including, the half width, in steps of `step`.
pub open spec fn offsets(half_width: int, step: int) -> Seq<int> {
    offsets_from(-half_width, half_width, step)
}

/// The six samples, one on each face, that belong to the grid point (a, b),
/// in the order in which they are drawn.
pub open spec fn face_samples(half_width: int, a: int, b: int) -> Seq<Sample> {
    seq![
        Sample { x: a, y: b, z: -half_width, tag: 'K' },
        Sample { x: a, y: b, z: half_width, tag: 'F' },
        Sample { x: -half_width, y: b, z: a, tag: 'L' },
        Sample { x: half_width, y: b, z: a, tag: 'R' },
        Sample { x: a, y: -half_width, z: b, tag: 'B' },
        Sample { x: a, y: half_width, z: b, tag: 'T' },
    ]
}

/// The samples of the grid points (a, b) for each b of `ys` in turn.
pub open spec fn row_samples(half_width: int, a: int, ys: Seq<int>) -> Seq<Sample>
    decreases ys.len(),
{
    if ys.len() == 0 {
        Seq::empty()
    } else {
        row_samples(half_width, a, ys.drop_last()) + face_samples(half_width, a, ys.last())
    }
}

/// The samples of the grid points (a, b) for each a of `xs` in turn and, under
/// it, each b of `ys` in turn.
pub open spec fn grid_samples(half_width: int, xs: Seq<int>, ys: Seq<int>) -> Seq<Sample>
    decreases xs.len(),
{
    if xs.len() == 0 {
        Seq::empty()
    } else {
        grid_samples(half_width, xs.drop_last(), ys) + row_samples(half_width, xs.last(), ys)
    }
}

/// All samples of a cube of the given half width with the given step, in the
/// order in which they are drawn.
pub open spec fn cube_samples(half_width: int, step: int) -> Seq<Sample> {
    grid_samples(half_width, offsets(half_width, step), offsets(half_width, step))
}

/// The grid values from `start` on are the numbers from `start` up to, but not
/// including, the half width that lie a whole number of steps above `start`.
pub proof fn lemma_offsets_from(start: int, half_width: int, step: int, v: int)
    requires
        step > 0,
    ensures
        offsets_from(start, half_width, step).contains(v) <==> start <= v < half_width && (v
            - start) % step == 0,
    decreases
        (if start < half_width {
            half_width - start
        } else {
            0
        }),
{
    if start < half_width {
        let rest = offsets_from(start + step, half_width, step);
        lemma_offsets_from(start + step, half_width, step, v);
        lemma_seq_concat_contains_all_elements(seq![start], rest, v);
        assert(seq![start].contains(v) <==> v == start) by {
            assert(seq![start][0] == start);
        }
        lemma_mod_sub_multiples_vanish(v - start, step);
        assert(-step + (v - start) == v - (start + step));
        if v == start {
            lemma_small_mod(0, step as nat);
        }
        if start < v < start + step {
            lemma_small_mod((v - start) as nat, step as nat);
        }
    }
}

/// The grid values of a face are the numbers from minus the half width up to,
/// but not including, the half width that lie a whole number of steps above
/// minus the half width.
pub proof fn lemma_offsets(half_width: int, step: int, v: int)
    requires
        step > 0,
    ensures
        offsets(half_width, step).contains(v) <==> -half_width <= v < half_width && (v
            + half_width) % step == 0,
{
    lemma_offsets_from(-half_width, half_width, step, v);
    assert(v - (-half_width) == v + half_width);
}

/// Offering one more sample after a run of samples.
pub proof fn lemma_drawn_push(f: FrameView, samples: Seq<Sample>, s: Sample, scene: Scene)
    ensures
        drawn(f, samples.push(s), scene) == offered(drawn(f, samples, scene), s, scene),
{
    assert(samples.push(s).drop_last() =~= samples);
}

/// Offering the six samples of a grid point after a run of samples.
proof fn lemma_drawn_faces(
    f: FrameView,
    samples: Seq<Sample>,
    half_width: int,
    a: int,
    b: int,
    scene: Scene,
)
    ensures
        drawn(f, samples + face_samples(half_width, a, b), scene) == offered(
            offered(
                offered(
                    offered(
                        offered(
                            offered(
                                drawn(f, samples, scene),
                                face_samples(half_width, a, b)[0],
                                scene,
                            ),
                            face_samples(half_width, a, b)[1],
                            scene,
                        ),
                        face_samples(half_width, a, b)[2],
                        scene,
                    ),
                    face_samples(half_width, a, b)[3],
                    scene,
                ),
                face_samples(half_width, a, b)[4],
                scene,
            ),
            face_samples(half_width, a, b)[5],
            scene,
        ),
{
    let six = face_samples(half_width, a, b);
    let s1 = samples.push(six[0]);
    let s2 = s1.push(six[1]);
    let s3 = s2.push(six[2]);
    let s4 = s3.push(six[3]);
    let s5 = s4.push(six[4]);
    let s6 = s5.push(six[5]);
    assert(s6 =~= samples + six);
    lemma_drawn_push(f, samples, six[0], scene);
    lemma_drawn_push(f, s1, six[1], scene);
    lemma_drawn_push(f, s2, six[2], scene);
    lemma_drawn_push(f, s3, six[3], scene);
    lemma_drawn_push(f, s4, six[4], scene);
    lemma_drawn_push(f, s5, six[5], scene);
}

/// The centre of the cube is drawn in the centre of the canvas: the sample at
/// the origin falls on the middle cell, whatever the angles, the projection
/// scale and the camera distance, as long as that is not zero.
pub proof fn lemma_origin_lands_on_centre(width: int, height: int, tag: char, scene: Scene)
    requires
        width >= 1,
        height >= 1,
        scene.distance != 0,
    ensures
        landing(width, height, Sample { x: 0, y: 0, z: 0, tag }, scene) == Some(
            crate::projection::Pixel {
                xp: width / 2,
                yp: height / 2,
                distance: scene.distance * TRIG_UNIT_CUBED,
            },
        ),
{
    lemma_centre_is_fixed(width, height, scene.distance, scene.scale);
}

/// Turns one sample of the cube, projects it and offers it to the canvas: the
/// cell on which it falls takes its tag where its depth key exceeds the key
/// that the cell holds. A sample at effective distance zero, and one that
/// falls outside the canvas, changes nothing. The coordinates, the camera
/// distance and the projection scale are in hundredths.
pub fn calculate_for_surface(
    cube_x: i32,
    cube_y: i32,
    cube_z: i32,
    ch: char,
    frame: &mut FrameState,
    orientation: &Orientation,
    distance_from_camera: i64,
    projection_scale: i64,
)
    requires
        -PARAMETER_LIMIT <= distance_from_camera <= PARAMETER_LIMIT,
        -PARAMETER_LIMIT <= projection_scale <= PARAMETER_LIMIT,
    ensures
        final(frame)@ == offered(
            old(frame)@,
            Sample { x: cube_x as int, y: cube_y as int, z: cube_z as int, tag: ch },
            Scene {
                trig: orientation@,
                distance: distance_from_camera as int,
                scale: projection_scale as int,
            },
        ),
{
    let x = calculate_x(cube_x, cube_y, cube_z, orientation);
    let y = calculate_y(cube_x, cube_y, cube_z, orientation);
    let z = calculate_z(cube_x, cube_y, cube_z, orientation);
    let width = frame.width();
    let height = frame.height();
    match project(x, y, z, distance_from_camera, projection_scale, width, height) {
        Some(point) => {
            frame.plot(&point, ch);
        },
        None => {},
    }
}

/// The scene that a set of parameters and the sines and cosines of its
/// angles describe.
pub open spec fn scene_of(params: CubeParameters, trig: Trig) -> Scene {
    Scene {
        trig,
        distance: params.distance_from_camera as int,
        scale: params.projection_scale as int,
    }
}

/// Draws a cube of the given half width, in hundredths, on the canvas: every
/// sample of each of the six faces is turned, projected and offered to the
/// canvas, so that each cell ends with the tag of the nearest sample that fell
/// on it. The turn is the one whose sines and cosines the caller hands in as
/// `orientation`; the angles held in `params` are not read. Of `params` the
/// camera distance, the projection scale and the resolution step are used,
/// each brought into its range first; a resolution step below
/// `MIN_RESOLUTION_STEP` counts as that. A half width of zero or less has no
/// samples.
pub fn draw_cube(
    frame: &mut FrameState,
    half_width: i32,
    params: &CubeParameters,
    orientation: &Orientation,
)
    ensures
        final(frame)@ == drawn(
            old(frame)@,
            cube_samples(half_width as int, params.normal_form().resolution_step as int),
            scene_of(params.normal_form(), orientation@),
        ),
{
    let bounded = params.normalized();
    let step: i64 = bounded.resolution_step;
    let distance: i64 = bounded.distance_from_camera;
    let scale: i64 = bounded.projection_scale;
    let h: i64 = half_width as i64;
    let ghost scene = scene_of(bounded, orientation@);
    let ghost start = frame@;
    let ghost all = offsets(h as int, step as int);
    let ghost mut done_x: Seq<int> = Seq::empty();
    let mut cube_x: i64 = -h;
    proof {
        assert(done_x + offsets_from(cube_x as int, h as int, step as int) =~= all);
    }
    while cube_x < h
        invariant
            h == half_width,
            5 <= step <= PARAMETER_LIMIT,
            -PARAMETER_LIMIT <= distance <= PARAMETER_LIMIT,
            -PARAMETER_LIMIT <= scale <= PARAMETER_LIMIT,
            scene == scene_of(bounded, orientation@),
            distance == bounded.distance_from_camera,
            scale == bounded.projection_scale,
            -h <= cube_x,
            all == offsets(h as int, step as int),
            all == done_x + offsets_from(cube_x as int, h as int, step as int),
            frame@ == drawn(start, grid_samples(h as int, done_x, all), scene),
        decreases h + step - cube_x,
    {
        let ghost before_row = grid_samples(h as int, done_x, all);
        let ghost mut done_y: Seq<int> = Seq::empty();
        let mut cube_y: i64 = -h;
        proof {
            assert(done_y + offsets_from(cube_y as int, h as int, step as int) =~= all);
            assert(before_row + row_samples(h as int, cube_x as int, done_y) =~= before_row);
        }
        while cube_y < h
            invariant
                h == half_width,
                5 <= step <= PARAMETER_LIMIT,
                -PARAMETER_LIMIT <= distance <= PARAMETER_LIMIT,
                -PARAMETER_LIMIT <= scale <= PARAMETER_LIMIT,
                scene == scene_of(bounded, orientation@),
                distance == bounded.distance_from_camera,
                scale == bounded.projection_scale,
                -h <= cube_x < h,
                -h <= cube_y,
                all == done_y + offsets_from(cube_y as int, h as int, step as int),
                frame@ == drawn(
                    start,
                    before_row + row_samples(h as int, cube_x as int, done_y),
                    scene,
                ),
            decreases h + step - cube_y,
        {
            let ghost so_far = before_row + row_samples(h as int, cube_x as int, done_y);
            let a: i32 = cube_x as i32;
            let b: i32 = cube_y as i32;
            calculate_for_surface(a, b, -half_width, 'K', frame, orientation, distance, scale);
            calculate_for_surface(a, b, half_width, 'F', frame, orientation, distance, scale);
            calculate_for_surface(-half_width, b, a, 'L', frame, orientation, distance, scale);
            calculate_for_surface(half_width, b, a, 'R', frame, orientation, distance, scale);
            calculate_for_surface(a, -half_width, b, 'B', frame, orientation, distance, scale);
            calculate_for_surface(a, half_width, b, 'T', frame, orientation, distance, scale);
            proof {
                lemma_drawn_faces(start, so_far, h as int, cube_x as int, cube_y as int, scene);
                let rest = offsets_from(cube_y + step, h as int, step as int);
                assert(done_y.push(cube_y as int).drop_last() =~= done_y);
                assert(done_y + (seq![cube_y as int] + rest) =~= done_y.push(cube_y as int)
                    + rest);
                assert(before_row + (row_samples(h as int, cube_x as int, done_y) + face_samples(
                    h as int,
                    cube_x as int,
                    cube_y as int,
                )) =~= so_far + face_samples(h as int, cube_x as int, cube_y as int));
                done_y = done_y.push(cube_y as int);
            }
            cube_y = cube_y + step;
        }
        proof {
            assert(done_y + offsets_from(cube_y as int, h as int, step as int) =~= done_y);
            let rest = offsets_from(cube_x + step, h as int, step as int);
            assert(done_x.push(cube_x as int).drop_last() =~= done_x);
            assert(done_x + (seq![cube_x as int] + rest) =~= done_x.push(cube_x as int) + rest);
            done_x = done_x.push(cube_x as int);
        }
        cube_x = cube_x + step;
    }
    proof {
        assert(done_x + offsets_from(cube_x as int, h as int, step as int) =~= done_x);
    }
}

} // verus!
