//! The order of the six faces does not show in the picture.
//!
//! The faces are numbered in the order in which they are drawn: 0 for `K`,
//! 1 for `F`, 2 for `L`, 3 for `R`, 4 for `B` and 5 for `T`. A face order
//! names each of the six once.

use vstd::prelude::*;
use vstd::seq_lib::lemma_seq_concat_contains_all_elements;
use crate::frame::FrameView;
use crate::rendering::cube_samples;
use crate::rendering::drawn;
use crate::rendering::face_samples;
use crate::rendering::grid_samples;
use crate::rendering::offsets;
use crate::rendering::row_samples;
use crate::rendering::Sample;
use crate::rendering::Scene;
use crate::visibility::lemma_draw_order_is_irrelevant;
use crate::visibility::ties_agree;

verus! {

/// Whether `order` names each of the six faces once.
pub open spec fn is_face_order(order: Seq<int>) -> bool {
    &&& order.len() == 6
    &&& forall|n: int| 0 <= n < 6 ==> 0 <= #[trigger] order[n] < 6
    &&& forall|face: int| 0 <= face < 6 ==> #[trigger] order.contains(face)
}

/// The faces in the order in which `draw_cube` takes them.
pub open spec fn usual_order() -> Seq<int> {
    seq![0, 1, 2, 3, 4, 5]
}

/// The sample on the face with the given number at the grid point (a, b).
pub open spec fn pick(half_width: int, a: int, b: int, face: int) -> Sample {
    face_samples(half_width, a, b)[face]
}

/// The six samples of the grid point (a, b), the faces taken in `order`.
pub open spec fn faces_in(half_width: int, a: int, b: int, order: Seq<int>) -> Seq<Sample> {
    Seq::new(order.len(), |n: int| pick(half_width, a, b, order[n]))
}

/// The samples of the grid points (a, b) for each b of `ys` in turn, the faces
/// taken in `order`.
pub open spec fn row_in(half_width: int, a: int, ys: Seq<int>, order: Seq<int>) -> Seq<Sample>
    decreases ys.len(),
{
    if ys.len() == 0 {
        Seq::empty()
    } else {
        row_in(half_width, a, ys.drop_last(), order) + faces_in(half_width, a, ys.last(), order)
    }
}

/// The samples of all grid points, the faces taken in `order`.
pub open spec fn grid_in(half_width: int, xs: Seq<int>, ys: Seq<int>, order: Seq<int>) -> Seq<
    Sample,
>
    decreases xs.len(),
{
    if xs.len() == 0 {
        Seq::empty()
    } else {
        grid_in(half_width, xs.drop_last(), ys, order) + row_in(half_width, xs.last(), ys, order)
    }
}

/// All samples of the cube in the order in which they are drawn when the faces
/// are taken in `order` at each grid point.
pub open spec fn cube_samples_in(half_width: int, step: int, order: Seq<int>) -> Seq<Sample> {
    grid_in(half_width, offsets(half_width, step), offsets(half_width, step), order)
}

/// Whether `s` is the sample of some face at some grid point (a, b) with b
/// among `ys`.
pub open spec fn in_row(half_width: int, a: int, ys: Seq<int>, s: Sample) -> bool {
    exists|j: int, face: int|
        0 <= j < ys.len() && 0 <= face < 6 && s == #[trigger] pick(half_width, a, ys[j], face)
}

/// Whether `s` is the sample of some face at some grid point (a, b) with a
/// among `xs` and b among `ys`.
pub open spec fn in_grid(half_width: int, xs: Seq<int>, ys: Seq<int>, s: Sample) -> bool {
    exists|i: int, j: int, face: int|
        0 <= i < xs.len() && 0 <= j < ys.len() && 0 <= face < 6 && s == #[trigger] pick(
            half_width,
            xs[i],
            ys[j],
            face,
        )
}

/// In whatever order the faces are taken, the samples of one grid point are
/// those of its six faces.
proof fn lemma_faces_in_holds(half_width: int, a: int, b: int, order: Seq<int>, s: Sample)
    requires
        is_face_order(order),
    ensures
        faces_in(half_width, a, b, order).contains(s) <==> exists|face: int|
            0 <= face < 6 && s == #[trigger] pick(half_width, a, b, face),
{
    let six = faces_in(half_width, a, b, order);
    if six.contains(s) {
        let n = choose|n: int| 0 <= n < six.len() && six[n] == s;
        assert(s == pick(half_width, a, b, order[n]));
    }
    if exists|face: int| 0 <= face < 6 && s == #[trigger] pick(half_width, a, b, face) {
        let face = choose|face: int| 0 <= face < 6 && s == #[trigger] pick(half_width, a, b, face);
        assert(order.contains(face));
        let n = choose|n: int| 0 <= n < order.len() && order[n] == face;
        assert(six[n] == s);
    }
}

/// In whatever order the faces are taken, the samples of one row of grid
/// points are those of the six faces at its points.
proof fn lemma_row_in_holds(half_width: int, a: int, ys: Seq<int>, order: Seq<int>, s: Sample)
    requires
        is_face_order(order),
    ensures
        row_in(half_width, a, ys, order).contains(s) <==> in_row(half_width, a, ys, s),
    decreases ys.len(),
{
    if ys.len() == 0 {
    } else {
        let init = ys.drop_last();
        let b = ys.last();
        lemma_row_in_holds(half_width, a, init, order, s);
        lemma_faces_in_holds(half_width, a, b, order, s);
        lemma_seq_concat_contains_all_elements(
            row_in(half_width, a, init, order),
            faces_in(half_width, a, b, order),
            s,
        );
        if in_row(half_width, a, init, s) {
            let (j, face) = choose|j: int, face: int|
                0 <= j < init.len() && 0 <= face < 6 && s == #[trigger] pick(
                    half_width,
                    a,
                    init[j],
                    face,
                );
            assert(s == pick(half_width, a, ys[j], face));
        }
        if exists|face: int| 0 <= face < 6 && s == #[trigger] pick(half_width, a, b, face) {
            let face = choose|face: int|
                0 <= face < 6 && s == #[trigger] pick(half_width, a, b, face);
            assert(s == pick(half_width, a, ys[ys.len() - 1], face));
        }
        if in_row(half_width, a, ys, s) {
            let (j, face) = choose|j: int, face: int|
                0 <= j < ys.len() && 0 <= face < 6 && s == #[trigger] pick(
                    half_width,
                    a,
                    ys[j],
                    face,
                );
            if j < init.len() {
                assert(s == pick(half_width, a, init[j], face));
            } else {
                assert(s == pick(half_width, a, b, face));
            }
        }
    }
}

/// In whatever order the faces are taken, the samples of the cube are those of
/// the six faces at its grid points.
proof fn lemma_grid_in_holds(
    half_width: int,
    xs: Seq<int>,
    ys: Seq<int>,
    order: Seq<int>,
    s: Sample,
)
    requires
        is_face_order(order),
    ensures
        grid_in(half_width, xs, ys, order).contains(s) <==> in_grid(half_width, xs, ys, s),
    decreases xs.len(),
{
    if xs.len() == 0 {
    } else {
        let init = xs.drop_last();
        let a = xs.last();
        lemma_grid_in_holds(half_width, init, ys, order, s);
        lemma_row_in_holds(half_width, a, ys, order, s);
        lemma_seq_concat_contains_all_elements(
            grid_in(half_width, init, ys, order),
            row_in(half_width, a, ys, order),
            s,
        );
        if in_grid(half_width, init, ys, s) {
            let (i, j, face) = choose|i: int, j: int, face: int|
                0 <= i < init.len() && 0 <= j < ys.len() && 0 <= face < 6 && s == #[trigger] pick(
                    half_width,
                    init[i],
                    ys[j],
                    face,
                );
            assert(s == pick(half_width, xs[i], ys[j], face));
        }
        if in_row(half_width, a, ys, s) {
            let (j, face) = choose|j: int, face: int|
                0 <= j < ys.len() && 0 <= face < 6 && s == #[trigger] pick(
                    half_width,
                    a,
                    ys[j],
                    face,
                );
            assert(s == pick(half_width, xs[xs.len() - 1], ys[j], face));
        }
        if in_grid(half_width, xs, ys, s) {
            let (i, j, face) = choose|i: int, j: int, face: int|
                0 <= i < xs.len() && 0 <= j < ys.len() && 0 <= face < 6 && s == #[trigger] pick(
                    half_width,
                    xs[i],
                    ys[j],
                    face,
                );
            if i < init.len() {
                assert(s == pick(half_width, init[i], ys[j], face));
            } else {
                assert(s == pick(half_width, a, ys[j], face));
            }
        }
    }
}

/// Every frame takes in all six faces: the samples that `draw_cube` draws are
/// the samples of each of the six faces at each grid point, and no others.
pub proof fn lemma_cube_samples_are_exhaustive(half_width: int, step: int, s: Sample)
    ensures
        cube_samples(half_width, step).contains(s) <==> in_grid(
            half_width,
            offsets(half_width, step),
            offsets(half_width, step),
            s,
        ),
{
    let xs = offsets(half_width, step);
    lemma_usual_order(half_width, xs, xs);
    lemma_usual_order_is_face_order();
    lemma_grid_in_holds(half_width, xs, xs, usual_order(), s);
}

/// Taken in the usual order, the samples are those that `draw_cube` draws.
pub proof fn lemma_usual_order(half_width: int, xs: Seq<int>, ys: Seq<int>)
    ensures
        grid_in(half_width, xs, ys, usual_order()) == grid_samples(half_width, xs, ys),
    decreases xs.len(),
{
    if xs.len() > 0 {
        lemma_usual_order(half_width, xs.drop_last(), ys);
        lemma_usual_row(half_width, xs.last(), ys);
    }
}

/// One row of the law above.
proof fn lemma_usual_row(half_width: int, a: int, ys: Seq<int>)
    ensures
        row_in(half_width, a, ys, usual_order()) == row_samples(half_width, a, ys),
    decreases ys.len(),
{
    if ys.len() > 0 {
        lemma_usual_row(half_width, a, ys.drop_last());
        assert(faces_in(half_width, a, ys.last(), usual_order()) =~= face_samples(
            half_width,
            a,
            ys.last(),
        ));
    }
}

/// The usual order is a face order.
pub proof fn lemma_usual_order_is_face_order()
    ensures
        is_face_order(usual_order()),
{
    let o = usual_order();
    assert(o[0] == 0 && o[1] == 1 && o[2] == 2 && o[3] == 3 && o[4] == 4 && o[5] == 5);
}

/// Drawing the six faces in any order gives the same canvas as drawing them in
/// the usual order, for the same cube, step and scene, provided that the
/// samples that tie for the nearest place on a cell carry the same tag.
pub proof fn lemma_face_order_is_irrelevant(
    f: FrameView,
    half_width: int,
    step: int,
    order: Seq<int>,
    scene: Scene,
)
    requires
        f.wf(),
        is_face_order(order),
        ties_agree(f, cube_samples(half_width, step), scene),
    ensures
        drawn(f, cube_samples_in(half_width, step, order), scene) == drawn(
            f,
            cube_samples(half_width, step),
            scene,
        ),
{
    let xs = offsets(half_width, step);
    let usual = cube_samples(half_width, step);
    let other = cube_samples_in(half_width, step, order);
    lemma_usual_order(half_width, xs, xs);
    lemma_usual_order_is_face_order();
    assert forall|s: Sample| usual.contains(s) <==> other.contains(s) by {
        lemma_grid_in_holds(half_width, xs, xs, usual_order(), s);
        lemma_grid_in_holds(half_width, xs, xs, order, s);
    }
    lemma_draw_order_is_irrelevant(f, usual, other, scene);
}

} // verus!
