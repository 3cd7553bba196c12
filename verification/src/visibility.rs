//! Which sample a cell shows: the nearest one, whatever the order of drawing.
//!
//! A cell ends with the smallest distance among the samples in front of the
//! camera that fell on it, if that beats what the cell held before, and with
//! the tag of a sample at that distance. So two runs over the same samples
//! can differ only where samples of different tags tie for the nearest place
//! on a cell; there the one drawn first stays.

use vstd::prelude::*;
use crate::constants::BACKGROUND_ASCII_CODE;
use crate::constants::MAX_CANVAS_SIDE;
use crate::frame::beats;
use crate::frame::lemma_blank_wf;
use crate::frame::lemma_index_in_range;
use crate::frame::FrameView;
use crate::rendering::drawn;
use crate::rendering::landing;
use crate::rendering::offered;
use crate::rendering::Sample;
use crate::rendering::Scene;

verus! {

/// Whether the sample falls on the cell at place `c` of the buffers.
pub open spec fn hits(f: FrameView, s: Sample, scene: Scene, c: int) -> bool {
    landing(f.width, f.height, s, scene) matches Some(p) && f.index_of(p.xp, p.yp) == c
}

/// The effective distance of a sample that falls on the canvas.
pub open spec fn reach(f: FrameView, s: Sample, scene: Scene) -> int {
    landing(f.width, f.height, s, scene)->0.distance
}

/// Whether the sample is a nearest one on the cell at place `c`: it falls on
/// that cell, beats what the cell holds before the drawing, and no sample of
/// the run that falls on the cell in front of the camera is nearer.
pub open spec fn wins(f: FrameView, samples: Seq<Sample>, scene: Scene, s: Sample, c: int) -> bool {
    &&& hits(f, s, scene, c)
    &&& beats(reach(f, s, scene), f.depth[c])
    &&& forall|k: int|
        0 <= k < samples.len() && #[trigger] hits(f, samples[k], scene, c) && reach(
            f,
            samples[k],
            scene,
        ) > 0 ==> reach(f, s, scene) <= reach(f, samples[k], scene)
}

/// Whether the samples that tie for the nearest place on a cell all carry the
/// same tag.
pub open spec fn ties_agree(f: FrameView, samples: Seq<Sample>, scene: Scene) -> bool {
    forall|i: int, j: int, c: int|
        0 <= i < samples.len() && 0 <= j < samples.len() && #[trigger] wins(
            f,
            samples,
            scene,
            samples[i],
            c,
        ) && #[trigger] wins(f, samples, scene, samples[j], c) ==> samples[i].tag
            == samples[j].tag
}

/// Whether the cell at place `c` of `r` shows the outcome of drawing the
/// samples on `f`: it is as it was, or it holds the distance and the tag of a
/// sample that fell on it and beat what it held; and no sample that fell on it
/// beats what it holds now.
pub open spec fn settled(
    f: FrameView,
    r: FrameView,
    samples: Seq<Sample>,
    scene: Scene,
    c: int,
) -> bool {
    &&& (r.depth[c] == f.depth[c] && r.chars[c] == f.chars[c]) || exists|k: int|
        0 <= k < samples.len() && #[trigger] hits(f, samples[k], scene, c) && beats(
            reach(f, samples[k], scene),
            f.depth[c],
        ) && r.depth[c] == Some(reach(f, samples[k], scene)) && r.chars[c] == samples[k].tag
    &&& forall|k: int|
        0 <= k < samples.len() && #[trigger] hits(f, samples[k], scene, c) ==> !beats(
            reach(f, samples[k], scene),
            r.depth[c],
        )
}

/// What offering one sample does to each cell: the cell on which the sample
/// falls takes its distance and tag where the sample beats what the cell
/// holds; every other cell stays as it is.
pub proof fn lemma_offered_cells(f: FrameView, s: Sample, scene: Scene)
    requires
        f.wf(),
    ensures
        offered(f, s, scene).wf(),
        offered(f, s, scene).width == f.width,
        offered(f, s, scene).height == f.height,
        forall|c: int|
            0 <= c < f.depth.len() ==> if hits(f, s, scene, c) && beats(
                reach(f, s, scene),
                f.depth[c],
            ) {
                #[trigger] offered(f, s, scene).depth[c] == Some(reach(f, s, scene)) && offered(
                    f,
                    s,
                    scene,
                ).chars[c] == s.tag
            } else {
                offered(f, s, scene).depth[c] == f.depth[c] && offered(f, s, scene).chars[c]
                    == f.chars[c]
            },
{
    match landing(f.width, f.height, s, scene) {
        Some(p) => {
            lemma_index_in_range(f.width, f.height, p.xp, p.yp);
        },
        None => {},
    }
}

/// After a run of samples was drawn, every cell is settled.
pub proof fn lemma_drawn_cells(f: FrameView, samples: Seq<Sample>, scene: Scene)
    requires
        f.wf(),
    ensures
        drawn(f, samples, scene).wf(),
        drawn(f, samples, scene).width == f.width,
        drawn(f, samples, scene).height == f.height,
        forall|c: int|
            0 <= c < f.depth.len() ==> #[trigger] settled(
                f,
                drawn(f, samples, scene),
                samples,
                scene,
                c,
            ),
    decreases samples.len(),
{
    let r = drawn(f, samples, scene);
    if samples.len() == 0 {
    } else {
        let init = samples.drop_last();
        let last = samples.last();
        let mid = drawn(f, init, scene);
        lemma_drawn_cells(f, init, scene);
        lemma_offered_cells(mid, last, scene);
        assert forall|c: int| 0 <= c < f.depth.len() implies #[trigger] settled(
            f,
            r,
            samples,
            scene,
            c,
        ) by {
            assert(settled(f, mid, init, scene, c));
            assert(forall|k: int| 0 <= k < init.len() ==> init[k] == samples[k]);
            assert(hits(mid, last, scene, c) == hits(f, last, scene, c));
            assert(reach(mid, last, scene) == reach(f, last, scene));
            let e = reach(f, last, scene);
            if hits(f, last, scene, c) && beats(e, mid.depth[c]) {
                let k0 = samples.len() - 1;
                assert(hits(f, samples[k0], scene, c));
                assert(beats(e, f.depth[c]));
                assert forall|k: int|
                    0 <= k < samples.len() && #[trigger] hits(f, samples[k], scene, c) implies !beats(
                    reach(f, samples[k], scene),
                    r.depth[c],
                ) by {
                    if k < init.len() {
                        assert(hits(f, init[k], scene, c));
                    }
                }
            } else {
                if !(mid.depth[c] == f.depth[c] && mid.chars[c] == f.chars[c]) {
                    let k1 = choose|k: int|
                        0 <= k < init.len() && #[trigger] hits(f, init[k], scene, c) && beats(
                            reach(f, init[k], scene),
                            f.depth[c],
                        ) && mid.depth[c] == Some(reach(f, init[k], scene)) && mid.chars[c]
                            == init[k].tag;
                    assert(hits(f, samples[k1], scene, c));
                }
                assert forall|k: int|
                    0 <= k < samples.len() && #[trigger] hits(f, samples[k], scene, c) implies !beats(
                    reach(f, samples[k], scene),
                    r.depth[c],
                ) by {
                    if k < init.len() {
                        assert(hits(f, init[k], scene, c));
                    }
                }
            }
        }
    }
}

/// The two buffers are written together: on a canvas that was blank before
/// the drawing, a cell that holds no distance still shows the background.
pub proof fn lemma_empty_cells_are_blank(
    width: int,
    height: int,
    samples: Seq<Sample>,
    scene: Scene,
    c: int,
)
    requires
        1 <= width <= MAX_CANVAS_SIDE,
        1 <= height <= MAX_CANVAS_SIDE,
        0 <= c < width * height,
        drawn(FrameView::blank(width, height), samples, scene).depth[c] is None,
    ensures
        drawn(FrameView::blank(width, height), samples, scene).chars[c] == BACKGROUND_ASCII_CODE,
{
    let f = FrameView::blank(width, height);
    lemma_blank_wf(width, height);
    lemma_drawn_cells(f, samples, scene);
    assert(settled(f, drawn(f, samples, scene), samples, scene, c));
}

/// Drawing is decided by depth, not by order: two runs that hold the same
/// samples, in whatever order and however often, leave the same canvas,
/// provided that the samples that tie for the nearest place on a cell carry
/// the same tag.
pub proof fn lemma_draw_order_is_irrelevant(
    f: FrameView,
    first: Seq<Sample>,
    second: Seq<Sample>,
    scene: Scene,
)
    requires
        f.wf(),
        forall|s: Sample| first.contains(s) <==> second.contains(s),
        ties_agree(f, first, scene),
    ensures
        drawn(f, first, scene) == drawn(f, second, scene),
{
    let r1 = drawn(f, first, scene);
    let r2 = drawn(f, second, scene);
    lemma_drawn_cells(f, first, scene);
    lemma_drawn_cells(f, second, scene);
    assert forall|c: int| 0 <= c < f.depth.len() implies r1.depth[c] == r2.depth[c] && r1.chars[c]
        == r2.chars[c] by {
        lemma_cell_is_decided(f, first, second, scene, c);
    }
    assert(r1.depth =~= r2.depth);
    assert(r1.chars =~= r2.chars);
}

/// One cell of the law above.
proof fn lemma_cell_is_decided(
    f: FrameView,
    first: Seq<Sample>,
    second: Seq<Sample>,
    scene: Scene,
    c: int,
)
    requires
        f.wf(),
        0 <= c < f.depth.len(),
        forall|s: Sample| first.contains(s) <==> second.contains(s),
        ties_agree(f, first, scene),
        settled(f, drawn(f, first, scene), first, scene, c),
        settled(f, drawn(f, second, scene), second, scene, c),
    ensures
        drawn(f, first, scene).depth[c] == drawn(f, second, scene).depth[c],
        drawn(f, first, scene).chars[c] == drawn(f, second, scene).chars[c],
{
    let r1 = drawn(f, first, scene);
    let r2 = drawn(f, second, scene);
    let same1 = r1.depth[c] == f.depth[c] && r1.chars[c] == f.chars[c];
    let same2 = r2.depth[c] == f.depth[c] && r2.chars[c] == f.chars[c];
    if !same1 {
        let k1 = choose|k: int|
            0 <= k < first.len() && #[trigger] hits(f, first[k], scene, c) && beats(
                reach(f, first[k], scene),
                f.depth[c],
            ) && r1.depth[c] == Some(reach(f, first[k], scene)) && r1.chars[c] == first[k].tag;
        let e1 = reach(f, first[k1], scene);
        assert(first.contains(first[k1]));
        assert(second.contains(first[k1]));
        let j1 = choose|j: int| 0 <= j < second.len() && second[j] == first[k1];
        assert(hits(f, second[j1], scene, c));
        assert(!beats(e1, r2.depth[c]));
        assert(!same2);
        let k2 = choose|k: int|
            0 <= k < second.len() && #[trigger] hits(f, second[k], scene, c) && beats(
                reach(f, second[k], scene),
                f.depth[c],
            ) && r2.depth[c] == Some(reach(f, second[k], scene)) && r2.chars[c] == second[k].tag;
        let e2 = reach(f, second[k2], scene);
        assert(second.contains(second[k2]));
        assert(first.contains(second[k2]));
        let j2 = choose|j: int| 0 <= j < first.len() && first[j] == second[k2];
        assert(hits(f, first[j2], scene, c));
        assert(!beats(e2, r1.depth[c]));
        assert(e1 == e2);
        assert(wins(f, first, scene, first[k1], c));
        assert(wins(f, first, scene, first[j2], c));
    } else {
        if !same2 {
            let k2 = choose|k: int|
                0 <= k < second.len() && #[trigger] hits(f, second[k], scene, c) && beats(
                    reach(f, second[k], scene),
                    f.depth[c],
                ) && r2.depth[c] == Some(reach(f, second[k], scene)) && r2.chars[c]
                    == second[k].tag;
            assert(second.contains(second[k2]));
            assert(first.contains(second[k2]));
            let j2 = choose|j: int| 0 <= j < first.len() && first[j] == second[k2];
            assert(hits(f, first[j2], scene, c));
            assert(!beats(reach(f, first[j2], scene), r1.depth[c]));
        }
    }
}

} // verus!
