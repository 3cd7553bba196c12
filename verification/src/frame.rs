//! The canvas of one frame: a depth buffer and a character buffer that are
//! written together.
//!
//! Both buffers hold one entry for every cell, row after row. The depth buffer
//! holds the effective distance of the nearest point drawn on the cell so far,
//! or nothing. Nothing stands for the depth key zero, a point infinitely far
//! away; a held distance is positive and stands for its reciprocal. So the
//! larger depth key belongs to the smaller distance, and any point in front of
//! the camera beats an empty cell.

use vstd::prelude::*;
use crate::constants::BACKGROUND_ASCII_CODE;
use crate::constants::MAX_CANVAS_SIDE;
use crate::projection::Pixel;
use crate::projection::ScreenPoint;

verus! {

/// The canvas as mathematics sees it.
pub struct FrameView {
    /// Number of columns.
    pub width: int,
    /// Number of rows.
    pub height: int,
    /// For each cell, row after row, the distance held, if any.
    pub depth: Seq<Option<int>>,
    /// For each cell, row after row, its character.
    pub chars: Seq<char>,
}

/// Whether the depth key of a point at effective distance `e` exceeds the key
/// that a cell holds: the point lies in front of the camera, and the cell is
/// empty or holds a larger distance.
pub open spec fn beats(e: int, held: Option<int>) -> bool {
    e > 0 && (held is None || e < held->0)
}

impl FrameView {
    /// Both sides are within their limits, both buffers have one entry for
    /// each cell, and every distance held is positive.
    pub open spec fn wf(self) -> bool {
        &&& 1 <= self.width <= MAX_CANVAS_SIDE
        &&& 1 <= self.height <= MAX_CANVAS_SIDE
        &&& self.depth.len() == self.width * self.height
        &&& self.chars.len() == self.width * self.height
        &&& forall|i: int|
            0 <= i < self.depth.len() && (#[trigger] self.depth[i]) is Some ==> self.depth[i]->0
                > 0
    }

    /// The canvas of the given size on which nothing is drawn.
    pub open spec fn blank(width: int, height: int) -> FrameView {
        FrameView {
            width,
            height,
            depth: Seq::new((width * height) as nat, |i: int| None),
            chars: Seq::new((width * height) as nat, |i: int| BACKGROUND_ASCII_CODE),
        }
    }

    /// This canvas with everything wiped off.
    pub open spec fn cleared(self) -> FrameView {
        FrameView::blank(self.width, self.height)
    }

    /// Whether column `xp` and row `yp` name a cell of this canvas.
    pub open spec fn holds(self, xp: int, yp: int) -> bool {
        0 <= xp < self.width && 0 <= yp < self.height
    }

    /// The place of the cell in column `xp` and row `yp` in the two buffers.
    pub open spec fn index_of(self, xp: int, yp: int) -> int {
        xp + yp * self.width
    }

    /// This canvas after the point `p` with the tag `tag` was offered to it:
    /// where the point names a cell and beats what the cell holds, the cell
    /// takes the point's distance and tag; otherwise nothing changes.
    pub open spec fn plotted(self, p: Pixel, tag: char) -> FrameView {
        let idx = self.index_of(p.xp, p.yp);
        if self.holds(p.xp, p.yp) && beats(p.distance, self.depth[idx]) {
            FrameView {
                width: self.width,
                height: self.height,
                depth: self.depth.update(idx, Some(p.distance)),
                chars: self.chars.update(idx, tag),
            }
        } else {
            self
        }
    }
}

/// A cell of a canvas lies within the buffers, which are no longer than a
/// 32-bit index can reach.
pub proof fn lemma_index_in_range(width: int, height: int, xp: int, yp: int)
    requires
        0 <= xp < width <= MAX_CANVAS_SIDE,
        0 <= yp < height <= MAX_CANVAS_SIDE,
    ensures
        0 <= yp * width,
        0 <= xp + yp * width < width * height <= 0xffff_ffff,
{
    assert(width * height <= 1_024 * 1_024) by (nonlinear_arith)
        requires
            0 <= width <= 1_024,
            0 <= height <= 1_024,
    ;
    assert(0 <= yp * width <= (height - 1) * width) by (nonlinear_arith)
        requires
            0 <= yp <= height - 1,
            0 < width,
    ;
    assert((height - 1) * width == height * width - width) by (nonlinear_arith);
    assert(height * width == width * height) by (nonlinear_arith);
}

/// Wiping is a full reset: to wipe a canvas twice is to wipe it once.
pub proof fn lemma_cleared_twice(f: FrameView)
    ensures
        f.cleared().cleared() == f.cleared(),
{
}

/// A blank canvas within the limits is well formed.
pub proof fn lemma_blank_wf(width: int, height: int)
    requires
        1 <= width <= MAX_CANVAS_SIDE,
        1 <= height <= MAX_CANVAS_SIDE,
    ensures
        FrameView::blank(width, height).wf(),
{
    assert(width * height >= 0) by (nonlinear_arith)
        requires
            width >= 1,
            height >= 1,
    ;
}

/// A held distance as a whole number without bounds.
pub open spec fn widened(held: Option<i128>) -> Option<int> {
    match held {
        Some(e) => Some(e as int),
        None => None,
    }
}

/// Writes one entry of a depth buffer.
fn put(cells: &mut Vec<Option<i128>>, i: usize, held: Option<i128>)
    requires
        i < old(cells)@.len(),
    ensures
        final(cells)@ == old(cells)@.update(i as int, held),
    no_unwind
{
    cells[i] = held;
}

/// The depth buffer and the character buffer of one frame.
pub struct FrameState {
    width: usize,
    height: usize,
    depth: Vec<Option<i128>>,
    chars: Vec<char>,
}

impl View for FrameState {
    type V = FrameView;

    closed spec fn view(&self) -> FrameView {
        FrameView {
            width: self.width as int,
            height: self.height as int,
            depth: Seq::new(self.depth@.len(), |i: int| widened(self.depth@[i])),
            chars: self.chars@,
        }
    }
}

impl FrameState {
    /// Holds of every canvas that exists.
    #[verifier::type_invariant]
    pub closed spec fn well_formed(self) -> bool {
        &&& 1 <= self.width <= MAX_CANVAS_SIDE
        &&& 1 <= self.height <= MAX_CANVAS_SIDE
        &&& self.depth@.len() == self.width * self.height
        &&& self.chars@.len() == self.width * self.height
        &&& forall|i: int|
            0 <= i < self.depth@.len() && (#[trigger] self.depth@[i]) is Some ==> self.depth@[i]->0
                > 0
    }

    /// The view of a canvas that exists is well formed.
    pub proof fn lemma_view_wf(self)
        requires
            self.well_formed(),
        ensures
            self@.wf(),
    {
        assert forall|i: int| 0 <= i < self@.depth.len() && (#[trigger] self@.depth[i]) is Some
            implies self@.depth[i]->0 > 0 by {
            assert(self@.depth[i] == widened(self.depth@[i]));
        }
    }

    /// A canvas of `width` columns and `height` rows on which nothing is
    /// drawn; `None` where a side is zero or longer than `MAX_CANVAS_SIDE`.
    pub fn new(width: usize, height: usize) -> (made: Option<FrameState>)
        ensures
            made is Some <==> 1 <= width <= MAX_CANVAS_SIDE && 1 <= height <= MAX_CANVAS_SIDE,
            made is Some ==> made->0@ == FrameView::blank(width as int, height as int),
    {
        if width == 0 || width > MAX_CANVAS_SIDE || height == 0 || height > MAX_CANVAS_SIDE {
            return None;
        }
        proof {
            assert(width * height <= 1_024 * 1_024) by (nonlinear_arith)
                requires
                    width <= 1_024,
                    height <= 1_024,
            ;
        }
        let cells: usize = width * height;
        let mut depth: Vec<Option<i128>> = Vec::new();
        let mut chars: Vec<char> = Vec::new();
        let mut filled: usize = 0;
        while filled < cells
            invariant
                filled <= cells,
                depth@.len() == filled,
                chars@.len() == filled,
                forall|i: int| 0 <= i < filled ==> depth@[i] is None,
                forall|i: int| 0 <= i < filled ==> chars@[i] == BACKGROUND_ASCII_CODE,
            decreases cells - filled,
        {
            depth.push(None);
            chars.push(BACKGROUND_ASCII_CODE);
            filled = filled + 1;
        }
        let made = FrameState { width, height, depth, chars };
        proof {
            assert(made@.depth =~= FrameView::blank(width as int, height as int).depth);
            assert(made@.chars =~= FrameView::blank(width as int, height as int).chars);
        }
        Some(made)
    }

    /// Number of columns.
    pub fn width(&self) -> (width: usize)
        ensures
            width == self@.width,
            1 <= width <= MAX_CANVAS_SIDE,
    {
        proof {
            use_type_invariant(self);
        }
        self.width
    }

    /// Number of rows.
    pub fn height(&self) -> (height: usize)
        ensures
            height == self@.height,
            1 <= height <= MAX_CANVAS_SIDE,
    {
        proof {
            use_type_invariant(self);
        }
        self.height
    }

    /// Wipes the canvas: every cell gets the background character and holds no
    /// distance. To be called before the cube is drawn for a frame.
    pub fn begin_frame(&mut self)
        ensures
            final(self)@ == old(self)@.cleared(),
    {
        proof {
            use_type_invariant(&*self);
        }
        let cells: usize = self.depth.len();
        let mut done: usize = 0;
        while done < cells
            invariant
                done <= cells,
                self.width == old(self).width,
                self.height == old(self).height,
                self.depth@.len() == cells,
                self.chars@.len() == cells,
                cells == self.width * self.height,
                1 <= self.width <= MAX_CANVAS_SIDE,
                1 <= self.height <= MAX_CANVAS_SIDE,
                forall|i: int| 0 <= i < done ==> self.depth@[i] is None,
                forall|i: int| 0 <= i < done ==> self.chars@[i] == BACKGROUND_ASCII_CODE,
                forall|i: int|
                    0 <= i < cells && (#[trigger] self.depth@[i]) is Some ==> self.depth@[i]->0
                        > 0,
            decreases cells - done,
        {
            put(&mut self.depth, done, None);
            self.chars[done] = BACKGROUND_ASCII_CODE;
            done = done + 1;
        }
        proof {
            assert(self@.depth =~= old(self)@.cleared().depth);
            assert(self@.chars =~= old(self)@.cleared().chars);
        }
    }

    /// The character buffer, row after row.
    pub fn buffer(&self) -> (chars: &Vec<char>)
        ensures
            chars@ == self@.chars,
    {
        &self.chars
    }

    /// The character of the cell in column `xp` and row `yp`, or `None` where
    /// the canvas has no such cell.
    pub fn char_at(&self, xp: usize, yp: usize) -> (found: Option<char>)
        ensures
            found == if self@.holds(xp as int, yp as int) {
                Some(self@.chars[self@.index_of(xp as int, yp as int)])
            } else {
                None
            },
    {
        proof {
            use_type_invariant(self);
        }
        if xp < self.width && yp < self.height {
            proof {
                lemma_index_in_range(self.width as int, self.height as int, xp as int, yp as int);
            }
            Some(self.chars[xp + yp * self.width])
        } else {
            None
        }
    }

    /// The distance that the cell in column `xp` and row `yp` holds, or `None`
    /// where it holds none or the canvas has no such cell.
    pub fn distance_at(&self, xp: usize, yp: usize) -> (found: Option<i128>)
        ensures
            widened(found) == if self@.holds(xp as int, yp as int) {
                self@.depth[self@.index_of(xp as int, yp as int)]
            } else {
                None
            },
    {
        proof {
            use_type_invariant(self);
        }
        if xp < self.width && yp < self.height {
            proof {
                lemma_index_in_range(self.width as int, self.height as int, xp as int, yp as int);
            }
            self.depth[xp + yp * self.width]
        } else {
            None
        }
    }

    /// Offers a point with its tag to the canvas. Where the point names a cell
    /// and its depth key exceeds the key that the cell holds, the cell takes
    /// the point's distance and tag; otherwise nothing changes.
    pub fn plot(&mut self, point: &ScreenPoint, tag: char)
        ensures
            final(self)@ == old(self)@.plotted(point@, tag),
    {
        proof {
            use_type_invariant(&*self);
        }
        if point.xp >= self.width || point.yp >= self.height {
            return ;
        }
        proof {
            lemma_index_in_range(
                self.width as int,
                self.height as int,
                point.xp as int,
                point.yp as int,
            );
        }
        let idx: usize = point.xp + point.yp * self.width;
        let nearer: bool = point.distance > 0 && match self.depth[idx] {
            None => true,
            Some(held) => point.distance < held,
        };
        if nearer {
            put(&mut self.depth, idx, Some(point.distance));
            self.chars[idx] = tag;
            proof {
                assert(self@.depth =~= old(self)@.plotted(point@, tag).depth);
            }
        }
    }
}

} // verus!
