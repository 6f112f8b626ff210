//! The line rasterizer.
//!
//! The stepping interpolation along a segment is real arithmetic and is the
//! caller's: the caller hands in the pixel coordinate of every step, one per
//! step, already truncated. The rasterizer owns the rest: the degenerate-
//! segment guard, the range-checked plotting, and the single-pixel plot when
//! the two endpoints are numerically equal.

use crate::canvas::Canvas;
use crate::canvas::Color;
use crate::geometry::Point;
use crate::ieee;
use vstd::prelude::*;

verus! {

/// The two endpoints are numerically equal, so the segment has zero length.
/// Interpolating across it would divide by that zero length; such a segment
/// is instead plotted as the single pixel at its truncated endpoint.
pub open spec fn degenerate(p0: Point, p1: Point) -> bool {
    ieee::spec_eq(p0.x, p1.x) && ieee::spec_eq(p0.y, p1.y)
}

/// Some step plots the pixel at `(x, y)`.
pub open spec fn hits(steps: Seq<(u32, u32)>, x: u32, y: u32) -> bool {
    exists|i: int| 0 <= i < steps.len() && steps[i] == (x, y)
}

/// Draws one line segment into the canvas, one pixel per step. `steps` holds
/// the pixel coordinate of each interpolation step between `p0` and `p1`,
/// computed by the caller; a step outside the canvas is discarded. When the
/// endpoints are numerically equal the steps are ignored and exactly the one
/// pixel at the truncated endpoint is plotted.
pub fn draw_line(canvas: &mut Canvas, p0: Point, p1: Point, steps: &Vec<(u32, u32)>, color: Color)
    requires
        old(canvas).wf(),
    ensures
        final(canvas).wf(),
        final(canvas).width_spec() == old(canvas).width_spec(),
        final(canvas).height_spec() == old(canvas).height_spec(),
        degenerate(p0, p1) ==> forall|px: u32, py: u32|
            px < old(canvas).width_spec() && py < old(canvas).height_spec()
                ==> final(canvas).pixel(px as int, py as int) == (if px == ieee::spec_trunc(p0.x)
                && py == ieee::spec_trunc(p0.y) {
                color
            } else {
                old(canvas).pixel(px as int, py as int)
            }),
        !degenerate(p0, p1) ==> forall|px: u32, py: u32|
            px < old(canvas).width_spec() && py < old(canvas).height_spec()
                ==> final(canvas).pixel(px as int, py as int) == (if hits(steps@, px, py) {
                color
            } else {
                old(canvas).pixel(px as int, py as int)
            }),
{
    if ieee::eq(p0.x, p1.x) && ieee::eq(p0.y, p1.y) {
        let px = ieee::trunc(p0.x);
        let py = ieee::trunc(p0.y);
        canvas.put_pixel(px, py, color);
    } else {
        let mut i: usize = 0;
        while i < steps.len()
            invariant
                i <= steps.len(),
                canvas.wf(),
                canvas.width_spec() == old(canvas).width_spec(),
                canvas.height_spec() == old(canvas).height_spec(),
                forall|px: u32, py: u32|
                    px < old(canvas).width_spec() && py < old(canvas).height_spec() ==> canvas.pixel(
                        px as int,
                        py as int,
                    ) == (if hits(steps@.take(i as int), px, py) {
                        color
                    } else {
                        old(canvas).pixel(px as int, py as int)
                    }),
            decreases steps.len() - i,
        {
            let (sx, sy) = steps[i];
            canvas.put_pixel(sx, sy, color);
            proof {
                assert(steps@.take(i as int + 1)[i as int] == (sx, sy));
                assert forall|px: u32, py: u32|
                    hits(steps@.take(i as int), px, py) implies hits(
                    steps@.take(i as int + 1),
                    px,
                    py,
                ) by {
                    let j = choose|j: int|
                        0 <= j < steps@.take(i as int).len() && #[trigger] steps@.take(i as int)[j] == (px,
                        py);
                    assert(steps@.take(i as int + 1)[j] == (px, py));
                }
                assert forall|px: u32, py: u32|
                    hits(steps@.take(i as int + 1), px, py) && !hits(steps@.take(i as int), px, py)
                    implies (px, py) == (sx, sy) by {
                    let j = choose|j: int|
                        0 <= j < steps@.take(i as int + 1).len() && #[trigger] steps@.take(
                        i as int + 1,
                        )[j] == (px, py);
                    if j < i as int {
                        assert(steps@.take(i as int)[j] == (px, py));
                    }
                }
            }
            i = i + 1;
        }
        proof {
            assert(steps@.take(steps@.len() as int) =~= steps@);
        }
    }
}

} // verus!
