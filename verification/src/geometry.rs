//! Geometry vertices and axis-aligned bounding boxes.

use crate::ieee;
use vstd::prelude::*;

verus! {

/// A geometry vertex in double precision, as emitted by the turtle
/// interpreter. Each coordinate is the bit pattern of a double-precision
/// value, held in a plain `u64`.
#[derive(Clone, Copy, Debug, PartialEq, Eq, Structural)]
pub struct Vertex {
    pub x: u64,
    pub y: u64,
}

/// A geometry vertex in single precision. Each coordinate is the bit pattern
/// of a single-precision value, held in a plain `u32`. The caller demotes the
/// turtle's double-precision vertices to these before computing bounds.
#[derive(Clone, Copy, Debug, PartialEq, Eq, Structural)]
pub struct Point {
    pub x: u32,
    pub y: u32,
}

/// An axis-aligned rectangle. Each side is the bit pattern of a
/// single-precision value, held in a plain `u32`.
#[derive(Clone, Copy, Debug, PartialEq, Eq, Structural)]
pub struct Bounds {
    pub xmin: u32,
    pub ymin: u32,
    pub xmax: u32,
    pub ymax: u32,
}

impl Bounds {
    /// Whether either axis of the box has collapsed: its low and high sides
    /// are numerically equal. Mapping out of such a box divides by the zero
    /// span and produces nothing finite, so a caller tests this first.
    pub fn has_degenerate_axis(&self) -> (r: bool)
        ensures
            r == (ieee::spec_eq(self.xmin, self.xmax) || ieee::spec_eq(self.ymin, self.ymax)),
    {
        ieee::eq(self.xmin, self.xmax) || ieee::eq(self.ymin, self.ymax)
    }
}

/// The box seeding the bounding-box fold: all four sides at the origin. The
/// computed box therefore always contains the origin, whether or not any
/// point lies there.
pub open spec fn origin_bounds() -> Bounds {
    Bounds { xmin: 0, ymin: 0, xmax: 0, ymax: 0 }
}

/// One step of the bounding-box fold: widen each side of `b` that `p` lies
/// beyond. A NaN coordinate compares with nothing and so never widens a side.
pub open spec fn bounds_step(b: Bounds, p: Point) -> Bounds {
    Bounds {
        xmin: if ieee::spec_lt(p.x, b.xmin) {
            p.x
        } else {
            b.xmin
        },
        ymin: if ieee::spec_lt(p.y, b.ymin) {
            p.y
        } else {
            b.ymin
        },
        xmax: if ieee::spec_lt(b.xmax, p.x) {
            p.x
        } else {
            b.xmax
        },
        ymax: if ieee::spec_lt(b.ymax, p.y) {
            p.y
        } else {
            b.ymax
        },
    }
}

/// The bounding box of a point sequence: the fold of `bounds_step` over the
/// points, seeded at the origin box.
pub open spec fn bounds_of(ps: Seq<Point>) -> Bounds
    decreases ps.len(),
{
    if ps.len() == 0 {
        origin_bounds()
    } else {
        bounds_step(bounds_of(ps.drop_last()), ps.last())
    }
}

/// Folds min and max over all point coordinates, seeded at the origin box.
pub fn compute_bounds(points: &Vec<Point>) -> (b: Bounds)
    ensures
        b == bounds_of(points@),
{
    let mut b = Bounds { xmin: 0, ymin: 0, xmax: 0, ymax: 0 };
    let mut i: usize = 0;
    while i < points.len()
        invariant
            i <= points.len(),
            b == bounds_of(points@.take(i as int)),
        decreases points.len() - i,
    {
        let p = points[i];
        if ieee::lt(p.x, b.xmin) {
            b.xmin = p.x;
        }
        if ieee::lt(p.y, b.ymin) {
            b.ymin = p.y;
        }
        if ieee::lt(b.xmax, p.x) {
            b.xmax = p.x;
        }
        if ieee::lt(b.ymax, p.y) {
            b.ymax = p.y;
        }
        proof {
            assert(points@.take(i as int + 1).drop_last() =~= points@.take(i as int));
            assert(points@.take(i as int + 1).last() == points@[i as int]);
        }
        i = i + 1;
    }
    proof {
        assert(points@.take(points@.len() as int) =~= points@);
    }
    b
}

/// No side of a computed bounding box is ever NaN, the low sides never rise
/// above the origin and the high sides never fall below it.
pub proof fn lemma_bounds_wf(ps: Seq<Point>)
    ensures
        !ieee::is_nan(bounds_of(ps).xmin),
        !ieee::is_nan(bounds_of(ps).ymin),
        !ieee::is_nan(bounds_of(ps).xmax),
        !ieee::is_nan(bounds_of(ps).ymax),
        ieee::order_key(bounds_of(ps).xmin) <= 0,
        ieee::order_key(bounds_of(ps).ymin) <= 0,
        ieee::order_key(bounds_of(ps).xmax) >= 0,
        ieee::order_key(bounds_of(ps).ymax) >= 0,
    decreases ps.len(),
{
    assert((0u32 >> 23) & 0xFF == 0 && 0u32 & 0x7FFF_FFFF == 0 && 0u32 >> 31 == 0)
        by (bit_vector);
    assert(!ieee::is_nan(0u32) && ieee::order_key(0u32) == 0);
    if ps.len() == 0 {
    } else {
        lemma_bounds_wf(ps.drop_last());
        assert(bounds_of(ps) == bounds_step(bounds_of(ps.drop_last()), ps.last()));
    }
}

/// The computed bounding box contains the origin, and contains every
/// coordinate of every input point whose bit pattern is not a NaN. (A NaN
/// coordinate is outside every interval: the standard orders it with
/// nothing.)
pub proof fn lemma_bounds_contain(ps: Seq<Point>)
    ensures
        ieee::spec_le(bounds_of(ps).xmin, 0) && ieee::spec_le(0, bounds_of(ps).xmax),
        ieee::spec_le(bounds_of(ps).ymin, 0) && ieee::spec_le(0, bounds_of(ps).ymax),
        forall|i: int|
            0 <= i < ps.len() && !ieee::is_nan(ps[i].x) ==> ieee::spec_le(
                bounds_of(ps).xmin,
                ps[i].x,
            ) && ieee::spec_le(ps[i].x, bounds_of(ps).xmax),
        forall|i: int|
            0 <= i < ps.len() && !ieee::is_nan(ps[i].y) ==> ieee::spec_le(
                bounds_of(ps).ymin,
                ps[i].y,
            ) && ieee::spec_le(ps[i].y, bounds_of(ps).ymax),
    decreases ps.len(),
{
    lemma_bounds_wf(ps);
    if ps.len() == 0 {
    } else {
        lemma_bounds_contain(ps.drop_last());
        lemma_bounds_wf(ps.drop_last());
        assert forall|i: int|
            0 <= i < ps.len() && !ieee::is_nan(ps[i].x) implies ieee::spec_le(
            bounds_of(ps).xmin,
            ps[i].x,
        ) && ieee::spec_le(ps[i].x, bounds_of(ps).xmax) by {
            if i < ps.len() - 1 {
                assert(ps.drop_last()[i] == ps[i]);
            }
        }
        assert forall|i: int|
            0 <= i < ps.len() && !ieee::is_nan(ps[i].y) implies ieee::spec_le(
            bounds_of(ps).ymin,
            ps[i].y,
        ) && ieee::spec_le(ps[i].y, bounds_of(ps).ymax) by {
            if i < ps.len() - 1 {
                assert(ps.drop_last()[i] == ps[i]);
            }
        }
    }
}

} // verus!
