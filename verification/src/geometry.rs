//! Rectangles in the global logical space: what an output and a capture
//! region have in common, and the smallest rectangle around a set of them.

use vstd::prelude::*;
use crate::backend::CaptureRegion;
use crate::output::OutputPositioning;

verus! {

/// A rectangle given by its edges. It covers the points `(px, py)` with
/// `left <= px < right` and `top <= py < bottom`.
pub ghost struct Rect {
    pub left: int,
    pub top: int,
    pub right: int,
    pub bottom: int,
}

impl Rect {
    pub open spec fn width(self) -> int {
        self.right - self.left
    }

    pub open spec fn height(self) -> int {
        self.bottom - self.top
    }

    /// The rectangle covers at least one point.
    pub open spec fn is_nonempty(self) -> bool {
        self.left < self.right && self.top < self.bottom
    }

    pub open spec fn contains(self, px: int, py: int) -> bool {
        self.left <= px < self.right && self.top <= py < self.bottom
    }

    /// Every edge of `inner` lies within `self`.
    pub open spec fn encloses(self, inner: Rect) -> bool {
        &&& self.left <= inner.left
        &&& self.top <= inner.top
        &&& inner.right <= self.right
        &&& inner.bottom <= self.bottom
    }

    /// No point lies in both rectangles.
    pub open spec fn is_disjoint_from(self, other: Rect) -> bool {
        !self.intersect(other).is_nonempty()
    }

    pub open spec fn intersect(self, other: Rect) -> Rect {
        Rect {
            left: if self.left >= other.left { self.left } else { other.left },
            top: if self.top >= other.top { self.top } else { other.top },
            right: if self.right <= other.right { self.right } else { other.right },
            bottom: if self.bottom <= other.bottom { self.bottom } else { other.bottom },
        }
    }

    /// The smallest rectangle whose edges lie around those of both.
    pub open spec fn join(self, other: Rect) -> Rect {
        Rect {
            left: if self.left <= other.left { self.left } else { other.left },
            top: if self.top <= other.top { self.top } else { other.top },
            right: if self.right >= other.right { self.right } else { other.right },
            bottom: if self.bottom >= other.bottom { self.bottom } else { other.bottom },
        }
    }
}

impl View for CaptureRegion {
    type V = Rect;

    open spec fn view(&self) -> Rect {
        Rect {
            left: self.x_coordinate as int,
            top: self.y_coordinate as int,
            right: self.x_coordinate + self.width,
            bottom: self.y_coordinate + self.height,
        }
    }
}

impl View for OutputPositioning {
    type V = Rect;

    open spec fn view(&self) -> Rect {
        Rect {
            left: self.x as int,
            top: self.y as int,
            right: self.x + self.width,
            bottom: self.y + self.height,
        }
    }
}

impl CaptureRegion {
    /// The region that stands for "all outputs": it starts at a quarter of
    /// the coordinate range below zero and spans half of the range.
    pub fn unbounded() -> (r: CaptureRegion)
        ensures
            r.x_coordinate == i32::MIN / 2,
            r.y_coordinate == i32::MIN / 2,
            r.width == i32::MAX,
            r.height == i32::MAX,
    {
        CaptureRegion {
            x_coordinate: i32::MIN / 2,
            y_coordinate: i32::MIN / 2,
            width: i32::MAX,
            height: i32::MAX,
        }
    }
}

/// The part of `output` that lies in `region`: `None` where they share no
/// point, else exactly their intersection.
pub fn overlap(output: &OutputPositioning, region: &CaptureRegion) -> (r: Option<CaptureRegion>)
    ensures
        r is Some <==> output@.intersect(region@).is_nonempty(),
        r is Some ==> r.unwrap()@ == output@.intersect(region@),
        r is Some ==> r.unwrap().width > 0 && r.unwrap().height > 0,
{
    let ox: i64 = output.x as i64;
    let oy: i64 = output.y as i64;
    let rx: i64 = region.x_coordinate as i64;
    let ry: i64 = region.y_coordinate as i64;
    let x1: i64 = if ox >= rx { ox } else { rx };
    let y1: i64 = if oy >= ry { oy } else { ry };
    let ox2: i64 = ox + output.width as i64;
    let oy2: i64 = oy + output.height as i64;
    let rx2: i64 = rx + region.width as i64;
    let ry2: i64 = ry + region.height as i64;
    let x2: i64 = if ox2 <= rx2 { ox2 } else { rx2 };
    let y2: i64 = if oy2 <= ry2 { oy2 } else { ry2 };
    if x1 < x2 && y1 < y2 {
        Some(
            CaptureRegion {
                x_coordinate: x1 as i32,
                y_coordinate: y1 as i32,
                width: (x2 - x1) as i32,
                height: (y2 - y1) as i32,
            },
        )
    } else {
        None
    }
}

/// Two rectangles have a non-empty intersection exactly when some point
/// lies in both, the intersection covers exactly the points that lie in
/// both, and a non-empty intersection has positive width and height.
pub proof fn lemma_intersect_is_common_points(a: Rect, b: Rect)
    ensures
        forall|px: int, py: int|
            a.intersect(b).contains(px, py) <==> a.contains(px, py) && b.contains(px, py),
        a.intersect(b).is_nonempty() <==> exists|px: int, py: int|
            a.contains(px, py) && b.contains(px, py),
        a.intersect(b).is_nonempty() ==> a.intersect(b).width() > 0 && a.intersect(b).height() > 0,
{
    let c = a.intersect(b);
    if c.is_nonempty() {
        assert(a.contains(c.left, c.top) && b.contains(c.left, c.top));
    }
}

/// Why a set of rectangles has no bounding box that can be given.
#[derive(Debug, Copy, Clone, PartialEq, Eq, Structural)]
pub enum GeometryError {
    /// There is no rectangle to put a box around.
    Empty,
    /// The box is wider or higher than a coordinate can say.
    TooLarge,
}

/// The views of a list of regions, one for one.
pub open spec fn rects_of(regions: Seq<CaptureRegion>) -> Seq<Rect> {
    Seq::new(regions.len(), |i: int| regions[i]@)
}

/// The bounding box of a non-empty list of rectangles: the first one,
/// widened by each of the others in turn.
pub open spec fn hull(rects: Seq<Rect>) -> Rect
    recommends
        rects.len() > 0,
    decreases rects.len(),
{
    if rects.len() <= 1 {
        rects[0]
    } else {
        hull(rects.drop_last()).join(rects.last())
    }
}

/// The bounding box encloses each of the rectangles.
pub proof fn lemma_hull_encloses_each(rects: Seq<Rect>, i: int)
    requires
        0 <= i < rects.len(),
    ensures
        hull(rects).encloses(rects[i]),
    decreases rects.len(),
{
    if rects.len() > 1 {
        if i < rects.len() - 1 {
            lemma_hull_encloses_each(rects.drop_last(), i);
        }
    }
}

/// The bounding box is the smallest rectangle around the list: whatever
/// encloses each of the rectangles encloses the bounding box too.
pub proof fn lemma_hull_is_minimal(rects: Seq<Rect>, other: Rect)
    requires
        rects.len() > 0,
        forall|i: int| 0 <= i < rects.len() ==> other.encloses(#[trigger] rects[i]),
    ensures
        other.encloses(hull(rects)),
    decreases rects.len(),
{
    if rects.len() > 1 {
        let front = rects.drop_last();
        assert forall|i: int| 0 <= i < front.len() implies other.encloses(#[trigger] front[i]) by {}
        lemma_hull_is_minimal(front, other);
    }
}

/// Each edge of the bounding box is an edge of one of the rectangles.
pub proof fn lemma_hull_edges_attained(rects: Seq<Rect>)
    requires
        rects.len() > 0,
    ensures
        exists|i: int| 0 <= i < rects.len() && hull(rects).left == (#[trigger] rects[i]).left,
        exists|i: int| 0 <= i < rects.len() && hull(rects).top == (#[trigger] rects[i]).top,
        exists|i: int| 0 <= i < rects.len() && hull(rects).right == (#[trigger] rects[i]).right,
        exists|i: int| 0 <= i < rects.len() && hull(rects).bottom == (#[trigger] rects[i]).bottom,
    decreases rects.len(),
{
    if rects.len() > 1 {
        let front = rects.drop_last();
        lemma_hull_edges_attained(front);
        let il = choose|i: int| 0 <= i < front.len() && hull(front).left == (#[trigger] front[i]).left;
        let it = choose|i: int| 0 <= i < front.len() && hull(front).top == (#[trigger] front[i]).top;
        let ir = choose|i: int| 0 <= i < front.len() && hull(front).right == (#[trigger] front[i]).right;
        let ib = choose|i: int| 0 <= i < front.len() && hull(front).bottom == (#[trigger] front[i]).bottom;
        assert(front[il] == rects[il] && front[it] == rects[it] && front[ir] == rects[ir]
            && front[ib] == rects[ib]);
    } else {
        assert(hull(rects).left == rects[0].left);
    }
}

/// Where a rectangle that the box encloses starts within the box, and that
/// it ends within the box: the offset is not negative, and offset plus
/// size stays within the size of the box.
pub proof fn lemma_offsets_within_hull(rects: Seq<Rect>, i: int)
    requires
        0 <= i < rects.len(),
    ensures
        0 <= rects[i].left - hull(rects).left,
        0 <= rects[i].top - hull(rects).top,
        rects[i].left - hull(rects).left + rects[i].width() <= hull(rects).width(),
        rects[i].top - hull(rects).top + rects[i].height() <= hull(rects).height(),
{
    lemma_hull_encloses_each(rects, i);
}

/// The bounding box of `regions`. It fails on an empty list, and where the
/// box is wider or higher than `i32::MAX`.
pub fn bounding_box(regions: &Vec<CaptureRegion>) -> (r: Result<CaptureRegion, GeometryError>)
    ensures
        regions@.len() == 0 <==> r == Err::<CaptureRegion, GeometryError>(GeometryError::Empty),
        r is Ok <==> regions@.len() > 0 && hull(rects_of(regions@)).width() <= i32::MAX && hull(
            rects_of(regions@),
        ).height() <= i32::MAX,
        r is Ok ==> r.unwrap()@ == hull(rects_of(regions@)),
        r is Err && regions@.len() > 0 ==> r == Err::<CaptureRegion, GeometryError>(
            GeometryError::TooLarge,
        ),
{
    if regions.len() == 0 {
        return Err(GeometryError::Empty);
    }
    let first = regions[0];
    let mut x1: i64 = first.x_coordinate as i64;
    let mut y1: i64 = first.y_coordinate as i64;
    let mut x2: i64 = first.x_coordinate as i64 + first.width as i64;
    let mut y2: i64 = first.y_coordinate as i64 + first.height as i64;
    let mut i: usize = 1;
    while i < regions.len()
        invariant
            1 <= i <= regions.len(),
            hull(rects_of(regions@).subrange(0, i as int)) == (Rect {
                left: x1 as int,
                top: y1 as int,
                right: x2 as int,
                bottom: y2 as int,
            }),
            i32::MIN <= x1 <= i32::MAX,
            i32::MIN <= y1 <= i32::MAX,
            2 * i32::MIN <= x2 <= 2 * i32::MAX,
            2 * i32::MIN <= y2 <= 2 * i32::MAX,
            x2 - x1 >= i32::MIN,
            y2 - y1 >= i32::MIN,
        decreases regions.len() - i,
    {
        let cur = regions[i];
        let cx: i64 = cur.x_coordinate as i64;
        let cy: i64 = cur.y_coordinate as i64;
        let cx2: i64 = cx + cur.width as i64;
        let cy2: i64 = cy + cur.height as i64;
        proof {
            let all = rects_of(regions@);
            let next = all.subrange(0, i + 1);
            assert(next.drop_last() =~= all.subrange(0, i as int));
        }
        if cx < x1 {
            x1 = cx;
        }
        if cy < y1 {
            y1 = cy;
        }
        if cx2 > x2 {
            x2 = cx2;
        }
        if cy2 > y2 {
            y2 = cy2;
        }
        i = i + 1;
    }
    proof {
        assert(rects_of(regions@).subrange(0, i as int) =~= rects_of(regions@));
    }
    if x2 - x1 > i32::MAX as i64 || y2 - y1 > i32::MAX as i64 {
        return Err(GeometryError::TooLarge);
    }
    Ok(
        CaptureRegion {
            x_coordinate: x1 as i32,
            y_coordinate: y1 as i32,
            width: (x2 - x1) as i32,
            height: (y2 - y1) as i32,
        },
    )
}

} // verus!
