//! Glyph outlines: points grouped into closed contours, and the straight
//! segments and quadratic curves that the points describe.

use crate::error::{ImtError, ImtErrorSource};
use crate::parse::{malformed, malformed_in};
use std::ops::Range;
use vstd::prelude::*;

verus! {

/// A point of an outline as the font gives it, in font design units.
#[derive(Debug, Clone, Copy, PartialEq, Eq)]
pub struct OutlineRawPoint {
    /// The index of the contour that the point belongs to.
    pub c: u16,
    pub x: i32,
    pub y: i32,
    /// Whether this is a control point of a curve rather than a point on it.
    pub control: bool,
}

/// A point that the geometry of an outline passes through or bends towards.
/// It is named by the points of the outline and holds no coordinates, so it
/// stays true when the points are moved.
#[derive(Debug, Clone, Copy, PartialEq, Eq)]
pub enum OutlinePoint {
    /// The point of the outline with this index.
    Given { index: usize },
    /// The point halfway between the control point with this index and the
    /// control point that follows it. It lies on the curve.
    Halfway { index: usize },
}

/// One piece of the geometry of an outline.
#[derive(Debug, Clone, Copy, PartialEq, Eq)]
pub enum OutlineGeometry {
    /// A straight line from `p1` to `p2`.
    Segment { p1: OutlinePoint, p2: OutlinePoint },
    /// A quadratic curve from `p1` to `p3` that bends towards `p2`.
    QuadraticCurve { p1: OutlinePoint, p2: OutlinePoint, p3: OutlinePoint },
}

/// The outline of a glyph. The points and the contours are what the font
/// gives; the bounding box and the geometry follow from them and are brought
/// up to date by [`Outline::rebuild`].
#[derive(Debug, Clone)]
pub struct Outline {
    pub x_min: i32,
    pub y_min: i32,
    pub x_max: i32,
    pub y_max: i32,
    /// The points of all contours.
    pub points: Vec<OutlineRawPoint>,
    /// For each contour, the range of its points in `points`.
    pub contours: Vec<Range<usize>>,
    /// The segments and curves of all contours, contour after contour.
    pub geometry: Vec<OutlineGeometry>,
}

impl OutlineGeometry {
    /// Tells whether the piece is a curve rather than a straight segment.
    pub fn is_curve(&self) -> (r: bool)
        ensures
            r == (*self is QuadraticCurve),
    {
        match self {
            OutlineGeometry::QuadraticCurve { .. } => true,
            OutlineGeometry::Segment { .. } => false,
        }
    }
}

/// Whether a point of the geometry is a control point. A point halfway
/// between two control points never is.
pub open spec fn is_control(points: Seq<OutlineRawPoint>, p: OutlinePoint) -> bool {
    match p {
        OutlinePoint::Given { index } => points[index as int].control,
        OutlinePoint::Halfway { .. } => false,
    }
}

/// Whether the contour from `start` to `end` gets a point halfway between
/// point `i` and the next one: both are control points, and `i` is neither
/// the first nor the last point of the contour.
pub open spec fn has_halfway(points: Seq<OutlineRawPoint>, start: int, end: int, i: int) -> bool {
    i != start && i != end - 1 && points[i].control && points[i + 1].control
}

/// The points that the geometry of the contour from `start` to `end` runs
/// through, for the points of the contour before `upto`: each point of the
/// outline in turn, and after it the halfway point where there is one.
pub open spec fn vertices(points: Seq<OutlineRawPoint>, start: int, end: int, upto: int) -> Seq<
    OutlinePoint,
>
    decreases upto - start,
{
    if upto <= start {
        Seq::empty()
    } else {
        let i = upto - 1;
        let with_point = vertices(points, start, end, i).push(
            OutlinePoint::Given { index: i as usize },
        );
        if has_halfway(points, start, end, i) {
            with_point.push(OutlinePoint::Halfway { index: i as usize })
        } else {
            with_point
        }
    }
}

/// The piece of geometry that starts at vertex `k` of a closed contour with
/// the vertices `vs`, if one does. A control point bends the curve from the
/// vertex before it to the vertex after it. A point on the outline starts a
/// straight segment when the next vertex is on the outline too, and nothing
/// when the next vertex is a control point.
pub open spec fn piece(points: Seq<OutlineRawPoint>, vs: Seq<OutlinePoint>, k: int) -> Option<
    OutlineGeometry,
> {
    let next = vs[if k + 1 == vs.len() {
        0
    } else {
        k + 1
    }];
    if is_control(points, vs[k]) {
        Some(OutlineGeometry::QuadraticCurve { p1: vs[k - 1], p2: vs[k], p3: next })
    } else if !is_control(points, next) {
        Some(OutlineGeometry::Segment { p1: vs[k], p2: next })
    } else {
        None
    }
}

/// The pieces that start at the first `n` vertices of a contour.
pub open spec fn pieces(points: Seq<OutlineRawPoint>, vs: Seq<OutlinePoint>, n: int) -> Seq<
    OutlineGeometry,
>
    decreases n,
{
    if n <= 0 {
        Seq::empty()
    } else {
        match piece(points, vs, n - 1) {
            Some(g) => pieces(points, vs, n - 1).push(g),
            None => pieces(points, vs, n - 1),
        }
    }
}

/// The geometry of the contour from `start` to `end`.
pub open spec fn contour_geometry(points: Seq<OutlineRawPoint>, start: int, end: int) -> Seq<
    OutlineGeometry,
> {
    let vs = vertices(points, start, end, end);
    pieces(points, vs, vs.len() as int)
}

/// The geometry of the first `n` contours, contour after contour.
pub open spec fn geometry_of(
    points: Seq<OutlineRawPoint>,
    contours: Seq<Range<usize>>,
    n: int,
) -> Seq<OutlineGeometry>
    decreases n,
{
    if n <= 0 {
        Seq::empty()
    } else {
        geometry_of(points, contours, n - 1) + contour_geometry(
            points,
            contours[n - 1].start as int,
            contours[n - 1].end as int,
        )
    }
}

/// Whether a contour can be drawn: its points exist, there are at least
/// three of them, and the first is not a control point.
pub open spec fn contour_valid(points: Seq<OutlineRawPoint>, r: Range<usize>) -> bool {
    &&& r.start <= r.end <= points.len()
    &&& r.end - r.start >= 3
    &&& !points[r.start as int].control
}

/// Whether point `i` belongs to one of the first `n` contours.
pub open spec fn in_contour(contours: Seq<Range<usize>>, n: int, i: int) -> bool {
    exists|c: int|
        0 <= c < n && c < contours.len() && (#[trigger] contours[c]).start <= i < contours[c].end
}

/// Whether the box from (`x_min`, `y_min`) to (`x_max`, `y_max`) is the
/// smallest that holds every point of the first `n` contours. Where they
/// hold no point, it is the box that holds nothing: each minimum is the
/// greatest number there is, each maximum the least.
pub open spec fn tight_box(
    points: Seq<OutlineRawPoint>,
    contours: Seq<Range<usize>>,
    n: int,
    x_min: i32,
    y_min: i32,
    x_max: i32,
    y_max: i32,
) -> bool {
    if forall|i: int| !in_contour(contours, n, i) {
        x_min == i32::MAX && y_min == i32::MAX && x_max == i32::MIN && y_max == i32::MIN
    } else {
        &&& forall|i: int|
            in_contour(contours, n, i) ==> x_min <= (#[trigger] points[i]).x <= x_max && y_min
                <= points[i].y <= y_max
        &&& exists|i: int| in_contour(contours, n, i) && (#[trigger] points[i]).x == x_min
        &&& exists|i: int| in_contour(contours, n, i) && (#[trigger] points[i]).x == x_max
        &&& exists|i: int| in_contour(contours, n, i) && (#[trigger] points[i]).y == y_min
        &&& exists|i: int| in_contour(contours, n, i) && (#[trigger] points[i]).y == y_max
    }
}

impl Outline {
    /// Whether every contour can be drawn.
    pub open spec fn contours_valid(&self) -> bool {
        forall|c: int|
            0 <= c < self.contours@.len() ==> contour_valid(
                self.points@,
                #[trigger] self.contours@[c],
            )
    }

    /// Whether the contours split the points among them: the first starts
    /// at the first point, each other where the one before it ends, and the
    /// last ends at the last point.
    pub open spec fn contours_partition(&self) -> bool {
        &&& self.contours@.len() > 0
        &&& self.contours@[0].start == 0
        &&& forall|c: int|
            0 < c < self.contours@.len() ==> (#[trigger] self.contours@[c]).start
                == self.contours@[c - 1].end
        &&& self.contours@[self.contours@.len() - 1].end == self.points@.len()
    }

    /// Whether the outline is one that a font can hold: at most 65536
    /// points, split among contours that can be drawn, with the bounding
    /// box and the geometry that follow from them.
    pub open spec fn wf(&self) -> bool {
        &&& self.points@.len() <= 0x1_0000
        &&& self.contours_valid()
        &&& self.contours_partition()
        &&& self.is_rebuilt()
    }

    /// Whether the bounding box and the geometry are those of the points and
    /// contours.
    pub open spec fn is_rebuilt(&self) -> bool {
        &&& self.geometry@ == geometry_of(
            self.points@,
            self.contours@,
            self.contours@.len() as int,
        )
        &&& tight_box(
            self.points@,
            self.contours@,
            self.contours@.len() as int,
            self.x_min,
            self.y_min,
            self.x_max,
            self.y_max,
        )
    }

    /// The number of points of the outline.
    pub fn num_points(&self) -> (n: usize)
        ensures
            n == self.points@.len(),
    {
        self.points.len()
    }

    /// A point belongs to the first `c + 1` contours when it belongs to the
    /// first `c` or to contour `c`.
    proof fn lemma_in_contour_step(&self, c: int, i: int)
        requires
            0 <= c < self.contours@.len(),
        ensures
            in_contour(self.contours@, c + 1, i) <==> (in_contour(self.contours@, c, i)
                || self.contours@[c].start <= i < self.contours@[c].end),
    {
        if in_contour(self.contours@, c + 1, i) {
            let w = choose|w: int|
                0 <= w < c + 1 && w < self.contours@.len() && (#[trigger] self.contours@[w]).start
                    <= i < self.contours@[w].end;
            if w < c {
                assert(in_contour(self.contours@, c, i));
            }
        }
        if in_contour(self.contours@, c, i) {
            let w = choose|w: int|
                0 <= w < c && w < self.contours@.len() && (#[trigger] self.contours@[w]).start <= i
                    < self.contours@[w].end;
            assert(self.contours@[w].start <= i < self.contours@[w].end);
        }
        if self.contours@[c].start <= i < self.contours@[c].end {
            assert(in_contour(self.contours@, c + 1, i));
        }
    }

    /// Finds the smallest box that holds every point of every contour.
    fn bounding_box(&self) -> (r: (i32, i32, i32, i32))
        requires
            self.contours_valid(),
        ensures
            tight_box(self.points@, self.contours@, self.contours@.len() as int, r.0, r.1, r.2, r.3),
    {
        let mut x_min: i32 = i32::MAX;
        let mut y_min: i32 = i32::MAX;
        let mut x_max: i32 = i32::MIN;
        let mut y_max: i32 = i32::MIN;
        let ghost mut at_x_min: int = 0;
        let ghost mut at_y_min: int = 0;
        let ghost mut at_x_max: int = 0;
        let ghost mut at_y_max: int = 0;
        let mut c: usize = 0;
        while c < self.contours.len()
            invariant
                c <= self.contours@.len(),
                self.contours_valid(),
                forall|i: int|
                    in_contour(self.contours@, c as int, i) ==> x_min <= (#[trigger] self.points@[i]).x
                        <= x_max && y_min <= self.points@[i].y <= y_max,
                c == 0 ==> x_min == i32::MAX && y_min == i32::MAX && x_max == i32::MIN && y_max
                    == i32::MIN,
                c > 0 ==> {
                    &&& in_contour(self.contours@, c as int, at_x_min) && self.points@[at_x_min].x == x_min
                    &&& in_contour(self.contours@, c as int, at_x_max) && self.points@[at_x_max].x == x_max
                    &&& in_contour(self.contours@, c as int, at_y_min) && self.points@[at_y_min].y == y_min
                    &&& in_contour(self.contours@, c as int, at_y_max) && self.points@[at_y_max].y == y_max
                },
            decreases self.contours@.len() - c,
        {
            let start: usize = self.contours[c].start;
            let end: usize = self.contours[c].end;
            let mut i: usize = start;
            while i < end
                invariant
                    start <= i <= end <= self.points@.len(),
                    c < self.contours@.len(),
                    start == self.contours@[c as int].start,
                    end == self.contours@[c as int].end,
                    forall|j: int|
                        in_contour(self.contours@, c as int, j) || start <= j < i ==> x_min <= (
                        #[trigger] self.points@[j]).x <= x_max && y_min <= self.points@[j].y
                            <= y_max,
                    c == 0 && i == start ==> x_min == i32::MAX && y_min == i32::MAX && x_max
                        == i32::MIN && y_max == i32::MIN,
                    c > 0 || i > start ==> {
                        &&& (in_contour(self.contours@, c as int, at_x_min) || start <= at_x_min < i)
                            && self.points@[at_x_min].x == x_min
                        &&& (in_contour(self.contours@, c as int, at_x_max) || start <= at_x_max < i)
                            && self.points@[at_x_max].x == x_max
                        &&& (in_contour(self.contours@, c as int, at_y_min) || start <= at_y_min < i)
                            && self.points@[at_y_min].y == y_min
                        &&& (in_contour(self.contours@, c as int, at_y_max) || start <= at_y_max < i)
                            && self.points@[at_y_max].y == y_max
                    },
                decreases end - i,
            {
                let x: i32 = self.points[i].x;
                let y: i32 = self.points[i].y;
                if c == 0 && i == start {
                    x_min = x;
                    x_max = x;
                    y_min = y;
                    y_max = y;
                    proof {
                        at_x_min = i as int;
                        at_x_max = i as int;
                        at_y_min = i as int;
                        at_y_max = i as int;
                    }
                } else {
                    if x < x_min {
                        x_min = x;
                        proof {
                            at_x_min = i as int;
                        }
                    }
                    if x > x_max {
                        x_max = x;
                        proof {
                            at_x_max = i as int;
                        }
                    }
                    if y < y_min {
                        y_min = y;
                        proof {
                            at_y_min = i as int;
                        }
                    }
                    if y > y_max {
                        y_max = y;
                        proof {
                            at_y_max = i as int;
                        }
                    }
                }
                i += 1;
            }
            proof {
                self.lemma_in_contour_step(c as int, at_x_min);
                self.lemma_in_contour_step(c as int, at_x_max);
                self.lemma_in_contour_step(c as int, at_y_min);
                self.lemma_in_contour_step(c as int, at_y_max);
            }
            c += 1;
        }
        (x_min, y_min, x_max, y_max)
    }

    /// Brings the bounding box and the geometry up to date with the points
    /// and contours. An outline with a contour that cannot be drawn is
    /// refused and left as it was.
    pub fn rebuild(&mut self) -> (r: Result<(), ImtError>)
        ensures
            final(self).points == old(self).points,
            final(self).contours == old(self).contours,
            match r {
                Ok(_) => old(self).contours_valid() && final(self).is_rebuilt(),
                Err(e) => {
                    &&& !old(self).contours_valid()
                    &&& e == malformed(ImtErrorSource::GlyfTable)
                    &&& *final(self) == *old(self)
                },
            },
    {
        let num_contours: usize = self.contours.len();
        let mut c: usize = 0;
        while c < num_contours
            invariant
                c <= num_contours == self.contours@.len(),
                *self == *old(self),
                forall|d: int|
                    0 <= d < c ==> contour_valid(self.points@, #[trigger] self.contours@[d]),
            decreases num_contours - c,
        {
            let start: usize = self.contours[c].start;
            let end: usize = self.contours[c].end;
            if start > end || end > self.points.len() || end - start < 3
                || self.points[start].control {
                return Err(malformed_in(ImtErrorSource::GlyfTable));
            }
            c += 1;
        }
        let mut geometry: Vec<OutlineGeometry> = Vec::new();
        let mut c: usize = 0;
        while c < num_contours
            invariant
                c <= num_contours == self.contours@.len(),
                *self == *old(self),
                self.contours_valid(),
                geometry@ == geometry_of(self.points@, self.contours@, c as int),
            decreases num_contours - c,
        {
            let start: usize = self.contours[c].start;
            let end: usize = self.contours[c].end;
            let vs = contour_vertices(&self.points, start, end);
            push_pieces(&self.points, &vs, &mut geometry);
            c += 1;
        }
        let (x_min, y_min, x_max, y_max) = self.bounding_box();
        self.x_min = x_min;
        self.y_min = y_min;
        self.x_max = x_max;
        self.y_max = y_max;
        self.geometry = geometry;
        Ok(())
    }
}

/// Rebuilding an outline that is rebuilt already changes nothing: two
/// outlines with the same points and contours, both rebuilt, have the same
/// bounding box and the same geometry.
pub proof fn lemma_rebuild_settles(first: Outline, second: Outline)
    requires
        first.points@ == second.points@,
        first.contours@ == second.contours@,
        first.is_rebuilt(),
        second.is_rebuilt(),
    ensures
        second.geometry@ == first.geometry@,
        second.x_min == first.x_min,
        second.y_min == first.y_min,
        second.x_max == first.x_max,
        second.y_max == first.y_max,
{
    let points = first.points@;
    let contours = first.contours@;
    let n = contours.len() as int;
    if !(forall|i: int| !in_contour(contours, n, i)) {
        let least = choose|i: int|
            in_contour(contours, n, i) && (#[trigger] points[i]).x == first.x_min;
        let other = choose|i: int|
            in_contour(contours, n, i) && (#[trigger] points[i]).x == second.x_min;
        assert(second.x_min <= points[least].x && first.x_min <= points[other].x);
        let greatest = choose|i: int|
            in_contour(contours, n, i) && (#[trigger] points[i]).x == first.x_max;
        let other = choose|i: int|
            in_contour(contours, n, i) && (#[trigger] points[i]).x == second.x_max;
        assert(second.x_max >= points[greatest].x && first.x_max >= points[other].x);
        let least = choose|i: int|
            in_contour(contours, n, i) && (#[trigger] points[i]).y == first.y_min;
        let other = choose|i: int|
            in_contour(contours, n, i) && (#[trigger] points[i]).y == second.y_min;
        assert(second.y_min <= points[least].y && first.y_min <= points[other].y);
        let greatest = choose|i: int|
            in_contour(contours, n, i) && (#[trigger] points[i]).y == first.y_max;
        let other = choose|i: int|
            in_contour(contours, n, i) && (#[trigger] points[i]).y == second.y_max;
        assert(second.y_max >= points[greatest].y && first.y_max >= points[other].y);
    }
}

/// Lists the points that the geometry of the contour from `start` to `end`
/// runs through.
fn contour_vertices(points: &Vec<OutlineRawPoint>, start: usize, end: usize) -> (vs: Vec<
    OutlinePoint,
>)
    requires
        start < end <= points@.len(),
    ensures
        vs@ == vertices(points@, start as int, end as int, end as int),
        vs@.len() > 0,
        vs@[0] == (OutlinePoint::Given { index: start }),
        forall|k: int| 0 <= k < vs@.len() ==> vertex_known(points@, #[trigger] vs@[k]),
{
    let mut vs: Vec<OutlinePoint> = Vec::new();
    let mut i: usize = start;
    while i < end
        invariant
            start <= i <= end <= points@.len(),
            start < end,
            vs@ == vertices(points@, start as int, end as int, i as int),
            i > start ==> vs@.len() > 0 && vs@[0] == (OutlinePoint::Given { index: start }),
            forall|k: int| 0 <= k < vs@.len() ==> vertex_known(points@, #[trigger] vs@[k]),
        decreases end - i,
    {
        vs.push(OutlinePoint::Given { index: i });
        if i != start && i != end - 1 && points[i].control && points[i + 1].control {
            vs.push(OutlinePoint::Halfway { index: i });
        }
        i += 1;
    }
    vs
}

/// Whether a point of the geometry names points that exist.
pub open spec fn vertex_known(points: Seq<OutlineRawPoint>, p: OutlinePoint) -> bool {
    match p {
        OutlinePoint::Given { index } => index < points.len(),
        OutlinePoint::Halfway { index } => index + 1 < points.len(),
    }
}

/// Tells whether a point of the geometry is a control point.
fn vertex_is_control(points: &Vec<OutlineRawPoint>, p: &OutlinePoint) -> (r: bool)
    requires
        vertex_known(points@, *p),
    ensures
        r == is_control(points@, *p),
{
    match p {
        OutlinePoint::Given { index } => points[*index].control,
        OutlinePoint::Halfway { .. } => false,
    }
}

/// Appends the geometry of a closed contour with the vertices `vs`.
fn push_pieces(
    points: &Vec<OutlineRawPoint>,
    vs: &Vec<OutlinePoint>,
    geometry: &mut Vec<OutlineGeometry>,
)
    requires
        vs@.len() > 0,
        !is_control(points@, vs@[0]),
        forall|k: int| 0 <= k < vs@.len() ==> vertex_known(points@, #[trigger] vs@[k]),
    ensures
        final(geometry)@ == old(geometry)@ + pieces(points@, vs@, vs@.len() as int),
{
    let count: usize = vs.len();
    let mut k: usize = 0;
    while k < count
        invariant
            k <= count == vs@.len(),
            !is_control(points@, vs@[0]),
            forall|j: int| 0 <= j < vs@.len() ==> vertex_known(points@, #[trigger] vs@[j]),
            geometry@ == old(geometry)@ + pieces(points@, vs@, k as int),
        decreases count - k,
    {
        let next: usize = if k + 1 == count {
            0
        } else {
            k + 1
        };
        if vertex_is_control(points, &vs[k]) {
            geometry.push(
                OutlineGeometry::QuadraticCurve { p1: vs[k - 1], p2: vs[k], p3: vs[next] },
            );
        } else if !vertex_is_control(points, &vs[next]) {
            geometry.push(OutlineGeometry::Segment { p1: vs[k], p2: vs[next] });
        }
        k += 1;
    }
}

} // verus!
