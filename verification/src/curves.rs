//! Bézier segments: two, three or four control points, of which the first
//! and the last lie on the curve and the ones between are handles.

use vstd::prelude::*;
use crate::arith::lemma_round_div_between;
use crate::arith::round_div;
use crate::arith::rounded_div;
use crate::errors::EditError;
use crate::points::cross;
use crate::points::dist2;
use crate::points::dot;
use crate::points::is_random_uuid;
use crate::points::lemma_product_bound;
use crate::points::lemma_square_monotonic;
use crate::points::lemma_square_nonnegative;
use crate::points::CurvePoint;
use crate::points::Point;

verus! {

/// The tolerance of a hit test for which the caller names none, in lattice
/// steps.
pub const DEFAULT_TOLERANCE: u16 = 5;

/// The number of chords by which a curved segment is flattened for hit tests.
pub const FLATTENING_STEPS: u32 = 32;

/// A curve segment.
#[derive(Debug)]
pub struct Bezier {
    smooth: bool,
    points: Vec<CurvePoint>,
}

/// What a segment is, as a value.
pub struct BezierView {
    pub smooth: bool,
    pub points: Seq<CurvePoint>,
}

impl View for Bezier {
    type V = BezierView;

    closed spec fn view(&self) -> BezierView {
        BezierView { smooth: self.smooth, points: self.points@ }
    }
}

/// Whether a segment may have `len` control points.
pub open spec fn valid_point_count(len: nat) -> bool {
    len == 0 || len == 2 || len == 3 || len == 4
}

/// The positions of a sequence of control points.
pub open spec fn positions(points: Seq<CurvePoint>) -> Seq<Point> {
    Seq::new(points.len(), |i: int| points[i].position)
}

/// The tolerance that a hit test works with.
pub open spec fn effective_tolerance(tolerance: Option<u16>) -> int {
    match tolerance {
        Some(t) => t as int,
        None => DEFAULT_TOLERANCE as int,
    }
}

/// Whether `p` lies within `tol` of the straight stretch from `a` to `b`.
/// Distances are compared by their squares, so the test is exact.
pub open spec fn near_segment(p: Point, a: Point, b: Point, tol: int) -> bool {
    let along = dot(a, b, p);
    if along <= 0 {
        dist2(a, p) <= tol * tol
    } else if along >= dist2(a, b) {
        dist2(b, p) <= tol * tol
    } else {
        cross(a, b, p) * cross(a, b, p) <= tol * tol * dist2(a, b)
    }
}

/// One coordinate of a quadratic curve with the control coordinates `a`, `b`,
/// `c` at the parameter `k / FLATTENING_STEPS`, rounded to the lattice.
pub open spec fn quadratic_at(a: int, b: int, c: int, k: int) -> int {
    let s = FLATTENING_STEPS as int;
    round_div((s - k) * (s - k) * a + 2 * (s - k) * k * b + k * k * c, s * s)
}

/// One coordinate of a cubic curve with the control coordinates `a`, `b`, `c`,
/// `d` at the parameter `k / FLATTENING_STEPS`, rounded to the lattice.
pub open spec fn cubic_at(a: int, b: int, c: int, d: int, k: int) -> int {
    let s = FLATTENING_STEPS as int;
    round_div(
        (s - k) * (s - k) * (s - k) * a + 3 * (s - k) * (s - k) * k * b + 3 * (s - k) * k * k * c
            + k * k * k * d,
        s * s * s,
    )
}

/// The `k`-th corner of the flattened curve with three or four control points.
pub open spec fn sample(points: Seq<CurvePoint>, k: int) -> Point {
    if points.len() == 3 {
        Point {
            x: quadratic_at(
                points[0].position.x as int,
                points[1].position.x as int,
                points[2].position.x as int,
                k,
            ) as i32,
            y: quadratic_at(
                points[0].position.y as int,
                points[1].position.y as int,
                points[2].position.y as int,
                k,
            ) as i32,
        }
    } else {
        Point {
            x: cubic_at(
                points[0].position.x as int,
                points[1].position.x as int,
                points[2].position.x as int,
                points[3].position.x as int,
                k,
            ) as i32,
            y: cubic_at(
                points[0].position.y as int,
                points[1].position.y as int,
                points[2].position.y as int,
                points[3].position.y as int,
                k,
            ) as i32,
        }
    }
}

/// One coordinate of a handle of the cubic curve that runs as the quadratic
/// curve with the end `end` and the handle `handle` does: a third of the way
/// from the handle to the end, rounded to the lattice.
pub open spec fn elevate(end: int, handle: int) -> int {
    round_div(end + 2 * handle, 3)
}

/// The handle of the cubic curve next to the end `end`, for the quadratic
/// curve with the handle `handle`.
pub open spec fn elevated(end: Point, handle: Point) -> Point {
    Point {
        x: elevate(end.x as int, handle.x as int) as i32,
        y: elevate(end.y as int, handle.y as int) as i32,
    }
}

/// The control points of the cubic curve that runs as the quadratic curve
/// through `points` does.
pub open spec fn cubic_positions(points: Seq<CurvePoint>) -> Seq<Point> {
    seq![
        points[0].position,
        elevated(points[0].position, points[1].position),
        elevated(points[2].position, points[1].position),
        points[2].position,
    ]
}

/// Whether `position` lies within `tol` of the curve drawn through `points`:
/// of the straight stretch where there are two, of one of the chords of the
/// flattened curve where there are three or four.
pub open spec fn on_curve(points: Seq<CurvePoint>, position: Point, tol: int) -> bool {
    if points.len() == 2 {
        near_segment(position, points[0].position, points[1].position, tol)
    } else if points.len() == 3 || points.len() == 4 {
        exists|k: int|
            0 <= k < FLATTENING_STEPS && #[trigger] near_segment(
                position,
                sample(points, k),
                sample(points, k + 1),
                tol,
            )
    } else {
        false
    }
}

/// A sum of four values with non-negative weights lies between the least and
/// the greatest value, each times the sum of the weights.
proof fn lemma_weighted_between(
    w0: int,
    w1: int,
    w2: int,
    w3: int,
    x0: int,
    x1: int,
    x2: int,
    x3: int,
    lo: int,
    hi: int,
)
    requires
        0 <= w0,
        0 <= w1,
        0 <= w2,
        0 <= w3,
        lo <= x0 <= hi,
        lo <= x1 <= hi,
        lo <= x2 <= hi,
        lo <= x3 <= hi,
    ensures
        lo * (w0 + w1 + w2 + w3) <= w0 * x0 + w1 * x1 + w2 * x2 + w3 * x3 <= hi * (w0 + w1 + w2
            + w3),
{
    lemma_weight_between(w0, x0, lo, hi);
    lemma_weight_between(w1, x1, lo, hi);
    lemma_weight_between(w2, x2, lo, hi);
    lemma_weight_between(w3, x3, lo, hi);
    assert(lo * (w0 + w1 + w2 + w3) == lo * w0 + lo * w1 + lo * w2 + lo * w3)
        by (nonlinear_arith);
    assert(hi * (w0 + w1 + w2 + w3) == hi * w0 + hi * w1 + hi * w2 + hi * w3)
        by (nonlinear_arith);
}

/// One term of a weighted sum between its bounds.
proof fn lemma_weight_between(w: int, x: int, lo: int, hi: int)
    by (nonlinear_arith)
    requires
        0 <= w,
        lo <= x <= hi,
    ensures
        lo * w <= w * x <= hi * w,
{
}

/// The weights of a quadratic curve add up to the square of the step count.
proof fn lemma_quadratic_weights(a: int, b: int)
    by (nonlinear_arith)
    requires
        0 <= a,
        0 <= b,
    ensures
        a * a + 2 * a * b + b * b == (a + b) * (a + b),
        0 <= a * a,
        0 <= 2 * a * b,
        0 <= b * b,
{
}

/// The weights of a cubic curve add up to the cube of the step count.
proof fn lemma_cubic_weights(a: int, b: int)
    by (nonlinear_arith)
    requires
        0 <= a,
        0 <= b,
    ensures
        a * a * a + 3 * a * a * b + 3 * a * b * b + b * b * b == (a + b) * (a + b) * (a + b),
        0 <= a * a * a,
        0 <= 3 * a * a * b,
        0 <= 3 * a * b * b,
        0 <= b * b * b,
{
}

/// One coordinate of a corner of a flattened quadratic curve.
fn quadratic_coordinate(a: i32, b: i32, c: i32, k: u32) -> (r: i32)
    requires
        k <= FLATTENING_STEPS,
    ensures
        r == quadratic_at(a as int, b as int, c as int, k as int),
{
    let t: i128 = k as i128;
    let u: i128 = FLATTENING_STEPS as i128 - t;
    proof {
        lemma_product_bound(u as int, u as int, 32, 32);
        lemma_product_bound(u as int, t as int, 32, 32);
        lemma_product_bound(t as int, t as int, 32, 32);
        assert(2 * u * t == 2 * (u * t)) by (nonlinear_arith);
    }
    let w0: i128 = u * u;
    let w1: i128 = 2 * (u * t);
    let w2: i128 = t * t;
    proof {
        lemma_quadratic_weights(u as int, t as int);
        assert(w0 + w1 + w2 == 1024);
        lemma_product_bound(w0 as int, a as int, 1024, 0x8000_0000);
        lemma_product_bound(w1 as int, b as int, 1024, 0x8000_0000);
        lemma_product_bound(w2 as int, c as int, 1024, 0x8000_0000);
        lemma_weighted_between(
            w0 as int,
            w1 as int,
            w2 as int,
            0,
            a as int,
            b as int,
            c as int,
            0,
            -0x8000_0000,
            0x7fff_ffff,
        );
    }
    let n: i128 = w0 * (a as i128) + w1 * (b as i128) + w2 * (c as i128);
    proof {
        lemma_round_div_between(n as int, 1024, -0x8000_0000, 0x7fff_ffff);
    }
    rounded_div(n, 1024) as i32
}

/// One coordinate of a corner of a flattened cubic curve.
fn cubic_coordinate(a: i32, b: i32, c: i32, d: i32, k: u32) -> (r: i32)
    requires
        k <= FLATTENING_STEPS,
    ensures
        r == cubic_at(a as int, b as int, c as int, d as int, k as int),
{
    let t: i128 = k as i128;
    let u: i128 = FLATTENING_STEPS as i128 - t;
    proof {
        lemma_product_bound(u as int, u as int, 32, 32);
        lemma_product_bound(t as int, t as int, 32, 32);
        lemma_product_bound(u as int, t as int, 32, 32);
        lemma_product_bound(u * u, u as int, 1024, 32);
        lemma_product_bound(u * u, t as int, 1024, 32);
        lemma_product_bound(u * t, t as int, 1024, 32);
        lemma_product_bound(t * t, t as int, 1024, 32);
        assert(3 * u * u * t == 3 * (u * u * t)) by (nonlinear_arith);
        assert(3 * u * t * t == 3 * (u * t * t)) by (nonlinear_arith);
    }
    let w0: i128 = u * u * u;
    let w1: i128 = 3 * (u * u * t);
    let w2: i128 = 3 * (u * t * t);
    let w3: i128 = t * t * t;
    proof {
        lemma_cubic_weights(u as int, t as int);
        assert(w0 + w1 + w2 + w3 == 32768);
        lemma_product_bound(w0 as int, a as int, 32768, 0x8000_0000);
        lemma_product_bound(w1 as int, b as int, 32768, 0x8000_0000);
        lemma_product_bound(w2 as int, c as int, 32768, 0x8000_0000);
        lemma_product_bound(w3 as int, d as int, 32768, 0x8000_0000);
        lemma_weighted_between(
            w0 as int,
            w1 as int,
            w2 as int,
            w3 as int,
            a as int,
            b as int,
            c as int,
            d as int,
            -0x8000_0000,
            0x7fff_ffff,
        );
    }
    let n: i128 = w0 * (a as i128) + w1 * (b as i128) + w2 * (c as i128) + w3 * (d as i128);
    proof {
        lemma_round_div_between(n as int, 32768, -0x8000_0000, 0x7fff_ffff);
    }
    rounded_div(n, 32768) as i32
}

/// One coordinate of a handle of the cubic curve for a quadratic one.
fn elevate_coordinate(end: i32, handle: i32) -> (r: i32)
    ensures
        r == elevate(end as int, handle as int),
{
    let n: i128 = end as i128 + 2 * (handle as i128);
    proof {
        lemma_round_div_between(n as int, 3, -0x8000_0000, 0x7fff_ffff);
    }
    rounded_div(n, 3) as i32
}

/// The handle of the cubic curve next to the end `end`, for the quadratic
/// curve with the handle `handle`.
pub fn elevated_handle(end: Point, handle: Point) -> (r: Point)
    ensures
        r == elevated(end, handle),
{
    Point { x: elevate_coordinate(end.x, handle.x), y: elevate_coordinate(end.y, handle.y) }
}

/// Whether `p` lies within `tolerance` of the straight stretch from `a` to `b`.
pub fn is_near_segment(p: Point, a: Point, b: Point, tolerance: u16) -> (r: bool)
    ensures
        r == near_segment(p, a, b, tolerance as int),
{
    proof {
        lemma_product_bound(tolerance as int, tolerance as int, 0xffff, 0xffff);
    }
    let t2: u128 = (tolerance as u128) * (tolerance as u128);
    let along: i128 = a.dot_product(b, p);
    let len2: u128 = a.distance_squared(b);
    if along <= 0 {
        a.distance_squared(p) <= t2
    } else if along as u128 >= len2 {
        b.distance_squared(p) <= t2
    } else {
        let c: i128 = a.cross_product(b, p);
        let ac: u128 = if c < 0 { (-c) as u128 } else { c as u128 };
        proof {
            lemma_product_bound(t2 as int, len2 as int, 0x1_0000_0000, 0x2_0000_0000_0000_0000);
            assert(ac * ac == c * c) by (nonlinear_arith)
                requires
                    ac == c || ac == -c,
            ;
            lemma_square_nonnegative(c as int);
        }
        if ac >= 0x4000_0000_0000_0000 {
            proof {
                lemma_square_monotonic(0x4000_0000_0000_0000, ac as int);
            }
            false
        } else {
            proof {
                lemma_square_monotonic(ac as int, 0x4000_0000_0000_0000);
            }
            ac * ac <= t2 * len2
        }
    }
}

impl Bezier {
    /// Whether the segment has an admissible number of control points.
    pub open spec fn wf(&self) -> bool {
        valid_point_count(self@.points.len())
    }

    /// The segment without control points.
    pub fn empty() -> (r: Bezier)
        ensures
            r.wf(),
            r@.points.len() == 0,
            !r@.smooth,
    {
        Bezier { smooth: false, points: Vec::new() }
    }

    /// The segment through the given positions, each under a fresh
    /// identifier, with the smooth flag cleared. A count of positions other
    /// than 0, 2, 3 or 4 is rejected.
    pub fn new(points: Vec<Point>) -> (r: Result<Bezier, EditError>)
        ensures
            valid_point_count(points@.len()) <==> r is Ok,
            r matches Ok(b) ==> b.wf() && !b@.smooth && positions(b@.points) == points@ && forall|
                i: int,
            | 0 <= i < b@.points.len() ==> is_random_uuid(#[trigger] b@.points[i].uuid),
            r matches Err(e) ==> e == EditError::InvalidShape,
    {
        let n: usize = points.len();
        if !(n == 0 || n == 2 || n == 3 || n == 4) {
            return Err(EditError::InvalidShape);
        }
        let mut out: Vec<CurvePoint> = Vec::new();
        let mut i: usize = 0;
        while i < n
            invariant
                n == points@.len(),
                i <= n,
                out@.len() == i,
                forall|j: int| 0 <= j < i ==> (#[trigger] out@[j]).position == points@[j],
                forall|j: int| 0 <= j < i ==> is_random_uuid(#[trigger] out@[j].uuid),
            decreases n - i,
        {
            out.push(CurvePoint::new(points[i]));
            i += 1;
        }
        let b = Bezier { smooth: false, points: out };
        assert(positions(b@.points) =~= points@);
        Ok(b)
    }

    /// Lays the segment out anew: through the given positions, each under a
    /// fresh identifier, with the smooth flag as it was. A count of positions
    /// other than 0, 2, 3 or 4 is rejected, and the segment stays as it is.
    pub fn reset(&mut self, points: &Vec<Point>) -> (r: Result<(), EditError>)
        ensures
            valid_point_count(points@.len()) <==> r is Ok,
            r is Ok ==> final(self).wf() && final(self)@.smooth == old(self)@.smooth && positions(
                final(self)@.points,
            ) == points@ && forall|i: int|
                0 <= i < final(self)@.points.len() ==> is_random_uuid(
                    #[trigger] final(self)@.points[i].uuid,
                ),
            r matches Err(e) ==> e == EditError::InvalidShape && final(self)@ == old(self)@,
    {
        let n: usize = points.len();
        if !(n == 0 || n == 2 || n == 3 || n == 4) {
            return Err(EditError::InvalidShape);
        }
        let mut out: Vec<CurvePoint> = Vec::new();
        let mut i: usize = 0;
        while i < n
            invariant
                n == points@.len(),
                i <= n,
                out@.len() == i,
                forall|j: int| 0 <= j < i ==> (#[trigger] out@[j]).position == points@[j],
                forall|j: int| 0 <= j < i ==> is_random_uuid(#[trigger] out@[j].uuid),
            decreases n - i,
        {
            out.push(CurvePoint::new(points[i]));
            i += 1;
        }
        self.points = out;
        assert(positions(self@.points) =~= points@);
        Ok(())
    }

    /// The segment with the given control points and smooth flag. A count of
    /// points other than 0, 2, 3 or 4 is rejected.
    pub fn from_curve_points(smooth: bool, points: Vec<CurvePoint>) -> (r: Result<
        Bezier,
        EditError,
    >)
        ensures
            valid_point_count(points@.len()) <==> r is Ok,
            r matches Ok(b) ==> b.wf() && b@ == (BezierView { smooth, points: points@ }),
            r matches Err(e) ==> e == EditError::InvalidShape,
    {
        let n: usize = points.len();
        if n == 0 || n == 2 || n == 3 || n == 4 {
            Ok(Bezier { smooth, points })
        } else {
            Err(EditError::InvalidShape)
        }
    }

    /// The control points, in order.
    pub fn points(&self) -> (r: &Vec<CurvePoint>)
        ensures
            r@ == self@.points,
    {
        &self.points
    }

    /// The number of control points.
    pub fn len(&self) -> (r: usize)
        ensures
            r == self@.points.len(),
    {
        self.points.len()
    }

    /// Whether the segment has no control points.
    pub fn is_empty(&self) -> (r: bool)
        ensures
            r == (self@.points.len() == 0),
    {
        self.points.len() == 0
    }

    /// The `index`-th control point.
    pub fn point(&self, index: usize) -> (r: CurvePoint)
        requires
            index < self@.points.len(),
        ensures
            r == self@.points[index as int],
    {
        self.points[index]
    }

    /// Whether the segment asks for a smooth join with the one before it.
    pub fn smooth(&self) -> (r: bool)
        ensures
            r == self@.smooth,
    {
        self.smooth
    }

    /// Sets the smooth flag.
    pub fn set_smooth(&mut self, smooth: bool)
        ensures
            final(self)@ == (BezierView { smooth, points: old(self)@.points }),
    {
        self.smooth = smooth;
    }

    /// The degree of the curve: one less than the number of control points,
    /// and `None` for the segment without points.
    pub fn degree(&self) -> (r: Option<u8>)
        requires
            self.wf(),
        ensures
            self@.points.len() == 0 <==> r is None,
            r matches Some(d) ==> d == self@.points.len() - 1,
    {
        let n: usize = self.points.len();
        if n == 0 {
            None
        } else {
            Some((n - 1) as u8)
        }
    }

    /// Moves the `index`-th control point to `position` and keeps its
    /// identifier. An index past the end changes nothing; the result says
    /// whether a point was moved.
    pub fn set_position(&mut self, index: usize, position: Point) -> (r: bool)
        ensures
            r == (index < old(self)@.points.len()),
            r ==> final(self)@ == (BezierView {
                smooth: old(self)@.smooth,
                points: old(self)@.points.update(
                    index as int,
                    CurvePoint { position, uuid: old(self)@.points[index as int].uuid },
                ),
            }),
            !r ==> final(self)@ == old(self)@,
    {
        if index < self.points.len() {
            let moved = self.points[index].moved_to(position);
            self.points.set(index, moved);
            true
        } else {
            false
        }
    }

    /// Turns the segment round: the control points come in reverse order.
    pub fn reverse(&mut self)
        ensures
            final(self)@ == (BezierView {
                smooth: old(self)@.smooth,
                points: old(self)@.points.reverse(),
            }),
    {
        let n: usize = self.points.len();
        let mut out: Vec<CurvePoint> = Vec::new();
        let mut i: usize = 0;
        while i < n
            invariant
                n == self.points@.len(),
                i <= n,
                out@.len() == i,
                forall|j: int| 0 <= j < i ==> #[trigger] out@[j] == self.points@[n - 1 - j],
            decreases n - i,
        {
            out.push(self.points[n - 1 - i]);
            i += 1;
        }
        assert(out@ =~= self.points@.reverse());
        self.points = out;
    }

    /// The cubic curve that runs as this quadratic curve does, by degree
    /// elevation: the ends stay, and each handle lies a third of the way from
    /// the old handle to the end. The points are new points under fresh
    /// identifiers, and the smooth flag is cleared.
    pub fn to_cubic(&self) -> (r: Bezier)
        requires
            self@.points.len() == 3,
        ensures
            r.wf(),
            !r@.smooth,
            positions(r@.points) == cubic_positions(self@.points),
            forall|i: int| 0 <= i < 4 ==> is_random_uuid(#[trigger] r@.points[i].uuid),
    {
        let a: Point = self.points[0].position;
        let b: Point = self.points[1].position;
        let c: Point = self.points[2].position;
        let mut points: Vec<CurvePoint> = Vec::new();
        points.push(CurvePoint::new(a));
        points.push(CurvePoint::new(elevated_handle(a, b)));
        points.push(CurvePoint::new(elevated_handle(c, b)));
        points.push(CurvePoint::new(c));
        let r = Bezier { smooth: false, points };
        assert(positions(r@.points) =~= cubic_positions(self@.points));
        r
    }

    /// The `k`-th corner of the flattened curve.
    pub fn sample_point(&self, k: u32) -> (r: Point)
        requires
            self@.points.len() == 3 || self@.points.len() == 4,
            k <= FLATTENING_STEPS,
        ensures
            r == sample(self@.points, k as int),
    {
        let p0: Point = self.points[0].position;
        let p1: Point = self.points[1].position;
        let p2: Point = self.points[2].position;
        if self.points.len() == 3 {
            Point {
                x: quadratic_coordinate(p0.x, p1.x, p2.x, k),
                y: quadratic_coordinate(p0.y, p1.y, p2.y, k),
            }
        } else {
            let p3: Point = self.points[3].position;
            Point {
                x: cubic_coordinate(p0.x, p1.x, p2.x, p3.x, k),
                y: cubic_coordinate(p0.y, p1.y, p2.y, p3.y, k),
            }
        }
    }

    /// Whether `position` lies within the tolerance of the curve; without a
    /// tolerance, within `DEFAULT_TOLERANCE`. A segment without control
    /// points is hit nowhere.
    pub fn on_curve_query(&self, position: Point, tolerance: Option<u16>) -> (r: bool)
        requires
            self.wf(),
        ensures
            r == on_curve(self@.points, position, effective_tolerance(tolerance)),
    {
        let tol: u16 = match tolerance {
            Some(t) => t,
            None => DEFAULT_TOLERANCE,
        };
        let n: usize = self.points.len();
        if n == 0 {
            false
        } else if n == 2 {
            is_near_segment(position, self.points[0].position, self.points[1].position, tol)
        } else {
            let mut k: u32 = 0;
            let mut from: Point = self.sample_point(0);
            while k < FLATTENING_STEPS
                invariant
                    self@.points.len() == 3 || self@.points.len() == 4,
                    k <= FLATTENING_STEPS,
                    tol as int == effective_tolerance(tolerance),
                    from == sample(self@.points, k as int),
                    forall|j: int|
                        0 <= j < k ==> !#[trigger] near_segment(
                            position,
                            sample(self@.points, j),
                            sample(self@.points, j + 1),
                            tol as int,
                        ),
                decreases FLATTENING_STEPS - k,
            {
                let to: Point = self.sample_point(k + 1);
                if is_near_segment(position, from, to, tol) {
                    assert(near_segment(
                        position,
                        sample(self@.points, k as int),
                        sample(self@.points, k as int + 1),
                        tol as int,
                    ));
                    return true;
                }
                from = to;
                k += 1;
            }
            false
        }
    }
}

impl Clone for Bezier {
    fn clone(&self) -> (r: Self)
        ensures
            r@ == self@,
    {
        let r = Bezier { smooth: self.smooth, points: self.points.clone() };
        assert(r.points@ =~= self.points@);
        r
    }
}

} // verus!
