//! How a move spreads through a contour.
//!
//! The named points of a contour are visited once, segment by segment and
//! point by point. A visit moves the point by the matrix. An end of a
//! segment takes along the handle next to it and, across the join, the end
//! of the neighbouring segment with its handle. A handle takes nothing along,
//! but sets the handle that faces it across the join as the continuity of the
//! join asks. A point that was named or has been reached before is not moved
//! a second time.

use vstd::prelude::*;
use crate::arith::round_div;
use crate::arith::rounded_div;
use crate::continuity::Continuity;
use crate::continuity::Ratio;
use crate::contours::is_segment;
use crate::contours::join_count;
use crate::contours::ContourView;
use crate::curves::Bezier;
use crate::curves::BezierView;
use crate::glyphs::GlyphPointIndex;
use crate::matrix::Matrix;
use crate::points::lattice;
use crate::points::lattice_point;
use crate::points::lemma_product_bound;
use crate::points::CurvePoint;
use crate::points::Point;

verus! {

/// The state of a pass over a contour: the segments as they stand, the points
/// that are spoken for (named by the caller, or moved already), and the moves
/// made so far.
pub struct Sweep {
    pub curves: Seq<BezierView>,
    pub done: Seq<Seq<bool>>,
    pub log: Seq<(GlyphPointIndex, Point)>,
}

/// What stays fixed during a pass.
pub struct Frame {
    pub contour_index: usize,
    pub open: bool,
    pub continuities: Seq<Continuity>,
    pub matrix: Matrix,
}

/// The segment before the `c`-th of `n`, going round.
pub open spec fn before(n: int, c: int) -> int {
    if c == 0 {
        n - 1
    } else {
        c - 1
    }
}

/// The segment after the `c`-th of `n`, going round.
pub open spec fn after(n: int, c: int) -> int {
    if c + 1 == n {
        0
    } else {
        c + 1
    }
}

/// Whether one of `idxs` names the point `uuid` of the segment `curve_index`
/// of the contour `contour_index`.
pub open spec fn selected(
    idxs: Seq<GlyphPointIndex>,
    contour_index: usize,
    curve_index: int,
    uuid: u128,
) -> bool {
    exists|k: int|
        0 <= k < idxs.len() && (#[trigger] idxs[k]).contour_index == contour_index
            && idxs[k].curve_index == curve_index && idxs[k].uuid == uuid
}

/// For each point of each segment, whether `idxs` names it.
pub open spec fn targets(
    curves: Seq<BezierView>,
    contour_index: usize,
    idxs: Seq<GlyphPointIndex>,
) -> Seq<Seq<bool>> {
    Seq::new(
        curves.len(),
        |c: int|
            Seq::new(
                curves[c].points.len(),
                |i: int| selected(idxs, contour_index, c, curves[c].points[i].uuid),
            ),
    )
}

/// The point `center + (to - from) * mul / div`, each coordinate rounded to
/// the lattice.
pub open spec fn scaled_offset(center: Point, from: Point, to: Point, mul: int, div: int) -> Option<
    Point,
> {
    lattice(
        center.x + round_div((to.x - from.x) * mul, div),
        center.y + round_div((to.y - from.y) * mul, div),
    )
}

/// Where the handle before a join belongs when the handle after it stands at
/// `handle`: on the far side of `joint`, at the `beta`-th part of the distance.
pub open spec fn tangent_before(joint: Point, handle: Point, beta: Ratio) -> Option<Point> {
    scaled_offset(joint, handle, joint, beta.den as int, beta.num as int)
}

/// Where the handle after a join belongs when the handle before it stands at
/// `handle`, the segment before the join ends at `end` and the segment after
/// it starts at `joint`: at `beta` times the distance, on the far side.
pub open spec fn tangent_after(joint: Point, end: Point, handle: Point, beta: Ratio) -> Option<
    Point,
> {
    scaled_offset(joint, handle, end, beta.num as int, beta.den as int)
}

impl Frame {
    /// Whether the `c`-th segment is joined to a segment before it.
    pub open spec fn joined_before(self, c: int) -> bool {
        !self.open || c != 0
    }

    /// Whether the `c`-th of `n` segments is joined to a segment after it.
    pub open spec fn joined_after(self, n: int, c: int) -> bool {
        !self.open || c + 1 != n
    }
}

impl Sweep {
    /// The number of points of the `c`-th segment.
    pub open spec fn len(self, c: int) -> int {
        self.curves[c].points.len() as int
    }

    /// Where the `i`-th point of the `c`-th segment stands.
    pub open spec fn position(self, c: int, i: int) -> Point {
        self.curves[c].points[i].position
    }

    /// Whether the marks and the segments are of one shape.
    pub open spec fn aligned(self) -> bool {
        &&& self.done.len() == self.curves.len()
        &&& forall|c: int|
            0 <= c < self.curves.len() ==> (#[trigger] self.done[c]).len()
                == self.curves[c].points.len()
    }

    /// Whether `(c, i)` is a point of the contour.
    pub open spec fn has(self, c: int, i: int) -> bool {
        0 <= c < self.curves.len() && 0 <= i < self.curves[c].points.len()
    }

    /// Whether the state is of one shape throughout, and every segment has
    /// two to four points.
    pub open spec fn sound(self) -> bool {
        &&& self.aligned()
        &&& forall|c: int| 0 <= c < self.curves.len() ==> is_segment(#[trigger] self.curves[c])
    }

    /// Whether `other` has the segments and points of `self`, wherever they
    /// stand.
    pub open spec fn same_shape(self, other: Sweep) -> bool {
        &&& self.curves.len() == other.curves.len()
        &&& forall|c: int|
            0 <= c < self.curves.len() ==> (#[trigger] self.curves[c]).points.len()
                == other.curves[c].points.len()
    }

    /// The state after the point `(c, i)` was put at `p`.
    pub open spec fn placed(self, contour_index: usize, c: int, i: int, p: Point) -> Sweep {
        let point = self.curves[c].points[i];
        Sweep {
            curves: self.curves.update(
                c,
                BezierView {
                    smooth: self.curves[c].smooth,
                    points: self.curves[c].points.update(
                        i,
                        CurvePoint { position: p, uuid: point.uuid },
                    ),
                },
            ),
            done: self.done.update(c, self.done[c].update(i, true)),
            log: self.log.push(
                (
                    GlyphPointIndex { contour_index, curve_index: c as usize, uuid: point.uuid },
                    p,
                ),
            ),
        }
    }

    /// The state after the point `(c, i)` was put where `target` says, if it
    /// says so.
    pub open spec fn placed_at(self, f: Frame, c: int, i: int, target: Option<Point>) -> Option<
        Sweep,
    > {
        match target {
            Some(p) => Some(self.placed(f.contour_index, c, i, p)),
            None => None,
        }
    }

    /// The state after the point `(c, i)` was moved by the matrix.
    pub open spec fn moved(self, f: Frame, c: int, i: int) -> Option<Sweep> {
        self.placed_at(f, c, i, f.matrix.apply(self.position(c, i)))
    }

    /// The state after the point `(c, i)` was moved by the matrix, unless it
    /// is spoken for.
    pub open spec fn reached(self, f: Frame, c: int, i: int) -> Option<Sweep> {
        if self.done[c][i] {
            Some(self)
        } else {
            self.moved(f, c, i)
        }
    }

    /// The state after the first point of the `c`-th segment has taken along
    /// its handle and what lies across the join before it.
    pub open spec fn first_end_followed(self, f: Frame, c: int) -> Option<Sweep> {
        let n = self.curves.len() as int;
        let p = before(n, c);
        let lp = self.len(p);
        let own = if self.len(c) > 2 {
            self.reached(f, c, 1)
        } else {
            Some(self)
        };
        match own {
            None => None,
            Some(s1) => if f.joined_before(c) {
                match s1.reached(f, p, lp - 1) {
                    None => None,
                    Some(s2) => if lp > 2 {
                        s2.reached(f, p, lp - 2)
                    } else {
                        Some(s2)
                    },
                }
            } else {
                Some(s1)
            },
        }
    }

    /// The state after the last point of the `c`-th segment has taken along
    /// its handle and what lies across the join after it.
    pub open spec fn last_end_followed(self, f: Frame, c: int) -> Option<Sweep> {
        let n = self.curves.len() as int;
        let q = after(n, c);
        let i = self.len(c) - 1;
        let own = if self.len(c) > 2 {
            self.reached(f, c, i - 1)
        } else {
            Some(self)
        };
        match own {
            None => None,
            Some(s1) => if f.joined_after(n, c) {
                match s1.reached(f, q, 0) {
                    None => None,
                    Some(s2) => if self.len(q) > 2 {
                        s2.reached(f, q, 1)
                    } else {
                        Some(s2)
                    },
                }
            } else {
                Some(s1)
            },
        }
    }

    /// The state after the first handle of the `c`-th segment has set the
    /// handle that faces it across the join before the segment.
    pub open spec fn first_handle_followed(self, f: Frame, c: int) -> Option<Sweep> {
        let n = self.curves.len() as int;
        let p = before(n, c);
        let lp = self.len(p);
        if f.joined_before(c) && lp > 2 && !self.done[p][lp - 2] {
            match f.continuities[p] {
                Continuity::Positional => Some(self),
                Continuity::Velocity => self.placed_at(
                    f,
                    p,
                    lp - 2,
                    lattice(
                        2 * self.position(c, 0).x - self.position(c, 1).x,
                        2 * self.position(c, 0).y - self.position(c, 1).y,
                    ),
                ),
                Continuity::Tangent { beta } => self.placed_at(
                    f,
                    p,
                    lp - 2,
                    tangent_before(self.position(p, lp - 1), self.position(c, 1), beta),
                ),
            }
        } else {
            Some(self)
        }
    }

    /// The state after a later handle `(c, i)` has set the handle that faces
    /// it across the join after the segment.
    pub open spec fn later_handle_followed(self, f: Frame, c: int, i: int) -> Option<Sweep> {
        let n = self.curves.len() as int;
        let q = after(n, c);
        if f.joined_after(n, c) && self.len(q) > 2 && !self.done[q][1] {
            match f.continuities[c] {
                Continuity::Positional => Some(self),
                Continuity::Velocity => self.placed_at(
                    f,
                    q,
                    1,
                    lattice(
                        2 * self.position(c, i + 1).x - self.position(c, i).x,
                        2 * self.position(c, i + 1).y - self.position(c, i).y,
                    ),
                ),
                Continuity::Tangent { beta } => self.placed_at(
                    f,
                    q,
                    1,
                    tangent_after(
                        self.position(q, 0),
                        self.position(c, i + 1),
                        self.position(c, i),
                        beta,
                    ),
                ),
            }
        } else {
            Some(self)
        }
    }

    /// The state after the visit of the named point `(c, i)`.
    pub open spec fn visited(self, f: Frame, c: int, i: int) -> Option<Sweep> {
        match self.moved(f, c, i) {
            None => None,
            Some(s) => if i == 0 {
                s.first_end_followed(f, c)
            } else if i + 1 == self.len(c) {
                s.last_end_followed(f, c)
            } else if i == 1 {
                s.first_handle_followed(f, c)
            } else {
                s.later_handle_followed(f, c, i)
            },
        }
    }

    /// The state after the visits of the named points among the first `upto`
    /// of the `c`-th segment.
    pub open spec fn swept_curve(self, f: Frame, named: Seq<Seq<bool>>, c: int, upto: int) -> Option<
        Sweep,
    >
        decreases upto,
    {
        if upto <= 0 {
            Some(self)
        } else {
            match self.swept_curve(f, named, c, upto - 1) {
                None => None,
                Some(s) => if named[c][upto - 1] {
                    s.visited(f, c, upto - 1)
                } else {
                    Some(s)
                },
            }
        }
    }

    /// The state after the visits of the named points of the first `upto`
    /// segments.
    pub open spec fn swept(self, f: Frame, named: Seq<Seq<bool>>, upto: int) -> Option<Sweep>
        decreases upto,
    {
        if upto <= 0 {
            Some(self)
        } else {
            match self.swept(f, named, upto - 1) {
                None => None,
                Some(s) => s.swept_curve(f, named, upto - 1, named[upto - 1].len() as int),
            }
        }
    }
}

/// The outcome of moving the points of the contour `v` that `idxs` names by
/// `matrix`: the segments, the points touched and the moves made, or `None`
/// where a point would leave the lattice.
pub open spec fn transformed(
    v: ContourView,
    contour_index: usize,
    idxs: Seq<GlyphPointIndex>,
    matrix: Matrix,
) -> Option<Sweep> {
    let named = targets(v.curves, contour_index, idxs);
    let start = Sweep { curves: v.curves, done: named, log: Seq::empty() };
    let f = Frame { contour_index, open: v.open, continuities: v.continuities, matrix };
    start.swept(f, named, v.curves.len() as int)
}

/// The views of a row of segments.
pub open spec fn curve_views(curves: Seq<Bezier>) -> Seq<BezierView> {
    Seq::new(curves.len(), |c: int| curves[c]@)
}

/// The views of the rows of marks.
pub open spec fn mark_views(marks: Seq<Vec<bool>>) -> Seq<Seq<bool>> {
    Seq::new(marks.len(), |c: int| marks[c]@)
}

/// Whether one of `idxs` names the point.
fn is_selected(idxs: &[GlyphPointIndex], contour_index: usize, curve_index: usize, uuid: u128) -> (r:
    bool)
    ensures
        r == selected(idxs@, contour_index, curve_index as int, uuid),
{
    let mut k: usize = 0;
    while k < idxs.len()
        invariant
            k <= idxs@.len(),
            forall|j: int|
                0 <= j < k ==> !((#[trigger] idxs@[j]).contour_index == contour_index
                    && idxs@[j].curve_index == curve_index && idxs@[j].uuid == uuid),
        decreases idxs@.len() - k,
    {
        let e: GlyphPointIndex = idxs[k];
        if e.contour_index == contour_index && e.curve_index == curve_index && e.uuid == uuid {
            return true;
        }
        k += 1;
    }
    false
}

/// For each point of each segment, whether `idxs` names it.
pub(crate) fn named_points(curves: &Vec<Bezier>, contour_index: usize, idxs: &[GlyphPointIndex]) -> (r: Vec<
    Vec<bool>,
>)
    ensures
        mark_views(r@) == targets(curve_views(curves@), contour_index, idxs@),
{
    let mut out: Vec<Vec<bool>> = Vec::new();
    let mut c: usize = 0;
    while c < curves.len()
        invariant
            c <= curves@.len(),
            out@.len() == c,
            forall|d: int|
                0 <= d < c ==> (#[trigger] out@[d])@ == targets(
                    curve_views(curves@),
                    contour_index,
                    idxs@,
                )[d],
        decreases curves@.len() - c,
    {
        let mut row: Vec<bool> = Vec::new();
        let mut i: usize = 0;
        let n: usize = curves[c].len();
        while i < n
            invariant
                c < curves@.len(),
                n == curves@[c as int]@.points.len(),
                i <= n,
                row@.len() == i,
                forall|j: int|
                    0 <= j < i ==> #[trigger] row@[j] == selected(
                        idxs@,
                        contour_index,
                        c as int,
                        curves@[c as int]@.points[j].uuid,
                    ),
            decreases n - i,
        {
            row.push(is_selected(idxs, contour_index, c, curves[c].point(i).uuid));
            i += 1;
        }
        assert(row@ =~= targets(curve_views(curves@), contour_index, idxs@)[c as int]);
        out.push(row);
        c += 1;
    }
    assert(mark_views(out@) =~= targets(curve_views(curves@), contour_index, idxs@));
    out
}

/// A copy of the rows of marks.
pub(crate) fn copied_marks(marks: &Vec<Vec<bool>>) -> (r: Vec<Vec<bool>>)
    ensures
        mark_views(r@) == mark_views(marks@),
{
    let mut out: Vec<Vec<bool>> = Vec::new();
    let mut c: usize = 0;
    while c < marks.len()
        invariant
            c <= marks@.len(),
            out@.len() == c,
            forall|d: int| 0 <= d < c ==> (#[trigger] out@[d])@ == marks@[d]@,
        decreases marks@.len() - c,
    {
        let row: Vec<bool> = marks[c].clone();
        assert(row@ =~= marks@[c as int]@);
        out.push(row);
        c += 1;
    }
    assert(mark_views(out@) =~= mark_views(marks@));
    out
}

/// A copy of a row of segments.
pub fn copied_curves(curves: &Vec<Bezier>) -> (r: Vec<Bezier>)
    ensures
        curve_views(r@) == curve_views(curves@),
{
    let mut out: Vec<Bezier> = Vec::new();
    let mut c: usize = 0;
    while c < curves.len()
        invariant
            c <= curves@.len(),
            out@.len() == c,
            forall|d: int| 0 <= d < c ==> (#[trigger] out@[d])@ == curves@[d]@,
        decreases curves@.len() - c,
    {
        out.push(curves[c].clone());
        c += 1;
    }
    assert(curve_views(out@) =~= curve_views(curves@));
    out
}

/// The point `center + (to - from) * mul / div`, each coordinate rounded to
/// the lattice.
fn offset_point(center: Point, from: Point, to: Point, mul: u64, div: u64) -> (r: Option<Point>)
    requires
        div > 0,
    ensures
        r == scaled_offset(center, from, to, mul as int, div as int),
{
    let dx: i128 = to.x as i128 - from.x as i128;
    let dy: i128 = to.y as i128 - from.y as i128;
    proof {
        lemma_product_bound(dx as int, mul as int, 0x1_0000_0000, 0x1_0000_0000_0000_0000);
        lemma_product_bound(dy as int, mul as int, 0x1_0000_0000, 0x1_0000_0000_0000_0000);
        crate::arith::lemma_round_div_between(
            dx * mul,
            div as int,
            -0x1_0000_0000_0000_0000_0000_0000,
            0x1_0000_0000_0000_0000_0000_0000,
        );
        crate::arith::lemma_round_div_between(
            dy * mul,
            div as int,
            -0x1_0000_0000_0000_0000_0000_0000,
            0x1_0000_0000_0000_0000_0000_0000,
        );
    }
    let qx: i128 = rounded_div(dx * (mul as i128), div as i128);
    let qy: i128 = rounded_div(dy * (mul as i128), div as i128);
    lattice_point(center.x as i128 + qx, center.y as i128 + qy)
}

/// Whether the frame has a well-formed continuity for every join of `n`
/// segments.
pub open spec fn fitting(f: Frame, n: int) -> bool {
    &&& f.continuities.len() == join_count(f.open, n)
    &&& forall|j: int| 0 <= j < f.continuities.len() ==> (#[trigger] f.continuities[j]).wf()
}

/// A pass that has failed has failed for good: within a segment.
pub proof fn lemma_swept_curve_stays_none(
    s: Sweep,
    f: Frame,
    named: Seq<Seq<bool>>,
    c: int,
    at: int,
    upto: int,
)
    requires
        0 <= at <= upto,
        s.swept_curve(f, named, c, at) is None,
    ensures
        s.swept_curve(f, named, c, upto) is None,
    decreases upto - at,
{
    if at < upto {
        lemma_swept_curve_stays_none(s, f, named, c, at, upto - 1);
    }
}

/// A pass that has failed has failed for good: from segment to segment.
pub proof fn lemma_swept_stays_none(s: Sweep, f: Frame, named: Seq<Seq<bool>>, at: int, upto: int)
    requires
        0 <= at <= upto,
        s.swept(f, named, at) is None,
    ensures
        s.swept(f, named, upto) is None,
    decreases upto - at,
{
    if at < upto {
        lemma_swept_stays_none(s, f, named, at, upto - 1);
    }
}

/// What a pass is run with.
pub struct Setting<'a> {
    pub contour_index: usize,
    pub open: bool,
    pub continuities: &'a Vec<Continuity>,
    pub matrix: Matrix,
}

impl<'a> View for Setting<'a> {
    type V = Frame;

    open spec fn view(&self) -> Frame {
        Frame {
            contour_index: self.contour_index,
            open: self.open,
            continuities: self.continuities@,
            matrix: self.matrix,
        }
    }
}

/// A pass under way.
pub(crate) struct Pass {
    curves: Vec<Bezier>,
    done: Vec<Vec<bool>>,
    log: Vec<(GlyphPointIndex, Point)>,
}

impl View for Pass {
    type V = Sweep;

    closed spec fn view(&self) -> Sweep {
        Sweep { curves: curve_views(self.curves@), done: mark_views(self.done@), log: self.log@ }
    }
}

impl Pass {
    /// A pass about to start on `curves`, with the points marked in `done`
    /// spoken for.
    pub(crate) fn new(curves: Vec<Bezier>, done: Vec<Vec<bool>>) -> (r: Pass)
        ensures
            r@ == (Sweep {
                curves: curve_views(curves@),
                done: mark_views(done@),
                log: Seq::empty(),
            }),
    {
        Pass { curves, done, log: Vec::new() }
    }

    /// The segments as the pass left them, and the moves it made.
    pub(crate) fn finish(self) -> (r: (Vec<Bezier>, Vec<(GlyphPointIndex, Point)>))
        ensures
            curve_views(r.0@) == self@.curves,
            r.1@ == self@.log,
    {
        (self.curves, self.log)
    }

    /// Puts the point `(c, i)` at `p`.
    fn place(&mut self, contour_index: usize, c: usize, i: usize, p: Point)
        requires
            old(self)@.sound(),
            old(self)@.has(c as int, i as int),
        ensures
            final(self)@ == old(self)@.placed(contour_index, c as int, i as int, p),
            final(self)@.sound(),
            old(self)@.same_shape(final(self)@),
    {
        let uuid: u128 = self.curves[c].point(i).uuid;
        let moved: bool = self.curves[c].set_position(i, p);
        assert(self.done@[c as int]@.len() == old(self)@.done[c as int].len());
        self.done[c].set(i, true);
        self.log.push((GlyphPointIndex { contour_index, curve_index: c, uuid }, p));
        proof {
            let s = old(self)@.placed(contour_index, c as int, i as int, p);
            assert(self@.curves =~= s.curves);
            assert(self@.done =~= s.done);
            assert forall|d: int| 0 <= d < self@.curves.len() implies is_segment(
                #[trigger] self@.curves[d],
            ) by {
                assert(is_segment(old(self)@.curves[d]));
            }
        }
    }

    /// Puts the point `(c, i)` where `target` says; tells whether it says so.
    fn place_at(&mut self, g: &Setting, c: usize, i: usize, target: Option<Point>) -> (ok: bool)
        requires
            old(self)@.sound(),
            old(self)@.has(c as int, i as int),
        ensures
            final(self)@.sound(),
            old(self)@.same_shape(final(self)@),
            match old(self)@.placed_at(g@, c as int, i as int, target) {
                Some(s) => ok && final(self)@ == s,
                None => !ok && final(self)@ == old(self)@,
            },
    {
        match target {
            Some(p) => {
                self.place(g.contour_index, c, i, p);
                true
            },
            None => false,
        }
    }

    /// Where the point `(c, i)` stands.
    fn position(&self, c: usize, i: usize) -> (r: Point)
        requires
            self@.has(c as int, i as int),
        ensures
            r == self@.position(c as int, i as int),
    {
        self.curves[c].point(i).position
    }

    /// The number of points of the `c`-th segment.
    fn len(&self, c: usize) -> (r: usize)
        requires
            c < self@.curves.len(),
        ensures
            r == self@.len(c as int),
    {
        self.curves[c].len()
    }

    /// Whether the point `(c, i)` is spoken for.
    fn is_done(&self, c: usize, i: usize) -> (r: bool)
        requires
            self@.aligned(),
            self@.has(c as int, i as int),
        ensures
            r == self@.done[c as int][i as int],
    {
        assert(self@.done[c as int].len() == self@.curves[c as int].points.len());
        self.done[c][i]
    }

    /// Moves the point `(c, i)` by the matrix.
    fn move_point(&mut self, g: &Setting, c: usize, i: usize) -> (ok: bool)
        requires
            old(self)@.sound(),
            old(self)@.has(c as int, i as int),
        ensures
            final(self)@.sound(),
            old(self)@.same_shape(final(self)@),
            match old(self)@.moved(g@, c as int, i as int) {
                Some(s) => ok && final(self)@ == s,
                None => !ok && final(self)@ == old(self)@,
            },
    {
        let target: Option<Point> = g.matrix.transform_point(self.position(c, i));
        self.place_at(g, c, i, target)
    }

    /// Moves the point `(c, i)` by the matrix, unless it is spoken for.
    fn reach(&mut self, g: &Setting, c: usize, i: usize) -> (ok: bool)
        requires
            old(self)@.sound(),
            old(self)@.has(c as int, i as int),
        ensures
            final(self)@.sound(),
            old(self)@.same_shape(final(self)@),
            match old(self)@.reached(g@, c as int, i as int) {
                Some(s) => ok && final(self)@ == s,
                None => !ok && final(self)@ == old(self)@,
            },
    {
        if self.is_done(c, i) {
            true
        } else {
            self.move_point(g, c, i)
        }
    }

    /// Lets the first point of the `c`-th segment take along its handle and
    /// what lies across the join before it.
    fn follow_first_end(&mut self, g: &Setting, c: usize) -> (ok: bool)
        requires
            old(self)@.sound(),
            c < old(self)@.curves.len(),
        ensures
            final(self)@.sound(),
            old(self)@.same_shape(final(self)@),
            match old(self)@.first_end_followed(g@, c as int) {
                Some(s) => ok && final(self)@ == s,
                None => !ok,
            },
    {
        let n: usize = self.curves.len();
        let p: usize = if c == 0 {
            n - 1
        } else {
            c - 1
        };
        proof {
            assert(is_segment(self@.curves[c as int]));
            assert(is_segment(self@.curves[p as int]));
        }
        let lp: usize = self.len(p);
        if self.len(c) > 2 {
            if !self.reach(g, c, 1) {
                return false;
            }
        }
        if !g.open || c != 0 {
            proof {
                assert(is_segment(self@.curves[p as int]));
            }
            if !self.reach(g, p, lp - 1) {
                return false;
            }
            if lp > 2 {
                proof {
                    assert(is_segment(self@.curves[p as int]));
                }
                if !self.reach(g, p, lp - 2) {
                    return false;
                }
            }
        }
        true
    }

    /// Lets the last point of the `c`-th segment take along its handle and
    /// what lies across the join after it.
    fn follow_last_end(&mut self, g: &Setting, c: usize) -> (ok: bool)
        requires
            old(self)@.sound(),
            c < old(self)@.curves.len(),
        ensures
            final(self)@.sound(),
            old(self)@.same_shape(final(self)@),
            match old(self)@.last_end_followed(g@, c as int) {
                Some(s) => ok && final(self)@ == s,
                None => !ok,
            },
    {
        let n: usize = self.curves.len();
        let q: usize = if c + 1 == n {
            0
        } else {
            c + 1
        };
        proof {
            assert(is_segment(self@.curves[c as int]));
            assert(is_segment(self@.curves[q as int]));
        }
        let len: usize = self.len(c);
        let lq: usize = self.len(q);
        if len > 2 {
            if !self.reach(g, c, len - 2) {
                return false;
            }
        }
        if !g.open || c + 1 != n {
            proof {
                assert(is_segment(self@.curves[q as int]));
            }
            if !self.reach(g, q, 0) {
                return false;
            }
            if lq > 2 {
                proof {
                    assert(is_segment(self@.curves[q as int]));
                }
                if !self.reach(g, q, 1) {
                    return false;
                }
            }
        }
        true
    }

    /// Lets the first handle of the `c`-th segment set the handle that faces
    /// it across the join before the segment.
    fn follow_first_handle(&mut self, g: &Setting, c: usize) -> (ok: bool)
        requires
            old(self)@.sound(),
            c < old(self)@.curves.len(),
            old(self)@.len(c as int) > 2,
            fitting(g@, old(self)@.curves.len() as int),
        ensures
            final(self)@.sound(),
            old(self)@.same_shape(final(self)@),
            match old(self)@.first_handle_followed(g@, c as int) {
                Some(s) => ok && final(self)@ == s,
                None => !ok,
            },
    {
        let n: usize = self.curves.len();
        let p: usize = if c == 0 {
            n - 1
        } else {
            c - 1
        };
        proof {
            assert(is_segment(self@.curves[p as int]));
        }
        let lp: usize = self.len(p);
        if (!g.open || c != 0) && lp > 2 && !self.is_done(p, lp - 2) {
            let continuity: Continuity = g.continuities[p];
            assert(continuity.wf());
            match continuity {
                Continuity::Positional => true,
                Continuity::Velocity => {
                    let target: Option<Point> = self.position(c, 1).mirror(self.position(c, 0));
                    self.place_at(g, p, lp - 2, target)
                },
                Continuity::Tangent { beta } => {
                    let joint: Point = self.position(p, lp - 1);
                    let target: Option<Point> = offset_point(
                        joint,
                        self.position(c, 1),
                        joint,
                        beta.den,
                        beta.num,
                    );
                    self.place_at(g, p, lp - 2, target)
                },
            }
        } else {
            true
        }
    }

    /// Lets a later handle `(c, i)` set the handle that faces it across the
    /// join after the segment.
    fn follow_later_handle(&mut self, g: &Setting, c: usize, i: usize) -> (ok: bool)
        requires
            old(self)@.sound(),
            c < old(self)@.curves.len(),
            0 < i,
            i + 1 < old(self)@.len(c as int),
            fitting(g@, old(self)@.curves.len() as int),
        ensures
            final(self)@.sound(),
            old(self)@.same_shape(final(self)@),
            match old(self)@.later_handle_followed(g@, c as int, i as int) {
                Some(s) => ok && final(self)@ == s,
                None => !ok,
            },
    {
        let n: usize = self.curves.len();
        let q: usize = if c + 1 == n {
            0
        } else {
            c + 1
        };
        proof {
            assert(is_segment(self@.curves[q as int]));
        }
        let lq: usize = self.len(q);
        if (!g.open || c + 1 != n) && lq > 2 && !self.is_done(q, 1) {
            let continuity: Continuity = g.continuities[c];
            assert(continuity.wf());
            match continuity {
                Continuity::Positional => true,
                Continuity::Velocity => {
                    let target: Option<Point> = self.position(c, i).mirror(
                        self.position(c, i + 1),
                    );
                    self.place_at(g, q, 1, target)
                },
                Continuity::Tangent { beta } => {
                    let target: Option<Point> = offset_point(
                        self.position(q, 0),
                        self.position(c, i),
                        self.position(c, i + 1),
                        beta.num,
                        beta.den,
                    );
                    self.place_at(g, q, 1, target)
                },
            }
        } else {
            true
        }
    }

    /// Visits the named point `(c, i)`.
    fn visit(&mut self, g: &Setting, c: usize, i: usize) -> (ok: bool)
        requires
            old(self)@.sound(),
            old(self)@.has(c as int, i as int),
            fitting(g@, old(self)@.curves.len() as int),
        ensures
            final(self)@.sound(),
            old(self)@.same_shape(final(self)@),
            match old(self)@.visited(g@, c as int, i as int) {
                Some(s) => ok && final(self)@ == s,
                None => !ok,
            },
    {
        let len: usize = self.len(c);
        if !self.move_point(g, c, i) {
            return false;
        }
        if i == 0 {
            self.follow_first_end(g, c)
        } else if i + 1 == len {
            self.follow_last_end(g, c)
        } else if i == 1 {
            self.follow_first_handle(g, c)
        } else {
            self.follow_later_handle(g, c, i)
        }
    }

    /// Visits every named point, segment by segment. Tells whether every
    /// point stayed on the lattice; where one did not, the pass is void.
    pub(crate) fn sweep(&mut self, g: &Setting, named: &Vec<Vec<bool>>) -> (ok: bool)
        requires
            old(self)@.sound(),
            mark_views(named@).len() == old(self)@.curves.len(),
            forall|c: int|
                0 <= c < old(self)@.curves.len() ==> (#[trigger] mark_views(named@)[c]).len()
                    == old(self)@.curves[c].points.len(),
            fitting(g@, old(self)@.curves.len() as int),
        ensures
            match old(self)@.swept(g@, mark_views(named@), old(self)@.curves.len() as int) {
                Some(s) => ok && final(self)@ == s,
                None => !ok,
            },
    {
        let ghost origin = self@;
        let ghost marks = mark_views(named@);
        let n: usize = self.curves.len();
        let mut c: usize = 0;
        while c < n
            invariant
                c <= n,
                n == origin.curves.len(),
                origin == old(self)@,
                n == self@.curves.len(),
                marks == mark_views(named@),
                marks.len() == n,
                self@.sound(),
                forall|d: int|
                    0 <= d < n ==> (#[trigger] marks[d]).len() == self@.curves[d].points.len(),
                fitting(g@, n as int),
                origin.swept(g@, marks, c as int) == Some(self@),
            decreases n - c,
        {
            let ghost start = self@;
            let len: usize = self.len(c);
            assert(marks[c as int].len() == len);
            let mut i: usize = 0;
            while i < len
                invariant
                    c < n,
                    i <= len,
                    n == origin.curves.len(),
                    origin == old(self)@,
                    n == self@.curves.len(),
                    len == marks[c as int].len(),
                    marks == mark_views(named@),
                    marks.len() == n,
                    self@.sound(),
                    forall|d: int|
                        0 <= d < n ==> (#[trigger] marks[d]).len() == self@.curves[d].points.len(),
                    fitting(g@, n as int),
                    origin.swept(g@, marks, c as int) == Some(start),
                    start.swept_curve(g@, marks, c as int, i as int) == Some(self@),
                decreases len - i,
            {
                if named[c][i] {
                    if !self.visit(g, c, i) {
                        proof {
                            assert(start.swept_curve(g@, marks, c as int, i + 1) is None);
                            lemma_swept_curve_stays_none(
                                start,
                                g@,
                                marks,
                                c as int,
                                i + 1,
                                len as int,
                            );
                            assert(origin.swept(g@, marks, c + 1) is None);
                            lemma_swept_stays_none(origin, g@, marks, c + 1, n as int);
                        }
                        return false;
                    }
                }
                i += 1;
            }
            c += 1;
        }
        true
    }
}

} // verus!
