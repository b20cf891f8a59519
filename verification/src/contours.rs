//! Contours: segments joined end to start into one path, open or closed,
//! with the continuity of every join.

use vstd::prelude::*;
use crate::continuity::classify;
use crate::continuity::classify_points;
use crate::continuity::Continuity;
use crate::curves::cubic_positions;
use crate::curves::positions;
use crate::curves::Bezier;
use crate::curves::BezierView;
use crate::errors::EditError;
use crate::glyphs::GlyphPointIndex;
use crate::invariants::lemma_transformed_keeps_joins;
use crate::matrix::Matrix;
use crate::propagation::after;
use crate::propagation::copied_curves;
use crate::propagation::copied_marks;
use crate::propagation::curve_views;
use crate::propagation::named_points;
use crate::propagation::transformed;
use crate::propagation::Pass;
use crate::propagation::Setting;
use crate::points::CurvePoint;
use crate::points::Point;

verus! {

/// One path of a glyph.
///
/// An open contour of `n` segments has `n - 1` joins; a closed one has `n`,
/// the last of them between the last segment and the first. At every join
/// the segment before it ends exactly where the segment after it starts.
#[derive(Debug)]
pub struct Contour {
    open: bool,
    curves: Vec<Bezier>,
    continuities: Vec<Continuity>,
}

/// What a contour is, as a value.
pub struct ContourView {
    pub open: bool,
    pub curves: Seq<BezierView>,
    pub continuities: Seq<Continuity>,
}

impl View for Contour {
    type V = ContourView;

    closed spec fn view(&self) -> ContourView {
        ContourView {
            open: self.open,
            curves: curve_views(self.curves@),
            continuities: self.continuities@,
        }
    }
}

/// Whether `b` can stand in a contour: a segment of two, three or four points.
pub open spec fn is_segment(b: BezierView) -> bool {
    2 <= b.points.len() <= 4
}

/// Whether `a` ends where `b` starts.
pub open spec fn meets(a: BezierView, b: BezierView) -> bool {
    a.points[a.points.len() - 1].position == b.points[0].position
}

/// The continuity at the join of `a` and the segment `b` that follows it:
/// positional unless `b` asks for a smooth join, and else decided by the last
/// handle of `a`, the join, and the first handle of `b`.
pub open spec fn join_continuity(a: BezierView, b: BezierView) -> Continuity {
    if b.smooth {
        classify(
            a.points[a.points.len() - 2].position,
            a.points[a.points.len() - 1].position,
            b.points[1].position,
        )
    } else {
        Continuity::Positional
    }
}

/// The segment `b` turned round.
pub open spec fn flipped(b: BezierView) -> BezierView {
    BezierView { smooth: b.smooth, points: b.points.reverse() }
}

/// Whether `b` stands for `a` in a contour of cubic curves: the cubic curve
/// that runs as `a` does where `a` is quadratic, and `a` itself otherwise.
pub open spec fn cubic_for(a: BezierView, b: BezierView) -> bool {
    if a.points.len() == 3 {
        !b.smooth && positions(b.points) == cubic_positions(a.points)
    } else {
        b == a
    }
}

/// The number of joins of a contour of `n` segments.
pub open spec fn join_count(open: bool, n: int) -> int {
    if !open {
        n
    } else if n == 0 {
        0
    } else {
        n - 1
    }
}

impl ContourView {
    /// The number of joins.
    pub open spec fn joins(self) -> int {
        join_count(self.open, self.curves.len() as int)
    }

    /// Whether the segments on the two sides of the `j`-th join meet.
    pub open spec fn joined_at(self, j: int) -> bool {
        meets(self.curves[j], self.curves[after(self.curves.len() as int, j)])
    }

    /// The invariant of a contour: every segment has two to four points,
    /// every join has its continuity, and at every join the two segments
    /// meet.
    pub open spec fn wf(self) -> bool {
        &&& forall|c: int| 0 <= c < self.curves.len() ==> is_segment(#[trigger] self.curves[c])
        &&& self.continuities.len() == self.joins()
        &&& forall|j: int| 0 <= j < self.joins() ==> #[trigger] self.joined_at(j)
        &&& forall|j: int|
            0 <= j < self.continuities.len() ==> (#[trigger] self.continuities[j]).wf()
    }

    /// What appending the segment `b` comes to.
    pub open spec fn pushed(self, b: BezierView) -> Result<ContourView, EditError> {
        let n = self.curves.len() as int;
        if b.points.len() == 0 {
            Ok(self)
        } else if !self.open {
            Err(EditError::ContourClosed)
        } else if n == 0 {
            Ok(ContourView { curves: self.curves.push(b), ..self })
        } else if !meets(self.curves[n - 1], b) {
            Err(EditError::JoinMismatch)
        } else {
            Ok(
                ContourView {
                    curves: self.curves.push(b),
                    continuities: self.continuities.push(join_continuity(self.curves[n - 1], b)),
                    ..self
                },
            )
        }
    }

    /// What closing the contour comes to.
    pub open spec fn closed(self) -> Result<ContourView, EditError> {
        let n = self.curves.len() as int;
        if !self.open {
            Ok(self)
        } else if n == 0 {
            Ok(ContourView { open: false, ..self })
        } else if !meets(self.curves[n - 1], self.curves[0]) {
            Err(EditError::JoinMismatch)
        } else {
            Ok(
                ContourView {
                    open: false,
                    continuities: self.continuities.push(
                        join_continuity(self.curves[n - 1], self.curves[0]),
                    ),
                    ..self
                },
            )
        }
    }

    /// The contour run through the other way: the segments in reverse order,
    /// each turned round, and the continuities in reverse order.
    pub open spec fn reversed(self) -> ContourView {
        ContourView {
            open: self.open,
            curves: Seq::new(
                self.curves.len(),
                |c: int| flipped(self.curves[self.curves.len() - 1 - c]),
            ),
            continuities: self.continuities.reverse(),
        }
    }
}

/// The contour made of the first `upto` of `curves`, appended one by one to
/// the empty contour, or the error of the first segment that was rejected.
pub open spec fn chained(curves: Seq<BezierView>, upto: int) -> Result<ContourView, EditError>
    decreases upto,
{
    if upto <= 0 {
        Ok(ContourView { open: true, curves: Seq::empty(), continuities: Seq::empty() })
    } else {
        match chained(curves, upto - 1) {
            Ok(v) => v.pushed(curves[upto - 1]),
            Err(e) => Err(e),
        }
    }
}

/// Once a segment was rejected, the chain stays rejected.
pub proof fn lemma_chained_error_stays(curves: Seq<BezierView>, at: int, upto: int)
    requires
        0 <= at <= upto,
        chained(curves, at) is Err,
    ensures
        chained(curves, upto) == chained(curves, at),
    decreases upto - at,
{
    if at < upto {
        lemma_chained_error_stays(curves, at, upto - 1);
    }
}

/// The closed contour made of `curves`, appended one by one to the empty
/// contour and then closed, or the error of the first step that was
/// rejected.
pub open spec fn ringed(curves: Seq<BezierView>) -> Result<ContourView, EditError> {
    match chained(curves, curves.len() as int) {
        Ok(v) => v.closed(),
        Err(e) => Err(e),
    }
}

/// Segments of which each starts where the one before it ends make a
/// contour.
pub proof fn lemma_chained_meeting(curves: Seq<BezierView>, upto: int)
    requires
        0 <= upto <= curves.len(),
        forall|k: int| 0 <= k < curves.len() ==> is_segment(#[trigger] curves[k]),
        forall|k: int| 0 <= k < curves.len() - 1 ==> meets(#[trigger] curves[k], curves[k + 1]),
    ensures
        chained(curves, upto) is Ok,
        chained(curves, upto).unwrap().open,
        chained(curves, upto).unwrap().curves == curves.take(upto),
    decreases upto,
{
    if upto > 0 {
        lemma_chained_meeting(curves, upto - 1);
        let v = chained(curves, upto - 1).unwrap();
        assert(is_segment(curves[upto - 1]));
        if upto > 1 {
            assert(meets(curves[upto - 2], curves[upto - 1]));
            assert(v.curves[upto - 2] == curves[upto - 2]);
        }
        assert(v.curves.push(curves[upto - 1]) =~= curves.take(upto));
    } else {
        assert(curves.take(0) =~= Seq::empty());
    }
}

/// Segments that go round, each starting where the one before it ends and
/// the first where the last ends, make a closed contour of these segments.
pub proof fn lemma_ringed_meeting(curves: Seq<BezierView>)
    requires
        curves.len() > 0,
        forall|k: int| 0 <= k < curves.len() ==> is_segment(#[trigger] curves[k]),
        forall|k: int| 0 <= k < curves.len() - 1 ==> meets(#[trigger] curves[k], curves[k + 1]),
        meets(curves[curves.len() - 1], curves[0]),
    ensures
        ringed(curves) is Ok,
        !ringed(curves).unwrap().open,
        ringed(curves).unwrap().curves == curves,
{
    lemma_chained_meeting(curves, curves.len() as int);
    assert(curves.take(curves.len() as int) =~= curves);
}

/// Reversing the direction of a contour twice gives the contour back: the
/// order of the segments, the order of the points in each, and the
/// continuities.
pub proof fn lemma_reverse_direction_twice(v: ContourView)
    ensures
        v.reversed().reversed() == v,
{
    let w = v.reversed().reversed();
    assert(w.continuities =~= v.continuities);
    assert forall|c: int| 0 <= c < v.curves.len() implies #[trigger] w.curves[c] == v.curves[c] by {
        assert(w.curves[c].points =~= v.curves[c].points);
    }
    assert(w.curves =~= v.curves);
}

/// A contour keeps its invariant when its direction is reversed.
pub proof fn lemma_reversed_wf(v: ContourView)
    requires
        v.wf(),
    ensures
        v.reversed().wf(),
{
    let w = v.reversed();
    let n = v.curves.len() as int;
    assert forall|j: int| 0 <= j < w.joins() implies #[trigger] w.joined_at(j) by {
        if j == n - 1 {
            assert(v.joined_at(n - 1));
        } else {
            assert(v.joined_at(n - 2 - j));
        }
    }
    assert forall|c: int| 0 <= c < w.curves.len() implies is_segment(#[trigger] w.curves[c]) by {
        assert(is_segment(v.curves[n - 1 - c]));
    }
}

impl Contour {
    /// The empty, open contour.
    pub fn new() -> (r: Contour)
        ensures
            r@.wf(),
            r@ == (ContourView { open: true, curves: Seq::empty(), continuities: Seq::empty() }),
    {
        let r = Contour { open: true, curves: Vec::new(), continuities: Vec::new() };
        assert(r@.curves =~= Seq::empty());
        assert(r@.continuities =~= Seq::empty());
        r
    }

    /// The open contour made of `curves`, appended one by one. Where a
    /// segment is rejected, so is the contour.
    pub fn from_curves(curves: &Vec<Bezier>) -> (r: Result<Contour, EditError>)
        requires
            forall|c: int| 0 <= c < curves@.len() ==> (#[trigger] curves@[c]).wf(),
        ensures
            match chained(curve_views(curves@), curves@.len() as int) {
                Ok(v) => r matches Ok(contour) && contour@ == v && v.wf(),
                Err(e) => r matches Err(f) && f == e,
            },
    {
        let mut contour: Contour = Contour::new();
        let n: usize = curves.len();
        let ghost views = curve_views(curves@);
        let mut c: usize = 0;
        while c < n
            invariant
                n == curves@.len(),
                c <= n,
                views == curve_views(curves@),
                forall|d: int| 0 <= d < curves@.len() ==> (#[trigger] curves@[d]).wf(),
                contour@.wf(),
                chained(views, c as int) == Ok::<ContourView, EditError>(contour@),
            decreases n - c,
        {
            let curve: Bezier = curves[c].clone();
            assert(curve.wf()) by {
                assert(curves@[c as int].wf());
            }
            match contour.push_curve(curve) {
                Ok(()) => {},
                Err(e) => {
                    proof {
                        lemma_chained_error_stays(views, c + 1, n as int);
                    }
                    return Err(e);
                },
            }
            c += 1;
        }
        Ok(contour)
    }

    /// The closed contour made of `curves`, appended one by one and then
    /// closed. Where a step is rejected, so is the contour.
    pub fn ring(curves: &Vec<Bezier>) -> (r: Result<Contour, EditError>)
        requires
            forall|c: int| 0 <= c < curves@.len() ==> (#[trigger] curves@[c]).wf(),
        ensures
            match ringed(curve_views(curves@)) {
                Ok(v) => r matches Ok(contour) && contour@ == v && v.wf(),
                Err(e) => r matches Err(f) && f == e,
            },
    {
        match Contour::from_curves(curves) {
            Ok(mut contour) => match contour.close() {
                Ok(()) => Ok(contour),
                Err(e) => Err(e),
            },
            Err(e) => Err(e),
        }
    }

    /// The segments, in order.
    pub fn curves(&self) -> (r: &Vec<Bezier>)
        ensures
            curve_views(r@) == self@.curves,
    {
        &self.curves
    }

    /// The continuities of the joins, in order.
    pub fn continuities(&self) -> (r: &Vec<Continuity>)
        ensures
            r@ == self@.continuities,
    {
        &self.continuities
    }

    /// Whether the contour is open.
    pub fn is_open(&self) -> (r: bool)
        ensures
            r == self@.open,
    {
        self.open
    }

    /// The continuity at the join where a segment that ends with `prev` is
    /// followed by one that starts with `curr`, from the last handle before
    /// the join and the first one after it. The two segments must meet.
    pub fn calc_smooth_continuity(prev: &[CurvePoint], curr: &[CurvePoint]) -> (r: Continuity)
        requires
            prev@.len() >= 2,
            curr@.len() >= 2,
            prev@[prev@.len() - 1].position == curr@[0].position,
        ensures
            r == classify(
                prev@[prev@.len() - 2].position,
                prev@[prev@.len() - 1].position,
                curr@[1].position,
            ),
            r.wf(),
    {
        let n: usize = prev.len();
        classify_points(prev[n - 2].position, prev[n - 1].position, curr[1].position)
    }

    /// The continuity at the join of `prev` and the segment `next` that
    /// follows it. Where `next` asks for a smooth join, the two must meet.
    pub fn classify_continuity(prev: &Bezier, next: &Bezier) -> (r: Continuity)
        requires
            is_segment(prev@),
            is_segment(next@),
            next@.smooth ==> meets(prev@, next@),
        ensures
            r == join_continuity(prev@, next@),
            r.wf(),
    {
        if next.smooth() {
            Self::calc_smooth_continuity(prev.points().as_slice(), next.points().as_slice())
        } else {
            Continuity::Positional
        }
    }

    /// Appends a segment, and classifies the join with the segment before it.
    ///
    /// A segment without points is passed over. A segment is rejected where
    /// the contour is closed, and where it does not start on the point on
    /// which the contour ends.
    pub fn push_curve(&mut self, curve: Bezier) -> (r: Result<(), EditError>)
        requires
            old(self)@.wf(),
            curve.wf(),
        ensures
            final(self)@.wf(),
            match old(self)@.pushed(curve@) {
                Ok(v) => r is Ok && final(self)@ == v,
                Err(e) => r == Err::<(), EditError>(e) && final(self)@ == old(self)@,
            },
    {
        if curve.is_empty() {
            return Ok(());
        }
        if !self.open {
            return Err(EditError::ContourClosed);
        }
        let n: usize = self.curves.len();
        if n == 0 {
            self.curves.push(curve);
            proof {
                assert(self@.curves =~= old(self)@.curves.push(curve@));
                assert forall|c: int| 0 <= c < self@.curves.len() implies is_segment(
                    #[trigger] self@.curves[c],
                ) by {}
            }
            return Ok(());
        }
        let last: CurvePoint = self.curves[n - 1].point(self.curves[n - 1].len() - 1);
        proof {
            assert(is_segment(old(self)@.curves[n - 1]));
        }
        if last.position != curve.point(0).position {
            return Err(EditError::JoinMismatch);
        }
        let continuity: Continuity = Self::classify_continuity(&self.curves[n - 1], &curve);
        self.continuities.push(continuity);
        self.curves.push(curve);
        proof {
            let v = old(self)@.pushed(curve@).unwrap();
            assert(self@.curves =~= v.curves);
            assert forall|c: int| 0 <= c < self@.curves.len() implies is_segment(
                #[trigger] self@.curves[c],
            ) by {
                if c < n {
                    assert(is_segment(old(self)@.curves[c]));
                }
            }
            assert forall|j: int| 0 <= j < self@.joins() implies #[trigger] self@.joined_at(j) by {
                if j < n - 1 {
                    assert(old(self)@.joined_at(j));
                }
            }
            assert forall|j: int| 0 <= j < self@.continuities.len() implies (
            #[trigger] self@.continuities[j]).wf() by {
                if j < n - 1 {
                    assert(old(self)@.continuities[j].wf());
                }
            }
        }
        Ok(())
    }

    /// Closes the contour, and classifies the join of the last segment with
    /// the first.
    ///
    /// A closed contour stays as it is. Closing is rejected where the last
    /// segment does not end on the point on which the first one starts.
    pub fn close(&mut self) -> (r: Result<(), EditError>)
        requires
            old(self)@.wf(),
        ensures
            final(self)@.wf(),
            match old(self)@.closed() {
                Ok(v) => r is Ok && final(self)@ == v,
                Err(e) => r == Err::<(), EditError>(e) && final(self)@ == old(self)@,
            },
    {
        if !self.open {
            return Ok(());
        }
        let n: usize = self.curves.len();
        if n == 0 {
            self.open = false;
            return Ok(());
        }
        proof {
            assert(is_segment(old(self)@.curves[n - 1]));
            assert(is_segment(old(self)@.curves[0]));
        }
        let last: CurvePoint = self.curves[n - 1].point(self.curves[n - 1].len() - 1);
        if last.position != self.curves[0].point(0).position {
            return Err(EditError::JoinMismatch);
        }
        let continuity: Continuity = Self::classify_continuity(&self.curves[n - 1], &self.curves[0]);
        self.continuities.push(continuity);
        self.open = false;
        proof {
            assert forall|j: int| 0 <= j < self@.joins() implies #[trigger] self@.joined_at(j) by {
                if j < n - 1 {
                    assert(old(self)@.joined_at(j));
                }
            }
            assert forall|j: int| 0 <= j < self@.continuities.len() implies (
            #[trigger] self@.continuities[j]).wf() by {
                if j < n - 1 {
                    assert(old(self)@.continuities[j].wf());
                }
            }
        }
        Ok(())
    }

    /// Reverses the direction of the contour: the segments come in reverse
    /// order, each turned round, and the continuities in reverse order.
    pub fn reverse_direction(&mut self)
        requires
            old(self)@.wf(),
        ensures
            final(self)@ == old(self)@.reversed(),
            final(self)@.wf(),
    {
        let n: usize = self.curves.len();
        let mut curves: Vec<Bezier> = Vec::new();
        let mut i: usize = 0;
        while i < n
            invariant
                n == self.curves@.len(),
                i <= n,
                curves@.len() == i,
                forall|d: int|
                    0 <= d < i ==> (#[trigger] curves@[d])@ == flipped(self.curves@[n - 1 - d]@),
            decreases n - i,
        {
            let mut curve: Bezier = self.curves[n - 1 - i].clone();
            curve.reverse();
            curves.push(curve);
            i += 1;
        }
        let m: usize = self.continuities.len();
        let mut continuities: Vec<Continuity> = Vec::new();
        let mut j: usize = 0;
        while j < m
            invariant
                m == self.continuities@.len(),
                j <= m,
                continuities@.len() == j,
                forall|d: int| 0 <= d < j ==> #[trigger] continuities@[d] == self.continuities@[m - 1 - d],
            decreases m - j,
        {
            continuities.push(self.continuities[m - 1 - j]);
            j += 1;
        }
        proof {
            assert(continuities@ =~= old(self)@.continuities.reverse());
            assert(curve_views(curves@) =~= old(self)@.reversed().curves);
            lemma_reversed_wf(old(self)@);
        }
        self.curves = curves;
        self.continuities = continuities;
    }

    /// Replaces every quadratic curve by the cubic curve that runs as it
    /// does. The other segments, the continuities and the joins stay.
    pub fn into_cubic(&mut self)
        requires
            old(self)@.wf(),
        ensures
            final(self)@.wf(),
            final(self)@.open == old(self)@.open,
            final(self)@.continuities == old(self)@.continuities,
            final(self)@.curves.len() == old(self)@.curves.len(),
            forall|c: int|
                0 <= c < old(self)@.curves.len() ==> cubic_for(
                    old(self)@.curves[c],
                    #[trigger] final(self)@.curves[c],
                ),
    {
        let n: usize = self.curves.len();
        let mut curves: Vec<Bezier> = Vec::new();
        let mut c: usize = 0;
        while c < n
            invariant
                n == self.curves@.len(),
                c <= n,
                curves@.len() == c,
                forall|d: int| 0 <= d < c ==> cubic_for(self.curves@[d]@, (#[trigger] curves@[d])@),
            decreases n - c,
        {
            if self.curves[c].len() == 3 {
                curves.push(self.curves[c].to_cubic());
            } else {
                curves.push(self.curves[c].clone());
            }
            c += 1;
        }
        proof {
            let v = old(self)@;
            let w = ContourView {
                open: v.open,
                curves: curve_views(curves@),
                continuities: v.continuities,
            };
            assert forall|d: int| 0 <= d < n implies cubic_for(v.curves[d], #[trigger] w.curves[d]) by {
                assert(cubic_for(self.curves@[d]@, curves@[d]@));
            }
            assert forall|d: int| 0 <= d < n implies is_segment(#[trigger] w.curves[d])
                && w.curves[d].points[0].position == v.curves[d].points[0].position
                && w.curves[d].points[w.curves[d].points.len() - 1].position
                == v.curves[d].points[v.curves[d].points.len() - 1].position by {
                assert(cubic_for(v.curves[d], w.curves[d]));
                assert(is_segment(v.curves[d]));
                if v.curves[d].points.len() == 3 {
                    let ps = positions(w.curves[d].points);
                    assert(ps.len() == 4);
                    assert(ps[0] == w.curves[d].points[0].position);
                    assert(ps[3] == w.curves[d].points[3].position);
                }
            }
            assert forall|j: int| 0 <= j < w.joins() implies #[trigger] w.joined_at(j) by {
                assert(v.joined_at(j));
                assert(is_segment(w.curves[j]));
                assert(is_segment(w.curves[after(n as int, j)]));
            }
        }
        self.curves = curves;
    }

    /// Moves the points of this contour that `idxs_slice` names by the
    /// matrix `m`, takes along the points that have to follow, and returns
    /// every point that was moved with the place where it now stands.
    ///
    /// This contour is the `contour_index`-th of its glyph; names of points
    /// of other contours, and names that no point bears, are passed over.
    /// An end of a segment takes along the handle next to it and the end and
    /// handle across the join. A handle sets the handle that faces it across
    /// the join: to its mirror image where the continuity is a velocity, to
    /// the point on the far side at the ratio of the join where it is a
    /// tangent. No point is moved twice. Where a point would leave the
    /// lattice, nothing is moved at all.
    pub fn transform_points(
        &mut self,
        contour_index: usize,
        idxs_slice: &[GlyphPointIndex],
        m: Matrix,
    ) -> (r: Result<Vec<(GlyphPointIndex, Point)>, EditError>)
        requires
            old(self)@.wf(),
        ensures
            final(self)@.wf(),
            match transformed(old(self)@, contour_index, idxs_slice@, m) {
                Some(s) => r matches Ok(log) && log@ == s.log && final(self)@ == (ContourView {
                    curves: s.curves,
                    ..old(self)@
                }),
                None => r matches Err(e) && e == EditError::OutOfRange && final(self)@ == old(
                    self,
                )@,
            },
    {
        let named: Vec<Vec<bool>> = named_points(&self.curves, contour_index, idxs_slice);
        let done: Vec<Vec<bool>> = copied_marks(&named);
        let mut pass: Pass = Pass::new(copied_curves(&self.curves), done);
        let setting = Setting {
            contour_index,
            open: self.open,
            continuities: &self.continuities,
            matrix: m,
        };
        proof {
            let v = old(self)@;
            assert forall|c: int| 0 <= c < pass@.curves.len() implies is_segment(
                #[trigger] pass@.curves[c],
            ) by {
                assert(is_segment(v.curves[c]));
            }
            assert forall|j: int| 0 <= j < setting@.continuities.len() implies (
            #[trigger] setting@.continuities[j]).wf() by {
                assert(v.continuities[j].wf());
            }
        }
        if pass.sweep(&setting, &named) {
            proof {
                lemma_transformed_keeps_joins(old(self)@, contour_index, idxs_slice@, m);
            }
            let (curves, log) = pass.finish();
            self.curves = curves;
            Ok(log)
        } else {
            Err(EditError::OutOfRange)
        }
    }
}

impl Clone for Contour {
    fn clone(&self) -> (r: Self)
        ensures
            r@ == self@,
    {
        let continuities: Vec<Continuity> = self.continuities.clone();
        assert(continuities@ =~= self.continuities@);
        Contour {
            open: self.open,
            curves: crate::propagation::copied_curves(&self.curves),
            continuities,
        }
    }
}

} // verus!
