//! What there is to draw of a glyph: the path of its contours, and the marks
//! that show the control points.
//!
//! The path is made of straight lines and cubic curves only; a quadratic
//! curve is drawn as the cubic curve that runs as it does.

use vstd::prelude::*;
use crate::contours::is_segment;
use crate::contours::Contour;
use crate::contours::ContourView;
use crate::curves::elevated;
use crate::curves::elevated_handle;
use crate::curves::Bezier;
use crate::curves::BezierView;
use crate::glyphs::Glyph;
use crate::points::Point;
use crate::propagation::curve_views;

verus! {

/// One step of a path.
#[derive(Clone, Copy, Debug, PartialEq, Eq, Structural, Hash)]
pub enum PathCommand {
    /// Lift the pen and set it down on the point.
    MoveTo(Point),
    /// Draw a straight line to the point.
    LineTo(Point),
    /// Draw a cubic curve with the two handles to the point that comes last.
    CurveTo(Point, Point, Point),
}

/// One mark of the overlay that shows the control points.
#[derive(Clone, Copy, Debug, PartialEq, Eq, Structural, Hash)]
pub enum HandleMark {
    /// A square on a point of the curve.
    OnCurve(Point),
    /// A circle on a handle.
    Handle(Point),
    /// A line from a handle to the end that it belongs to.
    Connection(Point, Point),
}

/// The step that draws the segment `b` from its first point.
pub open spec fn segment_command(b: BezierView) -> PathCommand {
    if b.points.len() == 2 {
        PathCommand::LineTo(b.points[1].position)
    } else if b.points.len() == 3 {
        PathCommand::CurveTo(
            elevated(b.points[0].position, b.points[1].position),
            elevated(b.points[2].position, b.points[1].position),
            b.points[2].position,
        )
    } else {
        PathCommand::CurveTo(b.points[1].position, b.points[2].position, b.points[3].position)
    }
}

/// The path of a contour: a move to the point where it starts, and one step
/// for each segment. A contour without segments has no path.
pub open spec fn contour_path(v: ContourView) -> Seq<PathCommand> {
    let n = v.curves.len();
    if n == 0 {
        Seq::empty()
    } else {
        Seq::new(
            n + 1,
            |k: int|
                if k == 0 {
                    if v.open {
                        PathCommand::MoveTo(v.curves[0].points[0].position)
                    } else {
                        PathCommand::MoveTo(
                            v.curves[n - 1].points[v.curves[n - 1].points.len() - 1].position,
                        )
                    }
                } else {
                    segment_command(v.curves[k - 1])
                },
        )
    }
}

/// The paths of the first `upto` contours, one after the other.
pub open spec fn paths(contours: Seq<ContourView>, upto: int) -> Seq<PathCommand>
    decreases upto,
{
    if upto <= 0 {
        Seq::empty()
    } else {
        paths(contours, upto - 1) + contour_path(contours[upto - 1])
    }
}

/// The path that shows one segment by itself.
pub open spec fn segment_path(b: BezierView) -> Seq<PathCommand> {
    seq![PathCommand::MoveTo(b.points[0].position), segment_command(b)]
}

/// The marks of a segment: the lines from the handles to their ends, the
/// handles, and the two ends.
pub open spec fn segment_marks(b: BezierView) -> Seq<HandleMark> {
    let p = b.points;
    if p.len() == 2 {
        seq![HandleMark::OnCurve(p[0].position), HandleMark::OnCurve(p[1].position)]
    } else if p.len() == 3 {
        seq![
            HandleMark::Connection(p[1].position, p[0].position),
            HandleMark::Connection(p[1].position, p[2].position),
            HandleMark::Handle(p[1].position),
            HandleMark::OnCurve(p[0].position),
            HandleMark::OnCurve(p[2].position),
        ]
    } else {
        seq![
            HandleMark::Connection(p[1].position, p[0].position),
            HandleMark::Connection(p[2].position, p[3].position),
            HandleMark::Handle(p[1].position),
            HandleMark::Handle(p[2].position),
            HandleMark::OnCurve(p[0].position),
            HandleMark::OnCurve(p[3].position),
        ]
    }
}

/// The marks of the first `upto` of `curves`, one segment after the other.
pub open spec fn curve_marks(curves: Seq<BezierView>, upto: int) -> Seq<HandleMark>
    decreases upto,
{
    if upto <= 0 {
        Seq::empty()
    } else {
        curve_marks(curves, upto - 1) + segment_marks(curves[upto - 1])
    }
}

/// The marks of the first `upto` contours, one contour after the other.
pub open spec fn marks(contours: Seq<ContourView>, upto: int) -> Seq<HandleMark>
    decreases upto,
{
    if upto <= 0 {
        Seq::empty()
    } else {
        marks(contours, upto - 1) + curve_marks(
            contours[upto - 1].curves,
            contours[upto - 1].curves.len() as int,
        )
    }
}

/// The step that draws `curve` from its first point.
fn command_for(curve: &Bezier) -> (r: PathCommand)
    requires
        is_segment(curve@),
    ensures
        r == segment_command(curve@),
{
    let n: usize = curve.len();
    if n == 2 {
        PathCommand::LineTo(curve.point(1).position)
    } else if n == 3 {
        let a: Point = curve.point(0).position;
        let b: Point = curve.point(1).position;
        let c: Point = curve.point(2).position;
        PathCommand::CurveTo(elevated_handle(a, b), elevated_handle(c, b), c)
    } else {
        PathCommand::CurveTo(
            curve.point(1).position,
            curve.point(2).position,
            curve.point(3).position,
        )
    }
}

/// Appends the marks of `curve` to `out`.
fn push_marks(out: &mut Vec<HandleMark>, curve: &Bezier)
    requires
        is_segment(curve@),
    ensures
        final(out)@ == old(out)@ + segment_marks(curve@),
{
    let n: usize = curve.len();
    let first: Point = curve.point(0).position;
    let last: Point = curve.point(n - 1).position;
    if n == 2 {
        out.push(HandleMark::OnCurve(first));
        out.push(HandleMark::OnCurve(last));
    } else if n == 3 {
        let handle: Point = curve.point(1).position;
        out.push(HandleMark::Connection(handle, first));
        out.push(HandleMark::Connection(handle, last));
        out.push(HandleMark::Handle(handle));
        out.push(HandleMark::OnCurve(first));
        out.push(HandleMark::OnCurve(last));
    } else {
        let h1: Point = curve.point(1).position;
        let h2: Point = curve.point(2).position;
        out.push(HandleMark::Connection(h1, first));
        out.push(HandleMark::Connection(h2, last));
        out.push(HandleMark::Handle(h1));
        out.push(HandleMark::Handle(h2));
        out.push(HandleMark::OnCurve(first));
        out.push(HandleMark::OnCurve(last));
    }
    assert(out@ =~= old(out)@ + segment_marks(curve@));
}

impl Contour {
    /// The path of the contour.
    pub fn path(&self) -> (r: Vec<PathCommand>)
        requires
            self@.wf(),
        ensures
            r@ == contour_path(self@),
    {
        let curves: &Vec<Bezier> = self.curves();
        let n: usize = curves.len();
        let mut out: Vec<PathCommand> = Vec::new();
        if n == 0 {
            assert(out@ =~= contour_path(self@));
            return out;
        }
        proof {
            assert(is_segment(self@.curves[0]));
            assert(is_segment(self@.curves[n - 1]));
            assert(curves@[0]@ == self@.curves[0]);
            assert(curves@[n - 1]@ == self@.curves[n - 1]);
        }
        if self.is_open() {
            out.push(PathCommand::MoveTo(curves[0].point(0).position));
        } else {
            out.push(PathCommand::MoveTo(curves[n - 1].point(curves[n - 1].len() - 1).position));
        }
        let mut c: usize = 0;
        while c < n
            invariant
                c <= n,
                n == curves@.len(),
                n > 0,
                self@.wf(),
                curve_views(curves@) == self@.curves,
                out@.len() == c + 1,
                forall|k: int| 0 <= k <= c ==> #[trigger] out@[k] == contour_path(self@)[k],
            decreases n - c,
        {
            proof {
                assert(is_segment(self@.curves[c as int]));
                assert(curves@[c as int]@ == self@.curves[c as int]);
            }
            out.push(command_for(&curves[c]));
            c += 1;
        }
        assert(out@ =~= contour_path(self@));
        out
    }

    /// The marks that show the control points of the contour.
    pub fn handle_marks(&self) -> (r: Vec<HandleMark>)
        requires
            self@.wf(),
        ensures
            r@ == curve_marks(self@.curves, self@.curves.len() as int),
    {
        let curves: &Vec<Bezier> = self.curves();
        let n: usize = curves.len();
        let mut out: Vec<HandleMark> = Vec::new();
        let mut c: usize = 0;
        while c < n
            invariant
                c <= n,
                n == curves@.len(),
                self@.wf(),
                curve_views(curves@) == self@.curves,
                out@ == curve_marks(self@.curves, c as int),
            decreases n - c,
        {
            proof {
                assert(is_segment(self@.curves[c as int]));
                assert(curves@[c as int]@ == self@.curves[c as int]);
            }
            push_marks(&mut out, &curves[c]);
            c += 1;
        }
        out
    }
}

impl Glyph {
    /// The path of the glyph: the paths of its contours, one after the
    /// other.
    pub fn outline(&self) -> (r: Vec<PathCommand>)
        requires
            self@.wf(),
        ensures
            r@ == paths(self@.contours, self@.contours.len() as int),
    {
        let mut out: Vec<PathCommand> = Vec::new();
        let mut c: usize = 0;
        while c < self.contours.len()
            invariant
                c <= self.contours@.len(),
                self@.wf(),
                out@ == paths(self@.contours, c as int),
            decreases self.contours@.len() - c,
        {
            assert(self@.contours[c as int].wf());
            let mut path: Vec<PathCommand> = self.contours[c].path();
            out.append(&mut path);
            c += 1;
        }
        out
    }

    /// The path that shows the segment `curve_index` of the contour
    /// `contour_index` by itself, or `None` where the glyph has no such
    /// segment.
    pub fn highlight(&self, contour_index: usize, curve_index: usize) -> (r: Option<
        Vec<PathCommand>,
    >)
        requires
            self@.wf(),
        ensures
            self@.has_curve(contour_index as int, curve_index as int) <==> r is Some,
            r matches Some(path) ==> path@ == segment_path(
                self@.contours[contour_index as int].curves[curve_index as int],
            ),
    {
        if contour_index >= self.contours.len() {
            return None;
        }
        let curves: &Vec<Bezier> = self.contours[contour_index].curves();
        assert(curve_views(curves@) == self@.contours[contour_index as int].curves);
        if curve_index >= curves.len() {
            return None;
        }
        proof {
            assert(self@.contours[contour_index as int].wf());
            assert(is_segment(self@.contours[contour_index as int].curves[curve_index as int]));
            assert(curves@[curve_index as int]@
                == self@.contours[contour_index as int].curves[curve_index as int]);
        }
        let curve: &Bezier = &curves[curve_index];
        let mut out: Vec<PathCommand> = Vec::new();
        out.push(PathCommand::MoveTo(curve.point(0).position));
        out.push(command_for(curve));
        assert(out@ =~= segment_path(curve@));
        Some(out)
    }

    /// The marks that show the control points of the glyph.
    pub fn handle_marks(&self) -> (r: Vec<HandleMark>)
        requires
            self@.wf(),
        ensures
            r@ == marks(self@.contours, self@.contours.len() as int),
    {
        let mut out: Vec<HandleMark> = Vec::new();
        let mut c: usize = 0;
        while c < self.contours.len()
            invariant
                c <= self.contours@.len(),
                self@.wf(),
                out@ == marks(self@.contours, c as int),
            decreases self.contours@.len() - c,
        {
            assert(self@.contours[c as int].wf());
            let mut more: Vec<HandleMark> = self.contours[c].handle_marks();
            out.append(&mut more);
            c += 1;
        }
        out
    }
}

} // verus!
