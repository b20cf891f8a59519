//! The tools that draw a shape: what each makes of the presses and moves of
//! the pointer. The tool decides; showing the preview, and putting the
//! finished contour into the glyph, is left to the caller.

use vstd::prelude::*;
use crate::canvas::UnitPoint;
use crate::contours::is_segment;
use crate::contours::lemma_ringed_meeting;
use crate::contours::meets;
use crate::contours::ringed;
use crate::contours::Contour;
use crate::contours::ContourView;
use crate::curves::positions;
use crate::curves::Bezier;
use crate::curves::BezierView;
use crate::errors::EditError;
use crate::points::dist2;
use crate::points::distance_between_two_points;
use crate::points::is_floor_sqrt;
use crate::points::Point;
use crate::propagation::curve_views;
use crate::shapes::circle_fits;
use crate::shapes::circle_point;
use crate::shapes::lemma_quarters_meet;
use crate::shapes::make_circle_bezier_curves;
use crate::shapes::make_quadrilateral_bezier_curves;
use crate::shapes::quarter_positions;

verus! {

/// A button of the pointer.
#[derive(Clone, Copy, Debug, PartialEq, Eq, Structural, Hash)]
pub enum MouseButton {
    Primary,
    Middle,
    Secondary,
    Other,
}

/// What a shape tool made of an event.
#[derive(Debug)]
pub enum ShapeStep {
    /// The event is none of the tool's.
    Ignored,
    /// The first corner, or the centre, was set.
    Started,
    /// The preview follows the pointer.
    Resized,
    /// The shape was given up.
    Cancelled,
    /// The shape would leave the lattice; the tool stays as it is.
    OutOfRange,
    /// The shape is done: the closed contour to add to the glyph.
    Finished(Contour),
}

/// The tool that draws a quadrilateral from one corner to the opposite one.
#[derive(Debug)]
pub struct QuadrilateralTool {
    active: bool,
    upper_left: Option<UnitPoint>,
    curves: [Bezier; 4],
}

/// The tool that draws a circle from its centre to a point on it.
#[derive(Debug)]
pub struct EllipseTool {
    active: bool,
    center: Option<UnitPoint>,
    curves: [Bezier; 4],
}

/// What a shape tool is, as a value: whether it is in use, the point that
/// the shape starts from, and the four segments of the preview.
pub struct ShapeToolView {
    pub active: bool,
    pub anchor: Option<UnitPoint>,
    pub curves: Seq<BezierView>,
}

/// The views of four segments.
pub open spec fn four_views(curves: [Bezier; 4]) -> Seq<BezierView> {
    Seq::new(4, |k: int| curves[k]@)
}

/// The four sides of the rectangle with the opposite corners `a` and `c`,
/// its sides along the axes: from `a` along the first axis, and round.
pub open spec fn rectangle_sides(a: Point, c: Point) -> Seq<Seq<Point>> {
    let b = Point { x: c.x, y: a.y };
    let d = Point { x: a.x, y: c.y };
    seq![seq![a, b], seq![b, c], seq![c, d], seq![d, a]]
}

/// The four quarters of the circle about `center` through `through`: its
/// radius is their distance, rounded down to the lattice.
pub open spec fn circle_quarters(center: Point, radius: int) -> Seq<Seq<Point>> {
    Seq::new(4, |i: int| quarter_positions(center, radius, i))
}

/// Whether the four segments `curves` run through `sides`, with the smooth
/// flags of `old`.
pub open spec fn laid_out(curves: Seq<BezierView>, old: Seq<BezierView>, sides: Seq<Seq<Point>>) -> bool {
    &&& curves.len() == 4
    &&& forall|k: int|
        0 <= k < 4 ==> positions((#[trigger] curves[k]).points) == sides[k] && curves[k].smooth
            == old[k].smooth
}

/// Whether the four segments `curves` have no points, and the smooth flags
/// of `old`.
pub open spec fn cleared(curves: Seq<BezierView>, old: Seq<BezierView>) -> bool {
    &&& curves.len() == 4
    &&& forall|k: int|
        0 <= k < 4 ==> (#[trigger] curves[k]).points.len() == 0 && curves[k].smooth
            == old[k].smooth
}

/// Whether `contour` is the closed contour of four segments that run through
/// `sides`, with the smooth flags of `old`.
pub open spec fn ring_of(contour: ContourView, old: Seq<BezierView>, sides: Seq<Seq<Point>>) -> bool {
    &&& contour.wf()
    &&& laid_out(contour.curves, old, sides)
    &&& ringed(contour.curves) == Ok::<ContourView, EditError>(contour)
}

/// The radius of the circle about `center` through `through`.
pub open spec fn is_radius(radius: int, center: Point, through: Point) -> bool {
    is_floor_sqrt(radius, dist2(center, through))
}

/// A copy of four segments as a row.
fn as_row(curves: &[Bezier; 4]) -> (r: Vec<Bezier>)
    ensures
        curve_views(r@) == four_views(*curves),
        r@.len() == 4,
        forall|k: int| 0 <= k < 4 ==> (#[trigger] r@[k])@ == curves[k]@,
{
    let mut out: Vec<Bezier> = Vec::new();
    let mut k: usize = 0;
    while k < 4
        invariant
            k <= 4,
            out@.len() == k,
            forall|j: int| 0 <= j < k ==> (#[trigger] out@[j])@ == curves[j]@,
        decreases 4 - k,
    {
        out.push(curves[k].clone());
        k += 1;
    }
    assert(curve_views(out@) =~= four_views(*curves));
    out
}

/// Takes the points out of four segments.
fn clear_curves(curves: &mut [Bezier; 4])
    ensures
        cleared(four_views(*final(curves)), four_views(*old(curves))),
        forall|k: int| 0 <= k < 4 ==> (#[trigger] final(curves)[k]).wf(),
{
    let mut k: usize = 0;
    while k < 4
        invariant
            k <= 4,
            forall|j: int| k <= j < 4 ==> #[trigger] curves[j] == old(curves)[j],
            forall|j: int|
                0 <= j < k ==> (#[trigger] curves[j]).wf() && curves[j]@.points.len() == 0
                    && curves[j]@.smooth == old(curves)[j]@.smooth,
        decreases 4 - k,
    {
        let mut curve: Bezier = curves[k].clone();
        let none: Vec<Point> = Vec::new();
        let _laid = curve.reset(&none);
        assert(positions(curve@.points).len() == 0);
        curves[k] = curve;
        k += 1;
    }
}

/// Four new segments without points that ask for smooth joins.
fn smooth_curves() -> (r: [Bezier; 4])
    ensures
        forall|k: int|
            0 <= k < 4 ==> (#[trigger] r[k]).wf() && r[k]@.points.len() == 0 && r[k]@.smooth,
{
    let mut a: Bezier = Bezier::empty();
    let mut b: Bezier = Bezier::empty();
    let mut c: Bezier = Bezier::empty();
    let mut d: Bezier = Bezier::empty();
    a.set_smooth(true);
    b.set_smooth(true);
    c.set_smooth(true);
    d.set_smooth(true);
    [a, b, c, d]
}

/// The sides of a rectangle go round.
proof fn lemma_rectangle_rings(curves: Seq<BezierView>, old: Seq<BezierView>, a: Point, c: Point)
    requires
        laid_out(curves, old, rectangle_sides(a, c)),
    ensures
        ringed(curves) is Ok,
        !ringed(curves).unwrap().open,
        ringed(curves).unwrap().curves == curves,
{
    let sides = rectangle_sides(a, c);
    assert forall|k: int| 0 <= k < 4 implies is_segment(#[trigger] curves[k])
        && curves[k].points.len() == 2 && curves[k].points[0].position == sides[k][0]
        && curves[k].points[1].position == sides[k][1] by {
        let p = positions(curves[k].points);
        assert(p == sides[k]);
        assert(p.len() == 2);
        assert(p[0] == curves[k].points[0].position);
        assert(p[1] == curves[k].points[1].position);
    }
    assert(is_segment(curves[0]) && is_segment(curves[1]) && is_segment(curves[2]) && is_segment(
        curves[3],
    ));
    let b = Point { x: c.x, y: a.y };
    let d = Point { x: a.x, y: c.y };
    assert(sides[0] == seq![a, b] && sides[1] == seq![b, c] && sides[2] == seq![c, d] && sides[3]
        == seq![d, a]);
    assert(curves[0].points.len() == 2 && curves[1].points.len() == 2 && curves[2].points.len()
        == 2 && curves[3].points.len() == 2);
    assert(curves[0].points[1].position == sides[0][1]);
    assert(curves[1].points[0].position == sides[1][0]);
    assert(curves[1].points[1].position == sides[1][1]);
    assert(curves[2].points[0].position == sides[2][0]);
    assert(curves[2].points[1].position == sides[2][1]);
    assert(curves[3].points[0].position == sides[3][0]);
    assert(curves[3].points[1].position == sides[3][1]);
    assert(curves[0].points[0].position == sides[0][0]);
    assert(meets(curves[0], curves[1]));
    assert(meets(curves[1], curves[2]));
    assert(meets(curves[2], curves[3]));
    assert(meets(curves[3], curves[0]));
    assert forall|k: int| 0 <= k < 3 implies meets(#[trigger] curves[k], curves[k + 1]) by {
        if k == 0 {
        } else if k == 1 {
        } else {
        }
    }
    lemma_ringed_meeting(curves);
}

/// The quarters of a circle go round.
proof fn lemma_circle_rings(curves: Seq<BezierView>, old: Seq<BezierView>, center: Point, radius: int)
    requires
        laid_out(curves, old, circle_quarters(center, radius)),
        circle_fits(center, radius),
    ensures
        ringed(curves) is Ok,
        !ringed(curves).unwrap().open,
        ringed(curves).unwrap().curves == curves,
{
    let sides = circle_quarters(center, radius);
    assert forall|k: int| 0 <= k < 4 implies is_segment(#[trigger] curves[k])
        && curves[k].points.len() == 4
        && curves[k].points[0].position == circle_point(center, radius, k, 0).unwrap()
        && curves[k].points[3].position == circle_point(center, radius, k, 3).unwrap() by {
        let p = positions(curves[k].points);
        assert(p == sides[k]);
        assert(p.len() == 4);
        assert(p[0] == curves[k].points[0].position);
        assert(p[3] == curves[k].points[3].position);
    }
    lemma_quarters_meet(center, radius, 0);
    lemma_quarters_meet(center, radius, 1);
    lemma_quarters_meet(center, radius, 2);
    lemma_quarters_meet(center, radius, 3);
    assert(is_segment(curves[0]) && is_segment(curves[1]) && is_segment(curves[2]) && is_segment(
        curves[3],
    ));
    assert(curves[0].points.len() == 4 && curves[1].points.len() == 4 && curves[2].points.len()
        == 4 && curves[3].points.len() == 4);
    assert(curves[0].points[3].position == circle_point(center, radius, 0, 3).unwrap());
    assert(curves[1].points[0].position == circle_point(center, radius, 1, 0).unwrap());
    assert(curves[1].points[3].position == circle_point(center, radius, 1, 3).unwrap());
    assert(curves[2].points[0].position == circle_point(center, radius, 2, 0).unwrap());
    assert(curves[2].points[3].position == circle_point(center, radius, 2, 3).unwrap());
    assert(curves[3].points[0].position == circle_point(center, radius, 3, 0).unwrap());
    assert(curves[3].points[3].position == circle_point(center, radius, 3, 3).unwrap());
    assert(curves[0].points[0].position == circle_point(center, radius, 0, 0).unwrap());
    assert(meets(curves[0], curves[1]));
    assert(meets(curves[1], curves[2]));
    assert(meets(curves[2], curves[3]));
    assert(meets(curves[3], curves[0]));
    assert forall|k: int| 0 <= k < 3 implies meets(#[trigger] curves[k], curves[k + 1]) by {
        if k == 0 {
        } else if k == 1 {
        } else {
        }
    }
    lemma_ringed_meeting(curves);
}

/// A circle without radius lies on the lattice.
proof fn lemma_point_circle_fits(center: Point)
    ensures
        circle_fits(center, 0),
{
    assert forall|i: int, k: int| 0 <= i < 4 && 0 <= k < 4 implies #[trigger] circle_point(
        center,
        0,
        i,
        k,
    ) is Some by {
        crate::shapes::lemma_circle_without_radius(center, i, k);
    }
}

impl View for QuadrilateralTool {
    type V = ShapeToolView;

    closed spec fn view(&self) -> ShapeToolView {
        ShapeToolView {
            active: self.active,
            anchor: self.upper_left,
            curves: four_views(self.curves),
        }
    }
}

impl View for EllipseTool {
    type V = ShapeToolView;

    closed spec fn view(&self) -> ShapeToolView {
        ShapeToolView { active: self.active, anchor: self.center, curves: four_views(self.curves) }
    }
}

impl ShapeToolView {
    /// Whether the preview is made of four segments of admissible shape.
    pub open spec fn wf(self) -> bool {
        &&& self.curves.len() == 4
        &&& forall|k: int|
            0 <= k < 4 ==> crate::curves::valid_point_count((#[trigger] self.curves[k]).points.len())
    }
}

impl QuadrilateralTool {
    /// The tool at rest: not in use, without a corner, its segments without
    /// points and asking for smooth joins.
    pub fn new() -> (r: QuadrilateralTool)
        ensures
            r@.wf(),
            !r@.active,
            r@.anchor is None,
            forall|k: int| 0 <= k < 4 ==> (#[trigger] r@.curves[k]).points.len() == 0 && r@.curves[k].smooth,
    {
        QuadrilateralTool { active: false, upper_left: None, curves: smooth_curves() }
    }

    /// Whether the tool is in use.
    pub fn is_active(&self) -> (r: bool)
        ensures
            r == self@.active,
    {
        self.active
    }

    /// The corner that the quadrilateral starts from, once it is set.
    pub fn upper_left(&self) -> (r: Option<UnitPoint>)
        ensures
            r == self@.anchor,
    {
        self.upper_left
    }

    /// The four segments of the preview.
    pub fn curves(&self) -> (r: &[Bezier; 4])
        ensures
            four_views(*r) == self@.curves,
    {
        &self.curves
    }

    /// Takes the tool into use.
    pub fn on_activate(&mut self)
        ensures
            final(self)@ == (ShapeToolView { active: true, ..old(self)@ }),
    {
        self.active = true;
    }

    /// Puts the tool away, and gives up a shape that was begun.
    pub fn on_deactivate(&mut self)
        ensures
            final(self)@ == (ShapeToolView { active: false, anchor: None, ..old(self)@ }),
    {
        self.upper_left = None;
        self.active = false;
    }

    /// A button was pressed at `position`.
    ///
    /// A tool that is not in use passes the event over. Without a corner,
    /// the primary button sets the corner. With a corner, the primary button
    /// finishes the rectangle from the corner to `position` and puts the tool
    /// away; the secondary button gives the shape up and puts the tool away.
    /// Every other press is passed over.
    pub fn on_button_press_event(&mut self, button: MouseButton, position: UnitPoint) -> (r:
        ShapeStep)
        requires
            old(self)@.wf(),
        ensures
            final(self)@.wf(),
            !old(self)@.active ==> r is Ignored && final(self)@ == old(self)@,
            old(self)@.active && old(self)@.anchor is None && button == MouseButton::Primary ==> {
                &&& r is Started
                &&& final(self)@.active
                &&& final(self)@.anchor == Some(position)
                &&& laid_out(
                    final(self)@.curves,
                    old(self)@.curves,
                    rectangle_sides(position.0, position.0),
                )
            },
            old(self)@.active && old(self)@.anchor is None && button != MouseButton::Primary
                ==> r is Ignored && final(self)@ == old(self)@,
            old(self)@.active && old(self)@.anchor is Some && button == MouseButton::Primary ==> {
                &&& r matches ShapeStep::Finished(contour) && ring_of(
                    contour@,
                    old(self)@.curves,
                    rectangle_sides(old(self)@.anchor.unwrap().0, position.0),
                )
                &&& !final(self)@.active
                &&& final(self)@.anchor is None
                &&& cleared(final(self)@.curves, old(self)@.curves)
            },
            old(self)@.active && old(self)@.anchor is Some && button == MouseButton::Secondary
                ==> r is Cancelled && final(self)@ == (ShapeToolView {
                active: false,
                anchor: None,
                ..old(self)@
            }),
            old(self)@.active && old(self)@.anchor is Some && button != MouseButton::Primary
                && button != MouseButton::Secondary ==> r is Ignored && final(self)@ == old(self)@,
    {
        if !self.active {
            return ShapeStep::Ignored;
        }
        match self.upper_left {
            Some(corner) => match button {
                MouseButton::Primary => {
                    let a: Point = corner.0;
                    let c: Point = position.0;
                    let b: Point = Point { x: c.x, y: a.y };
                    let d: Point = Point { x: a.x, y: c.y };
                    make_quadrilateral_bezier_curves(&mut self.curves, (a, b, c, d));
                    let row: Vec<Bezier> = as_row(&self.curves);
                    proof {
                        assert(laid_out(
                            curve_views(row@),
                            old(self)@.curves,
                            rectangle_sides(a, c),
                        ));
                        lemma_rectangle_rings(
                            curve_views(row@),
                            old(self)@.curves,
                            a,
                            c,
                        );
                    }
                    proof {
                        assert forall|k: int| 0 <= k < row@.len() implies (#[trigger] row@[k]).wf() by {
                            assert(self.curves[k].wf());
                        }
                    }
                    let made = Contour::ring(&row);
                    clear_curves(&mut self.curves);
                    self.upper_left = None;
                    self.active = false;
                    match made {
                        Ok(contour) => ShapeStep::Finished(contour),
                        Err(_) => ShapeStep::Ignored,
                    }
                },
                MouseButton::Secondary => {
                    self.upper_left = None;
                    self.active = false;
                    ShapeStep::Cancelled
                },
                _ => ShapeStep::Ignored,
            },
            None => match button {
                MouseButton::Primary => {
                    self.upper_left = Some(position);
                    let p: Point = position.0;
                    make_quadrilateral_bezier_curves(&mut self.curves, (p, p, p, p));
                    ShapeStep::Started
                },
                _ => ShapeStep::Ignored,
            },
        }
    }

    /// The pointer was moved to `position`. A tool in use with a corner set
    /// lays the preview out from the corner to `position`; otherwise the
    /// event is passed over.
    pub fn on_motion_notify_event(&mut self, position: UnitPoint) -> (r: ShapeStep)
        requires
            old(self)@.wf(),
        ensures
            final(self)@.wf(),
            final(self)@.active == old(self)@.active,
            final(self)@.anchor == old(self)@.anchor,
            old(self)@.active && old(self)@.anchor is Some ==> r is Resized && laid_out(
                final(self)@.curves,
                old(self)@.curves,
                rectangle_sides(old(self)@.anchor.unwrap().0, position.0),
            ),
            !(old(self)@.active && old(self)@.anchor is Some) ==> r is Ignored && final(self)@
                == old(self)@,
    {
        if !self.active {
            return ShapeStep::Ignored;
        }
        match self.upper_left {
            Some(corner) => {
                let a: Point = corner.0;
                let c: Point = position.0;
                let b: Point = Point { x: c.x, y: a.y };
                let d: Point = Point { x: a.x, y: c.y };
                make_quadrilateral_bezier_curves(&mut self.curves, (a, b, c, d));
                ShapeStep::Resized
            },
            None => ShapeStep::Ignored,
        }
    }
}

impl EllipseTool {
    /// The tool at rest: not in use, without a centre, its segments without
    /// points and asking for smooth joins.
    pub fn new() -> (r: EllipseTool)
        ensures
            r@.wf(),
            !r@.active,
            r@.anchor is None,
            forall|k: int| 0 <= k < 4 ==> (#[trigger] r@.curves[k]).points.len() == 0 && r@.curves[k].smooth,
    {
        EllipseTool { active: false, center: None, curves: smooth_curves() }
    }

    /// Whether the tool is in use.
    pub fn is_active(&self) -> (r: bool)
        ensures
            r == self@.active,
    {
        self.active
    }

    /// The centre of the circle, once it is set.
    pub fn center(&self) -> (r: Option<UnitPoint>)
        ensures
            r == self@.anchor,
    {
        self.center
    }

    /// The four segments of the preview.
    pub fn curves(&self) -> (r: &[Bezier; 4])
        ensures
            four_views(*r) == self@.curves,
    {
        &self.curves
    }

    /// Takes the tool into use.
    pub fn on_activate(&mut self)
        ensures
            final(self)@ == (ShapeToolView { active: true, ..old(self)@ }),
    {
        self.active = true;
    }

    /// Puts the tool away, and gives up a shape that was begun.
    pub fn on_deactivate(&mut self)
        ensures
            final(self)@ == (ShapeToolView { active: false, anchor: None, ..old(self)@ }),
    {
        self.center = None;
        self.active = false;
    }

    /// A button was pressed at `position`.
    ///
    /// A tool that is not in use passes the event over. Without a centre,
    /// the primary button sets the centre. With a centre, the primary button
    /// finishes the circle about the centre through `position` and puts the
    /// tool away, unless the circle would leave the lattice; the secondary
    /// button gives the shape up and puts the tool away. Every other press
    /// is passed over.
    pub fn on_button_press_event(&mut self, button: MouseButton, position: UnitPoint) -> (r:
        ShapeStep)
        requires
            old(self)@.wf(),
        ensures
            final(self)@.wf(),
            !old(self)@.active ==> r is Ignored && final(self)@ == old(self)@,
            old(self)@.active && old(self)@.anchor is None && button == MouseButton::Primary ==> {
                &&& r is Started
                &&& final(self)@.active
                &&& final(self)@.anchor == Some(position)
                &&& laid_out(final(self)@.curves, old(self)@.curves, circle_quarters(position.0, 0))
            },
            old(self)@.active && old(self)@.anchor is None && button != MouseButton::Primary
                ==> r is Ignored && final(self)@ == old(self)@,
            old(self)@.active && old(self)@.anchor is Some && button == MouseButton::Primary ==> {
                let center = old(self)@.anchor.unwrap().0;
                exists|radius: int| #[trigger]
                    is_radius(radius, center, position.0) && if circle_fits(center, radius) {
                        &&& r matches ShapeStep::Finished(contour) && ring_of(
                            contour@,
                            old(self)@.curves,
                            circle_quarters(center, radius),
                        )
                        &&& !final(self)@.active
                        &&& final(self)@.anchor is None
                        &&& cleared(final(self)@.curves, old(self)@.curves)
                    } else {
                        r is OutOfRange && final(self)@ == old(self)@
                    }
            },
            old(self)@.active && old(self)@.anchor is Some && button == MouseButton::Secondary
                ==> r is Cancelled && final(self)@ == (ShapeToolView {
                active: false,
                anchor: None,
                ..old(self)@
            }),
            old(self)@.active && old(self)@.anchor is Some && button != MouseButton::Primary
                && button != MouseButton::Secondary ==> r is Ignored && final(self)@ == old(self)@,
    {
        if !self.active {
            return ShapeStep::Ignored;
        }
        match self.center {
            Some(center) => match button {
                MouseButton::Primary => {
                    let radius: u64 = distance_between_two_points(center.0, position.0);
                    assert(is_radius(radius as int, center.0, position.0));
                    match make_circle_bezier_curves(&mut self.curves, (center.0, radius)) {
                        Err(_) => {
                            assert(four_views(self.curves) =~= four_views(old(self).curves));
                            ShapeStep::OutOfRange
                        },
                        Ok(()) => {
                            let row: Vec<Bezier> = as_row(&self.curves);
                            proof {
                                assert(laid_out(
                                    curve_views(row@),
                                    old(self)@.curves,
                                    circle_quarters(center.0, radius as int),
                                ));
                                lemma_circle_rings(
                                    curve_views(row@),
                                    old(self)@.curves,
                                    center.0,
                                    radius as int,
                                );
                            }
                            proof {
                                assert forall|k: int| 0 <= k < row@.len() implies (
                                #[trigger] row@[k]).wf() by {
                                    assert(self.curves[k].wf());
                                }
                            }
                            let made = Contour::ring(&row);
                            clear_curves(&mut self.curves);
                            self.center = None;
                            self.active = false;
                            match made {
                                Ok(contour) => ShapeStep::Finished(contour),
                                Err(_) => ShapeStep::Ignored,
                            }
                        },
                    }
                },
                MouseButton::Secondary => {
                    self.center = None;
                    self.active = false;
                    ShapeStep::Cancelled
                },
                _ => ShapeStep::Ignored,
            },
            None => match button {
                MouseButton::Primary => {
                    proof {
                        lemma_point_circle_fits(position.0);
                    }
                    let _laid = make_circle_bezier_curves(&mut self.curves, (position.0, 0));
                    self.center = Some(position);
                    ShapeStep::Started
                },
                _ => ShapeStep::Ignored,
            },
        }
    }

    /// The pointer was moved to `position`. A tool in use with a centre set
    /// lays the preview out as the circle about the centre through
    /// `position`, unless the circle would leave the lattice; otherwise the
    /// event is passed over.
    pub fn on_motion_notify_event(&mut self, position: UnitPoint) -> (r: ShapeStep)
        requires
            old(self)@.wf(),
        ensures
            final(self)@.wf(),
            final(self)@.active == old(self)@.active,
            final(self)@.anchor == old(self)@.anchor,
            old(self)@.active && old(self)@.anchor is Some ==> {
                let center = old(self)@.anchor.unwrap().0;
                exists|radius: int| #[trigger]
                    is_radius(radius, center, position.0) && if circle_fits(center, radius) {
                        r is Resized && laid_out(
                            final(self)@.curves,
                            old(self)@.curves,
                            circle_quarters(center, radius),
                        )
                    } else {
                        r is OutOfRange && final(self)@ == old(self)@
                    }
            },
            !(old(self)@.active && old(self)@.anchor is Some) ==> r is Ignored && final(self)@
                == old(self)@,
    {
        if !self.active {
            return ShapeStep::Ignored;
        }
        match self.center {
            Some(center) => {
                let radius: u64 = distance_between_two_points(center.0, position.0);
                assert(is_radius(radius as int, center.0, position.0));
                match make_circle_bezier_curves(&mut self.curves, (center.0, radius)) {
                    Err(_) => {
                        assert(four_views(self.curves) =~= four_views(old(self).curves));
                        ShapeStep::OutOfRange
                    },
                    Ok(()) => ShapeStep::Resized,
                }
            },
            None => ShapeStep::Ignored,
        }
    }
}

} // verus!
