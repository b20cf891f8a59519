//! Glyphs: the contours of one character, and the names by which their
//! control points are found again.

use vstd::prelude::*;
use crate::contours::chained;
use crate::contours::cubic_for;
use crate::contours::Contour;
use crate::contours::ContourView;
use crate::curves::on_curve;
use crate::curves::valid_point_count;
use crate::curves::Bezier;
use crate::curves::BezierView;
use crate::curves::DEFAULT_TOLERANCE;
use crate::errors::EditError;
use crate::matrix::Matrix;
use crate::points::CurvePoint;
use crate::points::Point;
use crate::propagation::curve_views;

verus! {

/// The name of a control point of a glyph: the contour, the segment in it,
/// and the point's identifier. A name is looked up when it is used; one that
/// no longer names a point is passed over.
#[derive(Clone, Copy, Debug, PartialEq, Eq, Structural, Hash)]
pub struct GlyphPointIndex {
    pub contour_index: usize,
    pub curve_index: usize,
    pub uuid: u128,
}

/// What a glyph stands for.
#[derive(Clone, Copy, Debug, PartialEq, Eq, Structural, Hash)]
pub enum GlyphKind {
    /// A character.
    Char(char),
    /// A part that other glyphs are put together from.
    Component,
}

/// Another glyph, used as a part of this one.
#[derive(Debug)]
pub struct Component {
    /// The name of the glyph that is used.
    pub base_name: String,
    /// Where the glyph is put.
    pub transform: Matrix,
}

/// A straight line across the drawing to go by: a point on it, and the angle
/// at which it runs, in hundredths of a degree.
#[derive(Clone, Copy, Debug, PartialEq, Eq, Structural, Hash)]
pub struct Guideline {
    pub position: Point,
    pub angle: i32,
}

/// A glyph.
#[derive(Debug)]
pub struct Glyph {
    pub name: String,
    pub kind: GlyphKind,
    pub width: Option<u32>,
    pub contours: Vec<Contour>,
    pub components: Vec<Component>,
    pub guidelines: Vec<Guideline>,
    pub glif_source: String,
}

/// What can be edited of a glyph: its contours and its guidelines.
pub struct GlyphView {
    pub contours: Seq<ContourView>,
    pub guidelines: Seq<Guideline>,
}

/// The views of a row of contours.
pub open spec fn contour_views(contours: Seq<Contour>) -> Seq<ContourView> {
    Seq::new(contours.len(), |c: int| contours[c]@)
}

impl View for Glyph {
    type V = GlyphView;

    open spec fn view(&self) -> GlyphView {
        GlyphView { contours: contour_views(self.contours@), guidelines: self.guidelines@ }
    }
}

/// Whether one of `points` bears the identifier `uuid`.
pub open spec fn bears(points: Seq<CurvePoint>, uuid: u128) -> bool {
    exists|i: int| 0 <= i < points.len() && (#[trigger] points[i]).uuid == uuid
}

/// Whether one of `pts` names a point among `points`, the points of the
/// segment `jc` of the contour `ic`.
pub open spec fn named_by(
    pts: Seq<(GlyphPointIndex, Point)>,
    ic: int,
    jc: int,
    points: Seq<CurvePoint>,
) -> bool {
    exists|k: int|
        0 <= k < pts.len() && (#[trigger] pts[k]).0.contour_index == ic && pts[k].0.curve_index
            == jc && bears(points, pts[k].0.uuid)
}

impl GlyphView {
    /// Whether every contour is well formed.
    pub open spec fn wf(self) -> bool {
        forall|c: int| 0 <= c < self.contours.len() ==> (#[trigger] self.contours[c]).wf()
    }

    /// Whether `(ic, jc)` is a segment of the glyph.
    pub open spec fn has_curve(self, ic: int, jc: int) -> bool {
        0 <= ic < self.contours.len() && 0 <= jc < self.contours[ic].curves.len()
    }

    /// Whether the segment `(ic, jc)` answers a query at `position`: the
    /// position lies on the curve, within the default tolerance, or one of
    /// `pts` names a point of the segment.
    pub open spec fn answers(
        self,
        ic: int,
        jc: int,
        position: Point,
        pts: Seq<(GlyphPointIndex, Point)>,
    ) -> bool {
        let points = self.contours[ic].curves[jc].points;
        on_curve(points, position, DEFAULT_TOLERANCE as int) || named_by(pts, ic, jc, points)
    }
}

/// Whether one of the points of `curve` bears the identifier `uuid`.
fn curve_bears(curve: &Bezier, uuid: u128) -> (r: bool)
    ensures
        r == bears(curve@.points, uuid),
{
    let mut i: usize = 0;
    while i < curve.len()
        invariant
            i <= curve@.points.len(),
            forall|j: int| 0 <= j < i ==> (#[trigger] curve@.points[j]).uuid != uuid,
        decreases curve@.points.len() - i,
    {
        if curve.point(i).uuid == uuid {
            return true;
        }
        i += 1;
    }
    false
}

/// Whether one of `pts` names a point of `curve`, the segment `jc` of the
/// contour `ic`.
fn curve_named_by(pts: &[(GlyphPointIndex, Point)], ic: usize, jc: usize, curve: &Bezier) -> (r:
    bool)
    ensures
        r == named_by(pts@, ic as int, jc as int, curve@.points),
{
    let mut k: usize = 0;
    while k < pts.len()
        invariant
            k <= pts@.len(),
            forall|j: int|
                0 <= j < k ==> !((#[trigger] pts@[j]).0.contour_index == ic
                    && pts@[j].0.curve_index == jc && bears(curve@.points, pts@[j].0.uuid)),
        decreases pts@.len() - k,
    {
        let name: GlyphPointIndex = pts[k].0;
        if name.contour_index == ic && name.curve_index == jc && curve_bears(curve, name.uuid) {
            return true;
        }
        k += 1;
    }
    false
}

impl Glyph {
    /// The glyph `name` for the character `char`, with one contour made of
    /// `curves`, appended one by one. Where a segment is rejected, so is the
    /// glyph.
    pub fn new(name: &str, char: char, curves: Vec<Bezier>) -> (r: Result<Glyph, EditError>)
        requires
            forall|c: int| 0 <= c < curves@.len() ==> (#[trigger] curves@[c]).wf(),
        ensures
            match chained(curve_views(curves@), curves@.len() as int) {
                Ok(v) => r matches Ok(g) && g@.wf() && g@.contours == seq![v] && g@.guidelines.len()
                    == 0 && g.components@.len() == 0 && g.name@ == name@ && g.kind
                    == GlyphKind::Char(char) && g.width is None && g.glif_source@.len() == 0,
                Err(e) => r matches Err(f) && f == e,
            },
    {
        let ghost views = curve_views(curves@);
        let n: usize = curves.len();
        let contour: Contour = match Contour::from_curves(&curves) {
            Ok(contour) => contour,
            Err(e) => {
                return Err(e);
            },
        };
        let mut contours: Vec<Contour> = Vec::new();
        contours.push(contour);
        let g = Glyph {
            name: name.to_owned(),
            kind: GlyphKind::Char(char),
            width: None,
            contours,
            components: Vec::new(),
            guidelines: Vec::new(),
            glif_source: String::new(),
        };
        assert(g@.contours =~= seq![chained(views, n as int).unwrap()]);
        Ok(g)
    }

    /// The glyph `name` for the character `char`, with one contour without
    /// segments.
    pub fn new_empty(name: &str, char: char) -> (g: Glyph)
        ensures
            g@.wf(),
            g@.contours == seq![
                ContourView { open: true, curves: Seq::empty(), continuities: Seq::empty() },
            ],
            g@.guidelines.len() == 0,
            g.components@.len() == 0,
            g.name@ == name@,
            g.kind == GlyphKind::Char(char),
            g.width is None,
            g.glif_source@.len() == 0,
    {
        let mut contours: Vec<Contour> = Vec::new();
        contours.push(Contour::new());
        let g = Glyph {
            name: name.to_owned(),
            kind: GlyphKind::Char(char),
            width: None,
            contours,
            components: Vec::new(),
            guidelines: Vec::new(),
            glif_source: String::new(),
        };
        assert(g@.contours =~= seq![
            ContourView { open: true, curves: Seq::empty(), continuities: Seq::empty() },
        ]);
        g
    }

    /// Whether there is nothing to draw: no contour has a segment, and the
    /// glyph has no components.
    pub fn is_empty(&self) -> (r: bool)
        ensures
            r == (self.components@.len() == 0 && forall|c: int|
                0 <= c < self@.contours.len() ==> (#[trigger] self@.contours[c]).curves.len() == 0),
    {
        if self.components.len() != 0 {
            return false;
        }
        let mut c: usize = 0;
        while c < self.contours.len()
            invariant
                c <= self.contours@.len(),
                forall|d: int| 0 <= d < c ==> (#[trigger] self@.contours[d]).curves.len() == 0,
            decreases self.contours@.len() - c,
        {
            let n: usize = self.contours[c].curves().len();
            assert(self@.contours[c as int].curves.len() == n);
            if n != 0 {
                return false;
            }
            c += 1;
        }
        true
    }

    /// Replaces every quadratic curve of the glyph by the cubic curve that
    /// runs as it does.
    pub fn into_cubic(&mut self)
        requires
            old(self)@.wf(),
        ensures
            final(self)@.wf(),
            final(self)@.guidelines == old(self)@.guidelines,
            final(self)@.contours.len() == old(self)@.contours.len(),
            forall|c: int|
                0 <= c < old(self)@.contours.len() ==> {
                    let a = old(self)@.contours[c];
                    let b = #[trigger] final(self)@.contours[c];
                    &&& b.open == a.open
                    &&& b.continuities == a.continuities
                    &&& b.curves.len() == a.curves.len()
                    &&& forall|j: int|
                        0 <= j < a.curves.len() ==> cubic_for(a.curves[j], #[trigger] b.curves[j])
                },
            final(self).name == old(self).name,
            final(self).kind == old(self).kind,
            final(self).width == old(self).width,
            final(self).components == old(self).components,
            final(self).glif_source == old(self).glif_source,
    {
        let n: usize = self.contours.len();
        let mut c: usize = 0;
        while c < n
            invariant
                n == old(self)@.contours.len(),
                n == self@.contours.len(),
                c <= n,
                self@.guidelines == old(self)@.guidelines,
                self.name == old(self).name,
                self.kind == old(self).kind,
                self.width == old(self).width,
                self.components == old(self).components,
                self.glif_source == old(self).glif_source,
                forall|d: int| c <= d < n ==> #[trigger] self@.contours[d] == old(self)@.contours[d],
                forall|d: int| 0 <= d < n ==> (#[trigger] self@.contours[d]).wf(),
                forall|d: int|
                    0 <= d < c ==> {
                        let a = old(self)@.contours[d];
                        let b = #[trigger] self@.contours[d];
                        &&& b.open == a.open
                        &&& b.continuities == a.continuities
                        &&& b.curves.len() == a.curves.len()
                        &&& forall|j: int|
                            0 <= j < a.curves.len() ==> cubic_for(
                                a.curves[j],
                                #[trigger] b.curves[j],
                            )
                    },
            decreases n - c,
        {
            let ghost before = self@;
            assert(self@.contours[c as int].wf());
            self.contours[c].into_cubic();
            proof {
                assert forall|d: int| 0 <= d < n && d != c implies #[trigger] self@.contours[d]
                    == before.contours[d] by {}
            }
            c += 1;
        }
    }

    /// The first segment, in the order of the contours and of the segments
    /// in them, that answers a query at `position`: one on whose curve the
    /// position lies, within the default tolerance, or one of whose points
    /// `pts` names. `None` where no segment does.
    pub fn on_curve_query(&self, position: Point, pts: &[(GlyphPointIndex, Point)]) -> (r: Option<
        ((usize, usize), Bezier),
    >)
        requires
            self@.wf(),
        ensures
            match r {
                Some(((ic, jc), curve)) => {
                    &&& self@.has_curve(ic as int, jc as int)
                    &&& curve@ == self@.contours[ic as int].curves[jc as int]
                    &&& self@.answers(ic as int, jc as int, position, pts@)
                    &&& forall|i: int, j: int|
                        self@.has_curve(i, j) && (i < ic || (i == ic && j < jc))
                            ==> !#[trigger] self@.answers(i, j, position, pts@)
                },
                None => forall|i: int, j: int|
                    self@.has_curve(i, j) ==> !#[trigger] self@.answers(i, j, position, pts@),
            },
    {
        let mut ic: usize = 0;
        while ic < self.contours.len()
            invariant
                ic <= self.contours@.len(),
                self@.wf(),
                forall|i: int, j: int|
                    self@.has_curve(i, j) && i < ic ==> !#[trigger] self@.answers(
                        i,
                        j,
                        position,
                        pts@,
                    ),
            decreases self.contours@.len() - ic,
        {
            let curves: &Vec<Bezier> = self.contours[ic].curves();
            assert(curve_views(curves@) == self@.contours[ic as int].curves);
            assert(self@.contours[ic as int].wf());
            let mut jc: usize = 0;
            while jc < curves.len()
                invariant
                    ic < self.contours@.len(),
                    jc <= curves@.len(),
                    curve_views(curves@) == self@.contours[ic as int].curves,
                    self@.contours[ic as int].wf(),
                    forall|i: int, j: int|
                        self@.has_curve(i, j) && (i < ic || (i == ic && j < jc))
                            ==> !#[trigger] self@.answers(i, j, position, pts@),
                decreases curves@.len() - jc,
            {
                let curve: &Bezier = &curves[jc];
                assert(curve@ == self@.contours[ic as int].curves[jc as int]);
                assert(crate::contours::is_segment(self@.contours[ic as int].curves[jc as int]));
                if curve.on_curve_query(position, None) || curve_named_by(pts, ic, jc, curve) {
                    return Some(((ic, jc), curve.clone()));
                }
                jc += 1;
            }
            ic += 1;
        }
        None
    }
}

} // verus!
