//! Finding the control points of a glyph by where they stand: those near a
//! position, and those in a rectangle.
//!
//! The index is a list of the points as they stood when it was built. It
//! knows nothing of later edits: after an edit it is built anew.

use vstd::prelude::*;
use vstd::seq_lib::to_multiset_insert;
use crate::contours::Contour;
use crate::curves::Bezier;
use crate::curves::BezierView;
use crate::glyphs::contour_views;
use crate::glyphs::Glyph;
use crate::glyphs::GlyphPointIndex;
use crate::contours::ContourView;
use crate::points::dist2;
use crate::points::lemma_product_bound;
use crate::points::CurvePoint;
use crate::points::Point;
use crate::propagation::curve_views;

verus! {

/// The index of the control points of a glyph.
#[derive(Debug)]
pub struct SpatialIndex {
    entries: Vec<(GlyphPointIndex, Point)>,
}

impl View for SpatialIndex {
    type V = Seq<(GlyphPointIndex, Point)>;

    closed spec fn view(&self) -> Seq<(GlyphPointIndex, Point)> {
        self.entries@
    }
}

/// The lesser of two numbers.
pub open spec fn least(a: int, b: int) -> int {
    if a <= b {
        a
    } else {
        b
    }
}

/// The greater of two numbers.
pub open spec fn greatest(a: int, b: int) -> int {
    if a <= b {
        b
    } else {
        a
    }
}

/// Whether `p` lies in the rectangle with the opposite corners `a` and `b`,
/// the border counted in.
pub open spec fn in_region(p: Point, a: Point, b: Point) -> bool {
    &&& least(a.x as int, b.x as int) <= p.x <= greatest(a.x as int, b.x as int)
    &&& least(a.y as int, b.y as int) <= p.y <= greatest(a.y as int, b.y as int)
}

/// The test of an entry against a rectangle.
pub open spec fn region_test(a: Point, b: Point) -> spec_fn((GlyphPointIndex, Point)) -> bool {
    |e: (GlyphPointIndex, Point)| in_region(e.1, a, b)
}

/// Whether `p` lies within `radius` of `center`.
pub open spec fn in_reach(p: Point, center: Point, radius: int) -> bool {
    dist2(center, p) <= radius * radius
}

/// The test of an entry against a circle.
pub open spec fn reach_test(center: Point, radius: int) -> spec_fn((GlyphPointIndex, Point)) -> bool {
    |e: (GlyphPointIndex, Point)| in_reach(e.1, center, radius)
}

/// Where a new entry at the squared distance `d` goes into entries in the
/// order of their distance from `center`: behind every entry that is as near
/// or nearer.
pub open spec fn slot(s: Seq<(GlyphPointIndex, Point)>, center: Point, d: int) -> int
    decreases s.len(),
{
    if s.len() == 0 || dist2(center, s.last().1) <= d {
        s.len() as int
    } else {
        slot(s.drop_last(), center, d)
    }
}

/// The first `upto` of `entries` that lie within `radius` of `center`, the
/// nearest first, and those at one distance in the order of the index.
pub open spec fn nearest(
    entries: Seq<(GlyphPointIndex, Point)>,
    center: Point,
    radius: int,
    upto: int,
) -> Seq<(GlyphPointIndex, Point)>
    decreases upto,
{
    if upto <= 0 {
        Seq::empty()
    } else {
        let found = nearest(entries, center, radius, upto - 1);
        let e = entries[upto - 1];
        if in_reach(e.1, center, radius) {
            found.insert(slot(found, center, dist2(center, e.1)), e)
        } else {
            found
        }
    }
}

/// Whether the entries come in the order of their distance from `center`.
pub open spec fn by_distance(s: Seq<(GlyphPointIndex, Point)>, center: Point) -> bool {
    forall|i: int, j: int|
        0 <= i <= j < s.len() ==> dist2(center, (#[trigger] s[i]).1) <= dist2(
            center,
            (#[trigger] s[j]).1,
        )
}

/// The entries of one segment: its points, in order.
pub open spec fn curve_entries(ic: int, jc: int, points: Seq<CurvePoint>) -> Seq<
    (GlyphPointIndex, Point),
> {
    Seq::new(
        points.len(),
        |i: int|
            (
                GlyphPointIndex {
                    contour_index: ic as usize,
                    curve_index: jc as usize,
                    uuid: points[i].uuid,
                },
                points[i].position,
            ),
    )
}

/// The entries of the first `upto` segments of a contour.
pub open spec fn contour_entries(ic: int, curves: Seq<BezierView>, upto: int) -> Seq<
    (GlyphPointIndex, Point),
>
    decreases upto,
{
    if upto <= 0 {
        Seq::empty()
    } else {
        contour_entries(ic, curves, upto - 1) + curve_entries(ic, upto - 1, curves[upto - 1].points)
    }
}

/// The entries of the first `upto` contours of a glyph.
pub open spec fn glyph_entries(contours: Seq<ContourView>, upto: int) -> Seq<
    (GlyphPointIndex, Point),
>
    decreases upto,
{
    if upto <= 0 {
        Seq::empty()
    } else {
        glyph_entries(contours, upto - 1) + contour_entries(
            upto - 1,
            contours[upto - 1].curves,
            contours[upto - 1].curves.len() as int,
        )
    }
}

/// A rectangle is the same whichever of its opposite corners is named first,
/// and whichever pair of opposite corners is named.
pub proof fn lemma_region_symmetric(p: Point, a: Point, b: Point)
    ensures
        in_region(p, a, b) == in_region(p, b, a),
        in_region(p, a, b) == in_region(p, Point { x: a.x, y: b.y }, Point { x: b.x, y: a.y }),
{
}

/// Where the slot of a new entry lies: behind the entries that are as near or
/// nearer, before those that are farther.
pub proof fn lemma_slot_bounds(s: Seq<(GlyphPointIndex, Point)>, center: Point, d: int)
    ensures
        0 <= slot(s, center, d) <= s.len(),
        slot(s, center, d) > 0 ==> dist2(center, s[slot(s, center, d) - 1].1) <= d,
        forall|j: int| slot(s, center, d) <= j < s.len() ==> dist2(center, (#[trigger] s[j]).1) > d,
    decreases s.len(),
{
    if !(s.len() == 0 || dist2(center, s.last().1) <= d) {
        let t = s.drop_last();
        lemma_slot_bounds(t, center, d);
        assert forall|j: int| slot(s, center, d) <= j < s.len() implies dist2(
            center,
            (#[trigger] s[j]).1,
        ) > d by {
            if j < t.len() {
                assert(s[j] == t[j]);
            }
        }
        if slot(s, center, d) > 0 {
            assert(s[slot(s, center, d) - 1] == t[slot(t, center, d) - 1]);
        }
    }
}

/// Entries that are farther than the new one have no say in its slot.
pub proof fn lemma_slot_skips(s: Seq<(GlyphPointIndex, Point)>, center: Point, d: int, k: int)
    requires
        0 <= k <= s.len(),
        forall|j: int| k <= j < s.len() ==> dist2(center, (#[trigger] s[j]).1) > d,
    ensures
        slot(s, center, d) == slot(s.take(k), center, d),
    decreases s.len() - k,
{
    if k < s.len() {
        assert(s.drop_last().take(k) =~= s.take(k));
        lemma_slot_skips(s.drop_last(), center, d, k);
    } else {
        assert(s.take(k) =~= s);
    }
}

/// The nearest entries are those within reach, each as often as it stands in
/// the index, and they come in the order of their distance.
pub proof fn lemma_nearest_sorted(
    entries: Seq<(GlyphPointIndex, Point)>,
    center: Point,
    radius: int,
    upto: int,
)
    requires
        0 <= upto <= entries.len(),
    ensures
        by_distance(nearest(entries, center, radius, upto), center),
        nearest(entries, center, radius, upto).to_multiset() == entries.take(upto).filter(
            reach_test(center, radius),
        ).to_multiset(),
    decreases upto,
{
    broadcast use vstd::seq_lib::group_to_multiset_ensures;

    let test = reach_test(center, radius);
    if upto > 0 {
        lemma_nearest_sorted(entries, center, radius, upto - 1);
        let found = nearest(entries, center, radius, upto - 1);
        let e = entries[upto - 1];
        assert(entries.take(upto) =~= entries.take(upto - 1).push(e));
        entries.take(upto - 1).lemma_filter_push(e, test);
        if in_reach(e.1, center, radius) {
            let d = dist2(center, e.1);
            let k = slot(found, center, d);
            lemma_slot_bounds(found, center, d);
            to_multiset_insert(found, k, e);
            let out = found.insert(k, e);
            assert forall|i: int, j: int| 0 <= i <= j < out.len() implies dist2(
                center,
                (#[trigger] out[i]).1,
            ) <= dist2(center, (#[trigger] out[j]).1) by {
                if i < k && j > k {
                    assert(out[i] == found[i]);
                    assert(out[j] == found[j - 1]);
                    assert(dist2(center, found[i].1) <= dist2(center, found[k - 1].1));
                } else if i < k && j == k {
                    assert(out[i] == found[i]);
                    assert(dist2(center, found[i].1) <= dist2(center, found[k - 1].1));
                } else if i < k && j < k {
                    assert(out[i] == found[i]);
                    assert(out[j] == found[j]);
                } else if i == k && j > k {
                    assert(out[j] == found[j - 1]);
                } else if i > k {
                    assert(out[i] == found[i - 1]);
                    assert(out[j] == found[j - 1]);
                }
            }
        }
    } else {
        assert(entries.take(0) =~= Seq::empty());
    }
}

/// Whether `p` lies in the rectangle with the opposite corners `a` and `b`.
fn is_in_region(p: Point, a: Point, b: Point) -> (r: bool)
    ensures
        r == in_region(p, a, b),
{
    let (x0, x1): (i32, i32) = if a.x <= b.x {
        (a.x, b.x)
    } else {
        (b.x, a.x)
    };
    let (y0, y1): (i32, i32) = if a.y <= b.y {
        (a.y, b.y)
    } else {
        (b.y, a.y)
    };
    x0 <= p.x && p.x <= x1 && y0 <= p.y && p.y <= y1
}

impl SpatialIndex {
    /// The index of no points.
    pub fn new() -> (r: SpatialIndex)
        ensures
            r@ == Seq::<(GlyphPointIndex, Point)>::empty(),
    {
        SpatialIndex { entries: Vec::new() }
    }

    /// The index of the control points of `glyph`: the points of every
    /// segment of every contour, in order.
    pub fn from_glyph(glyph: &Glyph) -> (r: SpatialIndex)
        ensures
            r@ == glyph_entries(glyph@.contours, glyph@.contours.len() as int),
    {
        let mut entries: Vec<(GlyphPointIndex, Point)> = Vec::new();
        let mut ic: usize = 0;
        while ic < glyph.contours.len()
            invariant
                ic <= glyph.contours@.len(),
                entries@ == glyph_entries(glyph@.contours, ic as int),
            decreases glyph.contours@.len() - ic,
        {
            let curves: &Vec<Bezier> = glyph.contours[ic].curves();
            assert(curve_views(curves@) == glyph@.contours[ic as int].curves);
            let ghost base = entries@;
            let mut jc: usize = 0;
            while jc < curves.len()
                invariant
                    ic < glyph.contours@.len(),
                    jc <= curves@.len(),
                    curve_views(curves@) == glyph@.contours[ic as int].curves,
                    base == glyph_entries(glyph@.contours, ic as int),
                    entries@ == base + contour_entries(
                        ic as int,
                        glyph@.contours[ic as int].curves,
                        jc as int,
                    ),
                decreases curves@.len() - jc,
            {
                let curve: &Bezier = &curves[jc];
                assert(curve@ == glyph@.contours[ic as int].curves[jc as int]);
                let ghost start = entries@;
                let mut i: usize = 0;
                while i < curve.len()
                    invariant
                        i <= curve@.points.len(),
                        entries@ == start + curve_entries(ic as int, jc as int, curve@.points).take(
                            i as int,
                        ),
                    decreases curve@.points.len() - i,
                {
                    let point: CurvePoint = curve.point(i);
                    entries.push(
                        (
                            GlyphPointIndex { contour_index: ic, curve_index: jc, uuid: point.uuid },
                            point.position,
                        ),
                    );
                    assert(entries@ =~= start + curve_entries(
                        ic as int,
                        jc as int,
                        curve@.points,
                    ).take(i + 1));
                    i += 1;
                }
                proof {
                    let all = curve_entries(ic as int, jc as int, curve@.points);
                    assert(all.take(all.len() as int) =~= all);
                    assert(entries@ =~= base + contour_entries(
                        ic as int,
                        glyph@.contours[ic as int].curves,
                        jc + 1,
                    ));
                }
                jc += 1;
            }
            ic += 1;
        }
        SpatialIndex { entries }
    }

    /// Adds a point to the index, behind the points that it holds.
    pub fn insert(&mut self, name: GlyphPointIndex, position: Point)
        ensures
            final(self)@ == old(self)@.push((name, position)),
    {
        self.entries.push((name, position));
    }

    /// The number of points in the index.
    pub fn len(&self) -> (r: usize)
        ensures
            r == self@.len(),
    {
        self.entries.len()
    }

    /// Whether the index holds no point.
    pub fn is_empty(&self) -> (r: bool)
        ensures
            r == (self@.len() == 0),
    {
        self.entries.len() == 0
    }

    /// The points that lie in the rectangle with the opposite corners
    /// `region.0` and `region.1`, the border counted in, in the order of the
    /// index.
    pub fn query_region(&self, region: (Point, Point)) -> (r: Vec<(GlyphPointIndex, Point)>)
        ensures
            r@ == self@.filter(region_test(region.0, region.1)),
    {
        let ghost test = region_test(region.0, region.1);
        let mut out: Vec<(GlyphPointIndex, Point)> = Vec::new();
        let mut i: usize = 0;
        assert(self@.take(0) =~= Seq::empty());
        while i < self.entries.len()
            invariant
                i <= self@.len(),
                test == region_test(region.0, region.1),
                out@ == self@.take(i as int).filter(test),
            decreases self@.len() - i,
        {
            let e: (GlyphPointIndex, Point) = self.entries[i];
            proof {
                assert(self@.take(i + 1) =~= self@.take(i as int).push(e));
                self@.take(i as int).lemma_filter_push(e, test);
            }
            if is_in_region(e.1, region.0, region.1) {
                out.push(e);
            }
            i += 1;
        }
        assert(self@.take(self@.len() as int) =~= self@);
        out
    }

    /// The points that lie within `radius` of `position`, the nearest first,
    /// and no more than `max_candidates` of them. Points at one distance
    /// come in the order of the index.
    pub fn query_point(&self, position: Point, radius: u32, max_candidates: usize) -> (r: Vec<
        (GlyphPointIndex, Point),
    >)
        ensures
            r@ == nearest(self@, position, radius as int, self@.len() as int).take(
                least(
                    max_candidates as int,
                    nearest(self@, position, radius as int, self@.len() as int).len() as int,
                ),
            ),
            by_distance(r@, position),
            forall|i: int|
                0 <= i < r@.len() ==> in_reach((#[trigger] r@[i]).1, position, radius as int)
                    && self@.contains(r@[i]),
    {
        proof {
            lemma_product_bound(radius as int, radius as int, 0xffff_ffff, 0xffff_ffff);
        }
        let r2: u128 = (radius as u128) * (radius as u128);
        let mut out: Vec<(GlyphPointIndex, Point)> = Vec::new();
        let mut i: usize = 0;
        while i < self.entries.len()
            invariant
                i <= self@.len(),
                r2 == radius * radius,
                out@ == nearest(self@, position, radius as int, i as int),
            decreases self@.len() - i,
        {
            let e: (GlyphPointIndex, Point) = self.entries[i];
            let d: u128 = position.distance_squared(e.1);
            if d <= r2 {
                let mut k: usize = out.len();
                while k > 0 && position.distance_squared(out[k - 1].1) > d
                    invariant
                        k <= out@.len(),
                        forall|j: int|
                            k <= j < out@.len() ==> dist2(position, (#[trigger] out@[j]).1) > d,
                    decreases k,
                {
                    k -= 1;
                }
                proof {
                    lemma_slot_skips(out@, position, d as int, k as int);
                    if k > 0 {
                        assert(out@.take(k as int).last() == out@[k - 1]);
                    }
                }
                out.insert(k, e);
            }
            i += 1;
        }
        proof {
            lemma_nearest_sorted(self@, position, radius as int, self@.len() as int);
            let all = nearest(self@, position, radius as int, self@.len() as int);
            let test = reach_test(position, radius as int);
            assert(self@.take(self@.len() as int) =~= self@);
            assert forall|j: int| 0 <= j < all.len() implies in_reach(
                (#[trigger] all[j]).1,
                position,
                radius as int,
            ) && self@.contains(all[j]) by {
                broadcast use vstd::seq_lib::group_to_multiset_ensures;

                assert(all.contains(all[j]));
                assert(all.to_multiset().count(all[j]) > 0);
                assert(self@.filter(test).contains(all[j]));
                self@.lemma_filter_contains_rev(test, all[j]);
            }
        }
        if out.len() > max_candidates {
            out.truncate(max_candidates);
        }
        proof {
            let all = nearest(self@, position, radius as int, self@.len() as int);
            assert(out@ =~= all.take(least(max_candidates as int, all.len() as int)));
        }
        out
    }
}

} // verus!
