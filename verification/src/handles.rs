//! What the move of a single handle does to the handle that faces it across
//! a join.

use vstd::prelude::*;
use crate::arith::lemma_round_div_error;
use crate::continuity::Continuity;
use crate::contours::is_segment;
use crate::contours::ContourView;
use crate::glyphs::GlyphPointIndex;
use crate::invariants::stage_of;
use crate::matrix::Matrix;
use crate::points::abs;
use crate::propagation::after;
use crate::propagation::before;
use crate::propagation::targets;
use crate::propagation::transformed;
use crate::propagation::Frame;
use crate::propagation::Sweep;

verus! {

/// Whether `(c, i)` is the only point of the contour that is named.
pub open spec fn only_named(named: Seq<Seq<bool>>, c: int, i: int) -> bool {
    forall|d: int, j: int|
        0 <= d < named.len() && 0 <= j < named[d].len() ==> #[trigger] named[d][j] == (d == c && j
            == i)
}

/// A segment without named points is passed over.
proof fn lemma_swept_curve_unnamed(s: Sweep, f: Frame, named: Seq<Seq<bool>>, c: int, upto: int)
    requires
        0 <= c < named.len(),
        0 <= upto <= named[c].len(),
        forall|j: int| 0 <= j < upto ==> !#[trigger] named[c][j],
    ensures
        s.swept_curve(f, named, c, upto) == Some(s),
    decreases upto,
{
    if upto > 0 {
        lemma_swept_curve_unnamed(s, f, named, c, upto - 1);
    }
}

/// In a segment with one named point, the pass is the visit of that point.
proof fn lemma_swept_curve_lone(
    s: Sweep,
    f: Frame,
    named: Seq<Seq<bool>>,
    c: int,
    i: int,
    upto: int,
)
    requires
        0 <= c < named.len(),
        0 <= i < upto <= named[c].len(),
        forall|j: int| 0 <= j < upto ==> #[trigger] named[c][j] == (j == i),
    ensures
        s.swept_curve(f, named, c, upto) == s.visited(f, c, i),
    decreases upto,
{
    if upto - 1 == i {
        lemma_swept_curve_unnamed(s, f, named, c, upto - 1);
    } else {
        lemma_swept_curve_lone(s, f, named, c, i, upto - 1);
    }
}

/// Segments without named points are passed over.
proof fn lemma_swept_unnamed(s: Sweep, f: Frame, named: Seq<Seq<bool>>, upto: int)
    requires
        0 <= upto <= named.len(),
        forall|d: int, j: int| 0 <= d < upto && 0 <= j < named[d].len() ==> !#[trigger] named[d][j],
    ensures
        s.swept(f, named, upto) == Some(s),
    decreases upto,
{
    if upto > 0 {
        lemma_swept_unnamed(s, f, named, upto - 1);
        lemma_swept_curve_unnamed(s, f, named, upto - 1, named[upto - 1].len() as int);
    }
}

/// In a contour with one named point, the pass is the visit of that point.
proof fn lemma_swept_lone(s: Sweep, f: Frame, named: Seq<Seq<bool>>, c: int, i: int, upto: int)
    requires
        0 <= c < upto <= named.len(),
        0 <= i < named[c].len(),
        only_named(named, c, i),
    ensures
        s.swept(f, named, upto) == s.visited(f, c, i),
    decreases upto,
{
    if upto - 1 == c {
        assert forall|d: int, j: int| 0 <= d < c && 0 <= j < named[d].len() implies !#[trigger] named[d][j] by {}
        lemma_swept_unnamed(s, f, named, c);
        assert forall|j: int| 0 <= j < named[c].len() implies #[trigger] named[c][j] == (j == i) by {}
        lemma_swept_curve_lone(s, f, named, c, i, named[c].len() as int);
    } else {
        lemma_swept_lone(s, f, named, c, i, upto - 1);
        let t = s.swept(f, named, upto - 1);
        if t is Some {
            assert forall|j: int| 0 <= j < named[upto - 1].len() implies !#[trigger] named[upto
                - 1][j] by {}
            lemma_swept_curve_unnamed(
                t.unwrap(),
                f,
                named,
                upto - 1,
                named[upto - 1].len() as int,
            );
        }
    }
}

/// Where one point alone is named, the move of the contour is the visit of
/// that point.
pub proof fn lemma_lone_point(
    v: ContourView,
    contour_index: usize,
    idxs: Seq<GlyphPointIndex>,
    matrix: Matrix,
    c: int,
    i: int,
)
    requires
        0 <= c < v.curves.len(),
        0 <= i < v.curves[c].points.len(),
        only_named(targets(v.curves, contour_index, idxs), c, i),
    ensures
        transformed(v, contour_index, idxs, matrix) == stage_of(
            v,
            contour_index,
            idxs,
            matrix,
        ).start().visited(stage_of(v, contour_index, idxs, matrix).frame, c, i),
{
    let st = stage_of(v, contour_index, idxs, matrix);
    lemma_swept_lone(st.start(), st.frame, st.named, c, i, v.curves.len() as int);
}

/// A handle that is moved alone takes the handle before the join with it.
///
/// The first handle of the segment `c` is the only point named, and the
/// segment is joined to a segment before it that has a handle of its own.
/// Then the named handle stands where the matrix sends it, the join stays
/// where it was, and the handle before the join
/// - stays where it was at a positional continuity,
/// - is the exact mirror image of the named handle about the join at a
///   velocity continuity,
/// - lies on the far side of the join at a tangent continuity, at the
///   distance of the named handle divided by the ratio of the join, to
///   within half a lattice step.
pub proof fn lemma_handle_sets_handle_before(
    v: ContourView,
    contour_index: usize,
    idxs: Seq<GlyphPointIndex>,
    matrix: Matrix,
    c: int,
)
    requires
        v.wf(),
        0 <= c < v.curves.len(),
        v.curves[c].points.len() > 2,
        only_named(targets(v.curves, contour_index, idxs), c, 1),
        !v.open || c != 0,
        v.curves[before(v.curves.len() as int, c)].points.len() > 2,
        !(before(v.curves.len() as int, c) == c && v.curves[c].points.len() == 3),
        transformed(v, contour_index, idxs, matrix) is Some,
    ensures
        ({
            let t = transformed(v, contour_index, idxs, matrix).unwrap();
            let p = before(v.curves.len() as int, c);
            let lp = v.curves[p].points.len() as int;
            let joint = v.curves[c].points[0].position;
            let handle = t.position(c, 1);
            let facing = t.position(p, lp - 2);
            &&& matrix.apply(v.curves[c].points[1].position) == Some(handle)
            &&& t.position(c, 0) == joint
            &&& t.position(p, lp - 1) == joint
            &&& match v.continuities[p] {
                Continuity::Positional => facing == v.curves[p].points[lp - 2].position,
                Continuity::Velocity => facing.x - joint.x == joint.x - handle.x && facing.y
                    - joint.y == joint.y - handle.y,
                Continuity::Tangent { beta } => {
                    &&& 2 * abs((facing.x - joint.x) * beta.num - (joint.x - handle.x) * beta.den)
                        <= beta.num
                    &&& 2 * abs((facing.y - joint.y) * beta.num - (joint.y - handle.y) * beta.den)
                        <= beta.num
                },
            }
        }),
{
    let st = stage_of(v, contour_index, idxs, matrix);
    let n = v.curves.len() as int;
    let p = before(n, c);
    let lp = v.curves[p].points.len() as int;
    lemma_lone_point(v, contour_index, idxs, matrix, c, 1);
    assert(is_segment(v.curves[c]));
    assert(is_segment(v.curves[p]));
    assert(v.joined_at(p));
    assert(after(n, p) == c);
    assert(v.continuities[p].wf());
    let s = st.start();
    let s0 = s.moved(st.frame, c, 1).unwrap();
    let handle = s0.position(c, 1);
    let joint = v.curves[c].points[0].position;
    assert(st.named[p][lp - 2] == false);
    assert(!s0.done[p][lp - 2]);
    match v.continuities[p] {
        Continuity::Tangent { beta } => {
            lemma_round_div_error((joint.x - handle.x) * beta.den, beta.num as int);
            lemma_round_div_error((joint.y - handle.y) * beta.den, beta.num as int);
        },
        _ => {},
    }
}

/// A handle that is moved alone takes the handle after the join with it.
///
/// A later handle `(c, i)` of the segment `c` is the only point named, and
/// the segment is joined to a segment after it that has a handle of its own.
/// Then the named handle stands where the matrix sends it, the join stays
/// where it was, and the handle after the join
/// - stays where it was at a positional continuity,
/// - is the exact mirror image of the named handle about the join at a
///   velocity continuity,
/// - lies on the far side of the join at a tangent continuity, at the
///   distance of the named handle times the ratio of the join, to within
///   half a lattice step.
pub proof fn lemma_handle_sets_handle_after(
    v: ContourView,
    contour_index: usize,
    idxs: Seq<GlyphPointIndex>,
    matrix: Matrix,
    c: int,
    i: int,
)
    requires
        v.wf(),
        0 <= c < v.curves.len(),
        1 < i < v.curves[c].points.len() - 1,
        only_named(targets(v.curves, contour_index, idxs), c, i),
        !v.open || c + 1 != v.curves.len(),
        v.curves[after(v.curves.len() as int, c)].points.len() > 2,
        transformed(v, contour_index, idxs, matrix) is Some,
    ensures
        ({
            let t = transformed(v, contour_index, idxs, matrix).unwrap();
            let q = after(v.curves.len() as int, c);
            let joint = v.curves[q].points[0].position;
            let handle = t.position(c, i);
            let facing = t.position(q, 1);
            &&& matrix.apply(v.curves[c].points[i].position) == Some(handle)
            &&& t.position(c, i + 1) == joint
            &&& t.position(q, 0) == joint
            &&& match v.continuities[c] {
                Continuity::Positional => facing == v.curves[q].points[1].position,
                Continuity::Velocity => facing.x - joint.x == joint.x - handle.x && facing.y
                    - joint.y == joint.y - handle.y,
                Continuity::Tangent { beta } => {
                    &&& 2 * abs((facing.x - joint.x) * beta.den - (joint.x - handle.x) * beta.num)
                        <= beta.den
                    &&& 2 * abs((facing.y - joint.y) * beta.den - (joint.y - handle.y) * beta.num)
                        <= beta.den
                },
            }
        }),
{
    let st = stage_of(v, contour_index, idxs, matrix);
    let n = v.curves.len() as int;
    let q = after(n, c);
    lemma_lone_point(v, contour_index, idxs, matrix, c, i);
    assert(is_segment(v.curves[c]));
    assert(is_segment(v.curves[q]));
    assert(v.joined_at(c));
    assert(v.continuities[c].wf());
    let s = st.start();
    let s0 = s.moved(st.frame, c, i).unwrap();
    let handle = s0.position(c, i);
    let joint = v.curves[q].points[0].position;
    assert(st.named[q][1] == false);
    assert(!s0.done[q][1]);
    match v.continuities[c] {
        Continuity::Tangent { beta } => {
            lemma_round_div_error((joint.x - handle.x) * beta.num, beta.den as int);
            lemma_round_div_error((joint.y - handle.y) * beta.num, beta.den as int);
        },
        _ => {},
    }
}

} // verus!
