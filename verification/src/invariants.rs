//! What a pass over a contour keeps.
//!
//! A pass moves every named point by the matrix exactly once, moves the two
//! ends that meet at a join together or not at all, and so leaves every join
//! closed.

use vstd::prelude::*;
use crate::contours::is_segment;
use crate::contours::meets;
use crate::contours::ContourView;
use crate::curves::BezierView;
use crate::propagation::after;
use crate::propagation::before;
use crate::propagation::targets;
use crate::propagation::transformed;
use crate::propagation::Frame;
use crate::propagation::Sweep;
use crate::glyphs::GlyphPointIndex;
use crate::matrix::Matrix;
use crate::points::Point;

verus! {

/// What a pass starts from: the segments as they were, the points that were
/// named, and the frame.
pub struct Stage {
    pub origin: Seq<BezierView>,
    pub named: Seq<Seq<bool>>,
    pub frame: Frame,
}

/// Whether the point `(c, i)` comes before the point `(pc, pi)` in the order
/// of the visits.
pub open spec fn comes_before(c: int, i: int, pc: int, pi: int) -> bool {
    c < pc || (c == pc && i < pi)
}

impl Stage {
    /// The contour that the pass starts from.
    pub open spec fn contour(self) -> ContourView {
        ContourView {
            open: self.frame.open,
            curves: self.origin,
            continuities: self.frame.continuities,
        }
    }

    /// Whether the contour is well formed and every point has its mark.
    pub open spec fn wf(self) -> bool {
        &&& self.contour().wf()
        &&& self.named.len() == self.origin.len()
        &&& forall|c: int|
            0 <= c < self.origin.len() ==> (#[trigger] self.named[c]).len()
                == self.origin[c].points.len()
    }

    /// The state in which the pass starts.
    pub open spec fn start(self) -> Sweep {
        Sweep { curves: self.origin, done: self.named, log: Seq::empty() }
    }

    /// Where the point `(c, i)` stood at the start.
    pub open spec fn position(self, c: int, i: int) -> Point {
        self.origin[c].points[i].position
    }

    /// Whether the point across the join from the end `(c, i)` was named and
    /// has been visited when the pass has come to `(pc, pi)`.
    pub open spec fn twin_visited(self, c: int, i: int, pc: int, pi: int) -> bool {
        let n = self.origin.len() as int;
        if i == 0 {
            let p = before(n, c);
            let last = self.origin[p].points.len() - 1;
            self.frame.joined_before(c) && self.named[p][last] && comes_before(p, last, pc, pi)
        } else {
            let q = after(n, c);
            self.frame.joined_after(n, c) && self.named[q][0] && comes_before(q, 0, pc, pi)
        }
    }

    /// Whether the point `(c, i)` stands where it should in the state `s`:
    /// moved by the matrix, or where it was.
    pub open spec fn stands(self, s: Sweep, c: int, i: int, moved: bool) -> bool {
        if moved {
            self.frame.matrix.apply(self.position(c, i)) == Some(s.position(c, i))
        } else {
            s.position(c, i) == self.position(c, i)
        }
    }

    /// What holds of the point `(c, i)` when the pass has come to `(pc, pi)`.
    ///
    /// A named point is spoken for, and has been moved by the matrix if it
    /// has been visited. An end that was not named has been moved by the
    /// matrix if the point across the join was named and has been visited.
    pub open spec fn point_kept(self, s: Sweep, c: int, i: int, pc: int, pi: int) -> bool {
        if self.named[c][i] {
            s.done[c][i] && self.stands(s, c, i, comes_before(c, i, pc, pi))
        } else if i == 0 || i == self.origin[c].points.len() - 1 {
            s.done[c][i] == self.twin_visited(c, i, pc, pi) && self.stands(
                s,
                c,
                i,
                self.twin_visited(c, i, pc, pi),
            )
        } else {
            true
        }
    }

    /// Whether the state `s` has the shape and the identifiers of the start.
    pub open spec fn shape_kept(self, s: Sweep) -> bool {
        &&& s.sound()
        &&& s.curves.len() == self.origin.len()
        &&& forall|c: int|
            0 <= c < self.origin.len() ==> (#[trigger] s.curves[c]).points.len()
                == self.origin[c].points.len() && s.curves[c].smooth == self.origin[c].smooth
        &&& forall|c: int, i: int|
            0 <= c < self.origin.len() && 0 <= i < self.origin[c].points.len() ==> (
            #[trigger] s.curves[c].points[i]).uuid == self.origin[c].points[i].uuid
    }

    /// What holds of the state `s` when the pass has come to `(pc, pi)`.
    pub open spec fn kept(self, s: Sweep, pc: int, pi: int) -> bool {
        &&& self.shape_kept(s)
        &&& forall|c: int, i: int|
            0 <= c < self.origin.len() && 0 <= i < self.origin[c].points.len()
                ==> #[trigger] self.point_kept(s, c, i, pc, pi)
    }
}

/// The invariant holds at the start.
pub proof fn lemma_start_kept(st: Stage)
    requires
        st.wf(),
    ensures
        st.kept(st.start(), 0, 0),
{
    let s = st.start();
    assert forall|c: int| 0 <= c < s.curves.len() implies is_segment(#[trigger] s.curves[c]) by {
        assert(is_segment(st.contour().curves[c]));
    }
}

/// Passing over a point that was not named keeps the invariant.
pub proof fn lemma_skip_kept(st: Stage, s: Sweep, c: int, i: int)
    requires
        st.wf(),
        0 <= c < st.origin.len(),
        0 <= i < st.origin[c].points.len(),
        !st.named[c][i],
        st.kept(s, c, i),
    ensures
        st.kept(s, c, i + 1),
{
    assert forall|d: int, j: int|
        0 <= d < st.origin.len() && 0 <= j < st.origin[d].points.len() implies #[trigger] st.point_kept(
        s,
        d,
        j,
        c,
        i + 1,
    ) by {
        assert(st.point_kept(s, d, j, c, i));
    }
}

/// Going on to the next segment keeps the invariant.
pub proof fn lemma_turn_kept(st: Stage, s: Sweep, c: int)
    requires
        st.wf(),
        0 <= c < st.origin.len(),
        st.kept(s, c, st.origin[c].points.len() as int),
    ensures
        st.kept(s, c + 1, 0),
{
    let len = st.origin[c].points.len() as int;
    assert forall|d: int, j: int|
        0 <= d < st.origin.len() && 0 <= j < st.origin[d].points.len() implies #[trigger] st.point_kept(
        s,
        d,
        j,
        c + 1,
        0,
    ) by {
        assert(st.point_kept(s, d, j, c, len));
        assert(is_segment(st.contour().curves[d]));
        let n = st.origin.len() as int;
        assert(is_segment(st.contour().curves[before(n, d)]));
        assert(is_segment(st.contour().curves[after(n, d)]));
    }
}

/// What putting one point in place changes: that point, and nothing else.
pub proof fn lemma_placed_effect(st: Stage, s: Sweep, c: int, i: int, p: Point)
    requires
        st.shape_kept(s),
        0 <= c < st.origin.len(),
        0 <= i < st.origin[c].points.len(),
    ensures
        st.shape_kept(s.placed(st.frame.contour_index, c, i, p)),
        s.placed(st.frame.contour_index, c, i, p).position(c, i) == p,
        s.placed(st.frame.contour_index, c, i, p).done[c][i],
        forall|d: int, j: int|
            0 <= d < st.origin.len() && 0 <= j < st.origin[d].points.len() && !(d == c && j == i)
                ==> #[trigger] s.placed(st.frame.contour_index, c, i, p).position(d, j)
                == s.position(d, j),
        forall|d: int, j: int|
            0 <= d < st.origin.len() && 0 <= j < st.origin[d].points.len() && !(d == c && j == i)
                ==> #[trigger] s.placed(st.frame.contour_index, c, i, p).done[d][j] == s.done[d][j],
{
    let t = s.placed(st.frame.contour_index, c, i, p);
    assert(s.curves[c].points.len() == st.origin[c].points.len());
    assert forall|d: int| 0 <= d < t.curves.len() implies is_segment(#[trigger] t.curves[d]) by {
        assert(is_segment(s.curves[d]));
    }
    assert forall|d: int| 0 <= d < t.curves.len() implies (#[trigger] t.done[d]).len()
        == t.curves[d].points.len() by {
        assert(s.done[d].len() == s.curves[d].points.len());
    }
    assert forall|d: int| 0 <= d < st.origin.len() implies (#[trigger] t.curves[d]).points.len()
        == st.origin[d].points.len() && t.curves[d].smooth == st.origin[d].smooth by {
        assert(s.curves[d].points.len() == st.origin[d].points.len());
    }
    assert forall|d: int, j: int|
        0 <= d < st.origin.len() && 0 <= j < st.origin[d].points.len() implies (
    #[trigger] t.curves[d].points[j]).uuid == st.origin[d].points[j].uuid by {
        assert(s.curves[d].points.len() == st.origin[d].points.len());
        assert(s.curves[d].points[j].uuid == st.origin[d].points[j].uuid);
    }
    assert forall|d: int, j: int|
        0 <= d < st.origin.len() && 0 <= j < st.origin[d].points.len() && !(d == c && j
            == i) implies #[trigger] t.position(d, j) == s.position(d, j) by {
        assert(s.curves[d].points.len() == st.origin[d].points.len());
    }
    assert forall|d: int, j: int|
        0 <= d < st.origin.len() && 0 <= j < st.origin[d].points.len() && !(d == c && j
            == i) implies #[trigger] t.done[d][j] == s.done[d][j] by {
        assert(s.done[d].len() == s.curves[d].points.len());
        assert(s.curves[d].points.len() == st.origin[d].points.len());
    }
}

/// What reaching a point changes: the point, if it was not spoken for, and
/// nothing else.
pub proof fn lemma_reached_effect(st: Stage, s: Sweep, c: int, i: int)
    requires
        st.shape_kept(s),
        0 <= c < st.origin.len(),
        0 <= i < st.origin[c].points.len(),
        s.reached(st.frame, c, i) is Some,
    ensures
        st.shape_kept(s.reached(st.frame, c, i).unwrap()),
        s.reached(st.frame, c, i).unwrap().done[c][i],
        s.done[c][i] ==> s.reached(st.frame, c, i).unwrap() == s,
        !s.done[c][i] ==> st.frame.matrix.apply(s.position(c, i)) == Some(
            s.reached(st.frame, c, i).unwrap().position(c, i),
        ),
        forall|d: int, j: int|
            0 <= d < st.origin.len() && 0 <= j < st.origin[d].points.len() && !(d == c && j == i)
                ==> #[trigger] s.reached(st.frame, c, i).unwrap().position(d, j) == s.position(
                d,
                j,
            ),
        forall|d: int, j: int|
            0 <= d < st.origin.len() && 0 <= j < st.origin[d].points.len() && !(d == c && j == i)
                ==> #[trigger] s.reached(st.frame, c, i).unwrap().done[d][j] == s.done[d][j],
{
    if !s.done[c][i] {
        lemma_placed_effect(st, s, c, i, st.frame.matrix.apply(s.position(c, i)).unwrap());
    }
}

/// The visit of an end that starts a segment keeps the invariant.
proof fn lemma_first_end_kept(st: Stage, s: Sweep, c: int)
    requires
        st.wf(),
        0 <= c < st.origin.len(),
        st.named[c][0],
        st.kept(s, c, 0),
        s.visited(st.frame, c, 0) is Some,
    ensures
        st.kept(s.visited(st.frame, c, 0).unwrap(), c, 1),
{
    let f = st.frame;
    let n = st.origin.len() as int;
    let p = before(n, c);
    let lp = st.origin[p].points.len() as int;
    let len = st.origin[c].points.len() as int;
    assert(is_segment(st.contour().curves[c]));
    assert(is_segment(st.contour().curves[p]));
    assert(s.curves[c].points.len() == len);
    assert(s.curves[p].points.len() == lp);
    assert(st.point_kept(s, c, 0, c, 0));
    let s0 = s.moved(f, c, 0).unwrap();
    lemma_placed_effect(st, s, c, 0, f.matrix.apply(s.position(c, 0)).unwrap());
    assert(s0.curves[c].points.len() == len);
    assert(s0.curves[p].points.len() == lp);
    let s1 = if len > 2 {
        s0.reached(f, c, 1).unwrap()
    } else {
        s0
    };
    if len > 2 {
        lemma_reached_effect(st, s0, c, 1);
    }
    assert(s1.curves[p].points.len() == lp);
    let t = s.visited(f, c, 0).unwrap();
    if f.joined_before(c) {
        let s2 = s1.reached(f, p, lp - 1).unwrap();
        lemma_reached_effect(st, s1, p, lp - 1);
        assert(s2.curves[p].points.len() == lp);
        if lp > 2 {
            lemma_reached_effect(st, s2, p, lp - 2);
        }
        assert forall|d: int, j: int|
            0 <= d < st.origin.len() && 0 <= j < st.origin[d].points.len() implies #[trigger] st.point_kept(
            t,
            d,
            j,
            c,
            1,
        ) by {
            assert(st.point_kept(s, d, j, c, 0));
            assert(is_segment(st.contour().curves[d]));
            assert(is_segment(st.contour().curves[before(n, d)]));
            assert(is_segment(st.contour().curves[after(n, d)]));
        }
    } else {
        assert forall|d: int, j: int|
            0 <= d < st.origin.len() && 0 <= j < st.origin[d].points.len() implies #[trigger] st.point_kept(
            t,
            d,
            j,
            c,
            1,
        ) by {
            assert(st.point_kept(s, d, j, c, 0));
            assert(is_segment(st.contour().curves[d]));
            assert(is_segment(st.contour().curves[before(n, d)]));
            assert(is_segment(st.contour().curves[after(n, d)]));
        }
    }
}

/// The visit of an end that finishes a segment keeps the invariant.
proof fn lemma_last_end_kept(st: Stage, s: Sweep, c: int)
    requires
        st.wf(),
        0 <= c < st.origin.len(),
        st.named[c][st.origin[c].points.len() - 1],
        st.kept(s, c, st.origin[c].points.len() - 1),
        s.visited(st.frame, c, st.origin[c].points.len() - 1) is Some,
    ensures
        st.kept(
            s.visited(st.frame, c, st.origin[c].points.len() - 1).unwrap(),
            c,
            st.origin[c].points.len() as int,
        ),
{
    let f = st.frame;
    let n = st.origin.len() as int;
    let q = after(n, c);
    let lq = st.origin[q].points.len() as int;
    let len = st.origin[c].points.len() as int;
    let i = len - 1;
    assert(is_segment(st.contour().curves[c]));
    assert(is_segment(st.contour().curves[q]));
    assert(s.curves[c].points.len() == len);
    assert(s.curves[q].points.len() == lq);
    assert(st.point_kept(s, c, i, c, i));
    let s0 = s.moved(f, c, i).unwrap();
    lemma_placed_effect(st, s, c, i, f.matrix.apply(s.position(c, i)).unwrap());
    assert(s0.curves[c].points.len() == len);
    assert(s0.curves[q].points.len() == lq);
    let s1 = if len > 2 {
        s0.reached(f, c, i - 1).unwrap()
    } else {
        s0
    };
    if len > 2 {
        lemma_reached_effect(st, s0, c, i - 1);
    }
    assert(s1.curves[q].points.len() == lq);
    let t = s.visited(f, c, i).unwrap();
    if f.joined_after(n, c) {
        let s2 = s1.reached(f, q, 0).unwrap();
        lemma_reached_effect(st, s1, q, 0);
        assert(s2.curves[q].points.len() == lq);
        if lq > 2 {
            lemma_reached_effect(st, s2, q, 1);
        }
        assert forall|d: int, j: int|
            0 <= d < st.origin.len() && 0 <= j < st.origin[d].points.len() implies #[trigger] st.point_kept(
            t,
            d,
            j,
            c,
            len,
        ) by {
            assert(st.point_kept(s, d, j, c, i));
            assert(is_segment(st.contour().curves[d]));
            assert(is_segment(st.contour().curves[before(n, d)]));
            assert(is_segment(st.contour().curves[after(n, d)]));
        }
    } else {
        assert forall|d: int, j: int|
            0 <= d < st.origin.len() && 0 <= j < st.origin[d].points.len() implies #[trigger] st.point_kept(
            t,
            d,
            j,
            c,
            len,
        ) by {
            assert(st.point_kept(s, d, j, c, i));
            assert(is_segment(st.contour().curves[d]));
            assert(is_segment(st.contour().curves[before(n, d)]));
            assert(is_segment(st.contour().curves[after(n, d)]));
        }
    }
}

/// The visit of a handle keeps the invariant.
proof fn lemma_handle_kept(st: Stage, s: Sweep, c: int, i: int)
    requires
        st.wf(),
        0 <= c < st.origin.len(),
        0 < i < st.origin[c].points.len() - 1,
        st.named[c][i],
        st.kept(s, c, i),
        s.visited(st.frame, c, i) is Some,
    ensures
        st.kept(s.visited(st.frame, c, i).unwrap(), c, i + 1),
{
    let f = st.frame;
    let n = st.origin.len() as int;
    let p = before(n, c);
    let q = after(n, c);
    let lp = st.origin[p].points.len() as int;
    let lq = st.origin[q].points.len() as int;
    let len = st.origin[c].points.len() as int;
    assert(is_segment(st.contour().curves[c]));
    assert(is_segment(st.contour().curves[p]));
    assert(is_segment(st.contour().curves[q]));
    assert(s.curves[c].points.len() == len);
    assert(s.curves[p].points.len() == lp);
    assert(s.curves[q].points.len() == lq);
    assert(st.point_kept(s, c, i, c, i));
    let s0 = s.moved(f, c, i).unwrap();
    lemma_placed_effect(st, s, c, i, f.matrix.apply(s.position(c, i)).unwrap());
    assert(s0.curves[c].points.len() == len);
    assert(s0.curves[p].points.len() == lp);
    assert(s0.curves[q].points.len() == lq);
    let t = s.visited(f, c, i).unwrap();
    if t != s0 {
        if i == 1 {
            assert(!s0.done[p][lp - 2]);
            assert(st.point_kept(s, p, lp - 2, c, i));
            lemma_placed_effect(st, s0, p, lp - 2, t.position(p, lp - 2));
            assert(t == s0.placed(f.contour_index, p, lp - 2, t.position(p, lp - 2)));
        } else {
            assert(!s0.done[q][1]);
            assert(st.point_kept(s, q, 1, c, i));
            lemma_placed_effect(st, s0, q, 1, t.position(q, 1));
            assert(t == s0.placed(f.contour_index, q, 1, t.position(q, 1)));
        }
    }
    assert forall|d: int, j: int|
        0 <= d < st.origin.len() && 0 <= j < st.origin[d].points.len() implies #[trigger] st.point_kept(
        t,
        d,
        j,
        c,
        i + 1,
    ) by {
        assert(st.point_kept(s, d, j, c, i));
        assert(is_segment(st.contour().curves[d]));
        assert(is_segment(st.contour().curves[before(n, d)]));
        assert(is_segment(st.contour().curves[after(n, d)]));
    }
}

/// The visit of a named point keeps the invariant.
pub proof fn lemma_visit_kept(st: Stage, s: Sweep, c: int, i: int)
    requires
        st.wf(),
        0 <= c < st.origin.len(),
        0 <= i < st.origin[c].points.len(),
        st.named[c][i],
        st.kept(s, c, i),
        s.visited(st.frame, c, i) is Some,
    ensures
        st.kept(s.visited(st.frame, c, i).unwrap(), c, i + 1),
{
    assert(s.curves[c].points.len() == st.origin[c].points.len());
    if i == 0 {
        lemma_first_end_kept(st, s, c);
    } else if i + 1 == st.origin[c].points.len() {
        lemma_last_end_kept(st, s, c);
    } else {
        lemma_handle_kept(st, s, c, i);
    }
}

/// The visits of the named points of one segment keep the invariant.
pub proof fn lemma_swept_curve_kept(st: Stage, s: Sweep, c: int, upto: int)
    requires
        st.wf(),
        0 <= c < st.origin.len(),
        0 <= upto <= st.origin[c].points.len(),
        st.kept(s, c, 0),
        s.swept_curve(st.frame, st.named, c, upto) is Some,
    ensures
        st.kept(s.swept_curve(st.frame, st.named, c, upto).unwrap(), c, upto),
    decreases upto,
{
    if upto > 0 {
        lemma_swept_curve_kept(st, s, c, upto - 1);
        let t = s.swept_curve(st.frame, st.named, c, upto - 1).unwrap();
        if st.named[c][upto - 1] {
            lemma_visit_kept(st, t, c, upto - 1);
        } else {
            lemma_skip_kept(st, t, c, upto - 1);
        }
    }
}

/// The visits of the named points of the first segments keep the invariant.
pub proof fn lemma_swept_kept(st: Stage, upto: int)
    requires
        st.wf(),
        0 <= upto <= st.origin.len(),
        st.start().swept(st.frame, st.named, upto) is Some,
    ensures
        st.kept(st.start().swept(st.frame, st.named, upto).unwrap(), upto, 0),
    decreases upto,
{
    if upto > 0 {
        lemma_swept_kept(st, upto - 1);
        let t = st.start().swept(st.frame, st.named, upto - 1).unwrap();
        lemma_swept_curve_kept(st, t, upto - 1, st.origin[upto - 1].points.len() as int);
        lemma_turn_kept(
            st,
            t.swept_curve(
                st.frame,
                st.named,
                upto - 1,
                st.named[upto - 1].len() as int,
            ).unwrap(),
            upto - 1,
        );
    } else {
        lemma_start_kept(st);
    }
}

/// The stage on which `transformed` runs its pass.
pub open spec fn stage_of(
    v: ContourView,
    contour_index: usize,
    idxs: Seq<GlyphPointIndex>,
    matrix: Matrix,
) -> Stage {
    Stage {
        origin: v.curves,
        named: targets(v.curves, contour_index, idxs),
        frame: Frame { contour_index, open: v.open, continuities: v.continuities, matrix },
    }
}

/// A move leaves every join closed, moves every named point by the matrix,
/// and keeps the shape of the contour and every identifier.
///
/// The contour that a pass leaves is well formed again; each point that was
/// named stands where the matrix sends the place at which it stood.
pub proof fn lemma_transformed_keeps_joins(
    v: ContourView,
    contour_index: usize,
    idxs: Seq<GlyphPointIndex>,
    matrix: Matrix,
)
    requires
        v.wf(),
        transformed(v, contour_index, idxs, matrix) is Some,
    ensures
        (ContourView {
            curves: transformed(v, contour_index, idxs, matrix).unwrap().curves,
            ..v
        }).wf(),
        stage_of(v, contour_index, idxs, matrix).shape_kept(
            transformed(v, contour_index, idxs, matrix).unwrap(),
        ),
        forall|c: int, i: int|
            0 <= c < v.curves.len() && 0 <= i < v.curves[c].points.len() && #[trigger] targets(
                v.curves,
                contour_index,
                idxs,
            )[c][i] ==> matrix.apply(v.curves[c].points[i].position) == Some(
                transformed(v, contour_index, idxs, matrix).unwrap().position(c, i),
            ),
{
    let st = stage_of(v, contour_index, idxs, matrix);
    let n = v.curves.len() as int;
    assert(st.contour() == v);
    lemma_swept_kept(st, n);
    let t = transformed(v, contour_index, idxs, matrix).unwrap();
    let w = ContourView { curves: t.curves, ..v };
    assert forall|c: int| 0 <= c < w.curves.len() implies is_segment(#[trigger] w.curves[c]) by {
        assert(is_segment(v.curves[c]));
    }
    assert forall|j: int| 0 <= j < w.joins() implies #[trigger] w.joined_at(j) by {
        let k = after(n, j);
        let last = v.curves[j].points.len() - 1;
        assert(v.joined_at(j));
        assert(is_segment(v.curves[j]));
        assert(is_segment(v.curves[k]));
        assert(st.point_kept(t, j, last, n, 0));
        assert(st.point_kept(t, k, 0, n, 0));
        assert(before(n, k) == j);
        assert(meets(w.curves[j], w.curves[k]));
    }
    assert forall|c: int, i: int|
        0 <= c < v.curves.len() && 0 <= i < v.curves[c].points.len() && #[trigger] targets(
            v.curves,
            contour_index,
            idxs,
        )[c][i] implies matrix.apply(v.curves[c].points[i].position) == Some(
        t.position(c, i),
    ) by {
        assert(st.point_kept(t, c, i, n, 0));
    }
}

impl Stage {
    /// The name under which the move of the point `(c, i)` to `p` is
    /// reported.
    pub open spec fn entry(self, c: int, i: int, p: Point) -> (GlyphPointIndex, Point) {
        (
            GlyphPointIndex {
                contour_index: self.frame.contour_index,
                curve_index: c as usize,
                uuid: self.origin[c].points[i].uuid,
            },
            p,
        )
    }

    /// Whether `(c, i)` is a point of the contour.
    pub open spec fn has(self, c: int, i: int) -> bool {
        0 <= c < self.origin.len() && 0 <= i < self.origin[c].points.len()
    }

    /// Whether the point `(c, i)` has been moved or set when the pass has
    /// come to `(pc, pi)`.
    pub open spec fn touched(self, s: Sweep, c: int, i: int, pc: int, pi: int) -> bool {
        s.done[c][i] && (!self.named[c][i] || comes_before(c, i, pc, pi))
    }

    /// Whether the `k`-th report is that of the point `(c, i)` and the place
    /// where it stands.
    pub open spec fn reports(self, s: Sweep, k: int, c: int, i: int) -> bool {
        0 <= k < s.log.len() && s.log[k] == self.entry(c, i, s.position(c, i))
    }

    /// Whether the point `(c, i)` is reported with the place where it
    /// stands.
    pub open spec fn reported(self, s: Sweep, c: int, i: int) -> bool {
        exists|k: int| #[trigger] self.reports(s, k, c, i)
    }

    /// Whether the `k`-th report is that of the point `(c, i)`, which has
    /// been moved or set.
    pub open spec fn backs(self, s: Sweep, k: int, c: int, i: int, pc: int, pi: int) -> bool {
        self.has(c, i) && self.touched(s, c, i, pc, pi) && self.reports(s, k, c, i)
    }

    /// What holds of the point `(c, i)` and the reports: a point that has
    /// been moved or set is reported with the place where it stands, and
    /// every other point stands where it stood.
    pub open spec fn point_told(self, s: Sweep, c: int, i: int, pc: int, pi: int) -> bool {
        &&& self.named[c][i] ==> s.done[c][i]
        &&& if self.touched(s, c, i, pc, pi) {
            self.reported(s, c, i)
        } else {
            s.position(c, i) == self.position(c, i)
        }
    }

    /// What holds of the `k`-th report: it is that of a point that has been
    /// moved or set, with the place where the point stands.
    pub open spec fn report_true(self, s: Sweep, k: int, pc: int, pi: int) -> bool {
        exists|c: int, i: int| #[trigger] self.backs(s, k, c, i, pc, pi)
    }

    /// Whether the `k`-th report is that of a point of the contour, with the
    /// place where the point stands.
    pub open spec fn report_named(self, s: Sweep, k: int) -> bool {
        exists|c: int, i: int| self.has(c, i) && #[trigger] self.reports(s, k, c, i)
    }

    /// Whether no two points of one segment bear the same identifier.
    pub open spec fn distinct(self) -> bool {
        &&& self.origin.len() <= usize::MAX
        &&& forall|c: int, i: int, j: int|
            self.has(c, i) && self.has(c, j) && i != j ==> (
            #[trigger] self.origin[c].points[i]).uuid != (#[trigger] self.origin[c].points[j]).uuid
    }

    /// Whether no two reports bear the same name.
    pub open spec fn told_once(self, s: Sweep) -> bool {
        forall|k: int, l: int|
            0 <= k < l < s.log.len() ==> (#[trigger] s.log[k]).0 != (#[trigger] s.log[l]).0
    }

    /// What holds of the reports when the pass has come to `(pc, pi)`.
    pub open spec fn told(self, s: Sweep, pc: int, pi: int) -> bool {
        &&& self.shape_kept(s)
        &&& forall|c: int, i: int| self.has(c, i) ==> #[trigger] self.point_told(s, c, i, pc, pi)
        &&& forall|k: int| 0 <= k < s.log.len() ==> #[trigger] self.report_true(s, k, pc, pi)
        &&& self.distinct() ==> self.told_once(s)
    }
}

/// Putting a point in place that has not been moved or set keeps the reports
/// true, when the pass is at `(pc, pi)` after it.
proof fn lemma_placed_told(
    st: Stage,
    s: Sweep,
    c: int,
    i: int,
    p: Point,
    pc0: int,
    pi0: int,
    pc: int,
    pi: int,
)
    requires
        st.wf(),
        st.has(c, i),
        st.told(s, pc0, pi0),
        !st.touched(s, c, i, pc0, pi0),
        st.named[c][i] ==> comes_before(c, i, pc, pi),
        forall|d: int, j: int|
            st.has(d, j) && !(d == c && j == i) ==> (#[trigger] comes_before(d, j, pc, pi)
                == comes_before(d, j, pc0, pi0)),
    ensures
        st.told(s.placed(st.frame.contour_index, c, i, p), pc, pi),
{
    let t = s.placed(st.frame.contour_index, c, i, p);
    lemma_placed_effect(st, s, c, i, p);
    let n = s.log.len() as int;
    assert(t.log.len() == n + 1);
    assert(t.log[n] == st.entry(c, i, p));
    assert(st.point_told(s, c, i, pc0, pi0));
    assert forall|d: int, j: int| st.has(d, j) implies #[trigger] st.point_told(t, d, j, pc, pi) by {
        assert(st.point_told(s, d, j, pc0, pi0));
        if d == c && j == i {
            assert(st.reports(t, n, c, i));
        } else {
            assert(t.position(d, j) == s.position(d, j));
            assert(t.done[d][j] == s.done[d][j]);
            assert(comes_before(d, j, pc, pi) == comes_before(d, j, pc0, pi0));
            if st.touched(s, d, j, pc0, pi0) {
                let k = choose|k: int| #[trigger] st.reports(s, k, d, j);
                assert(t.log[k] == s.log[k]);
                assert(st.reports(t, k, d, j));
            }
        }
    }
    assert forall|k: int| 0 <= k < t.log.len() implies #[trigger] st.report_true(t, k, pc, pi) by {
        if k == n {
            assert(st.backs(t, n, c, i, pc, pi));
        } else {
            assert(st.report_true(s, k, pc0, pi0));
            let (d, j) = choose|d: int, j: int| #[trigger] st.backs(s, k, d, j, pc0, pi0);
            assert(!(d == c && j == i));
            assert(t.position(d, j) == s.position(d, j));
            assert(t.done[d][j] == s.done[d][j]);
            assert(comes_before(d, j, pc, pi) == comes_before(d, j, pc0, pi0));
            assert(t.log[k] == s.log[k]);
            assert(st.backs(t, k, d, j, pc, pi));
        }
    }
    if st.distinct() {
        assert forall|k: int, l: int| 0 <= k < l < t.log.len() implies (#[trigger] t.log[k]).0 != (
        #[trigger] t.log[l]).0 by {
            assert(t.log[k] == s.log[k]);
            if l == n {
                assert(st.report_true(s, k, pc0, pi0));
                let (d, j) = choose|d: int, j: int| #[trigger] st.backs(s, k, d, j, pc0, pi0);
                assert(!(d == c && j == i));
                assert(s.log[k] == st.entry(d, j, s.position(d, j)));
                if d == c {
                    assert(st.origin[c].points[i].uuid != st.origin[c].points[j].uuid);
                } else {
                    assert(d as usize != c as usize);
                }
            } else {
                assert(t.log[l] == s.log[l]);
            }
        }
    }
}

/// Reaching a point keeps the reports true.
proof fn lemma_reached_told(st: Stage, s: Sweep, c: int, i: int, pc: int, pi: int)
    requires
        st.wf(),
        st.has(c, i),
        st.told(s, pc, pi),
        s.reached(st.frame, c, i) is Some,
    ensures
        st.told(s.reached(st.frame, c, i).unwrap(), pc, pi),
{
    if !s.done[c][i] {
        assert(st.point_told(s, c, i, pc, pi));
        lemma_placed_told(
            st,
            s,
            c,
            i,
            st.frame.matrix.apply(s.position(c, i)).unwrap(),
            pc,
            pi,
            pc,
            pi,
        );
    }
}

/// The visit of a named point keeps the reports true.
pub proof fn lemma_visit_told(st: Stage, s: Sweep, c: int, i: int)
    requires
        st.wf(),
        st.has(c, i),
        st.named[c][i],
        st.told(s, c, i),
        s.visited(st.frame, c, i) is Some,
    ensures
        st.told(s.visited(st.frame, c, i).unwrap(), c, i + 1),
{
    let f = st.frame;
    let n = st.origin.len() as int;
    let p = before(n, c);
    let q = after(n, c);
    let len = st.origin[c].points.len() as int;
    let lp = st.origin[p].points.len() as int;
    let lq = st.origin[q].points.len() as int;
    assert(is_segment(st.contour().curves[c]));
    assert(is_segment(st.contour().curves[p]));
    assert(is_segment(st.contour().curves[q]));
    assert(s.curves[c].points.len() == len);
    assert(s.curves[p].points.len() == lp);
    assert(s.curves[q].points.len() == lq);
    let s0 = s.moved(f, c, i).unwrap();
    lemma_placed_told(st, s, c, i, f.matrix.apply(s.position(c, i)).unwrap(), c, i, c, i + 1);
    assert(s0.curves[c].points.len() == len);
    assert(s0.curves[p].points.len() == lp);
    assert(s0.curves[q].points.len() == lq);
    if i == 0 {
        let s1 = if len > 2 {
            s0.reached(f, c, 1).unwrap()
        } else {
            s0
        };
        if len > 2 {
            lemma_reached_told(st, s0, c, 1, c, i + 1);
        }
        assert(s1.curves[p].points.len() == lp);
        if f.joined_before(c) {
            let s2 = s1.reached(f, p, lp - 1).unwrap();
            lemma_reached_told(st, s1, p, lp - 1, c, i + 1);
            assert(s2.curves[p].points.len() == lp);
            if lp > 2 {
                lemma_reached_told(st, s2, p, lp - 2, c, i + 1);
            }
        }
    } else if i + 1 == len {
        let s1 = if len > 2 {
            s0.reached(f, c, i - 1).unwrap()
        } else {
            s0
        };
        if len > 2 {
            lemma_reached_told(st, s0, c, i - 1, c, i + 1);
        }
        assert(s1.curves[q].points.len() == lq);
        if f.joined_after(n, c) {
            let s2 = s1.reached(f, q, 0).unwrap();
            lemma_reached_told(st, s1, q, 0, c, i + 1);
            assert(s2.curves[q].points.len() == lq);
            if lq > 2 {
                lemma_reached_told(st, s2, q, 1, c, i + 1);
            }
        }
    } else {
        let t = s.visited(f, c, i).unwrap();
        if t != s0 {
            if i == 1 {
                assert(!s0.done[p][lp - 2]);
                assert(t == s0.placed(f.contour_index, p, lp - 2, t.position(p, lp - 2)));
                assert(st.point_told(s0, p, lp - 2, c, i + 1));
                lemma_placed_told(st, s0, p, lp - 2, t.position(p, lp - 2), c, i + 1, c, i + 1);
            } else {
                assert(!s0.done[q][1]);
                assert(t == s0.placed(f.contour_index, q, 1, t.position(q, 1)));
                assert(st.point_told(s0, q, 1, c, i + 1));
                lemma_placed_told(st, s0, q, 1, t.position(q, 1), c, i + 1, c, i + 1);
            }
        }
    }
}

/// Passing over a point that was not named keeps the reports true.
proof fn lemma_skip_told(st: Stage, s: Sweep, c: int, i: int)
    requires
        st.wf(),
        st.has(c, i),
        !st.named[c][i],
        st.told(s, c, i),
    ensures
        st.told(s, c, i + 1),
{
    assert forall|d: int, j: int| st.has(d, j) implies #[trigger] st.point_told(s, d, j, c, i + 1) by {
        assert(st.point_told(s, d, j, c, i));
    }
    assert forall|k: int| 0 <= k < s.log.len() implies #[trigger] st.report_true(s, k, c, i + 1) by {
        assert(st.report_true(s, k, c, i));
        let (d, j) = choose|d: int, j: int| #[trigger] st.backs(s, k, d, j, c, i);
        assert(st.backs(s, k, d, j, c, i + 1));
    }
}

/// Going on to the next segment keeps the reports true.
proof fn lemma_turn_told(st: Stage, s: Sweep, c: int)
    requires
        st.wf(),
        0 <= c < st.origin.len(),
        st.told(s, c, st.origin[c].points.len() as int),
    ensures
        st.told(s, c + 1, 0),
{
    let len = st.origin[c].points.len() as int;
    assert forall|d: int, j: int| st.has(d, j) implies #[trigger] st.point_told(s, d, j, c + 1, 0) by {
        assert(st.point_told(s, d, j, c, len));
    }
    assert forall|k: int| 0 <= k < s.log.len() implies #[trigger] st.report_true(s, k, c + 1, 0) by {
        assert(st.report_true(s, k, c, len));
        let (d, j) = choose|d: int, j: int| #[trigger] st.backs(s, k, d, j, c, len);
        assert(st.backs(s, k, d, j, c + 1, 0));
    }
}

/// The visits of the named points of one segment keep the reports true.
proof fn lemma_swept_curve_told(st: Stage, s: Sweep, c: int, upto: int)
    requires
        st.wf(),
        0 <= c < st.origin.len(),
        0 <= upto <= st.origin[c].points.len(),
        st.told(s, c, 0),
        s.swept_curve(st.frame, st.named, c, upto) is Some,
    ensures
        st.told(s.swept_curve(st.frame, st.named, c, upto).unwrap(), c, upto),
    decreases upto,
{
    if upto > 0 {
        lemma_swept_curve_told(st, s, c, upto - 1);
        let t = s.swept_curve(st.frame, st.named, c, upto - 1).unwrap();
        if st.named[c][upto - 1] {
            lemma_visit_told(st, t, c, upto - 1);
        } else {
            lemma_skip_told(st, t, c, upto - 1);
        }
    }
}

/// The visits of the named points of the first segments keep the reports
/// true.
proof fn lemma_swept_told(st: Stage, upto: int)
    requires
        st.wf(),
        0 <= upto <= st.origin.len(),
        st.start().swept(st.frame, st.named, upto) is Some,
    ensures
        st.told(st.start().swept(st.frame, st.named, upto).unwrap(), upto, 0),
    decreases upto,
{
    if upto > 0 {
        lemma_swept_told(st, upto - 1);
        let t = st.start().swept(st.frame, st.named, upto - 1).unwrap();
        lemma_swept_curve_told(st, t, upto - 1, st.origin[upto - 1].points.len() as int);
        lemma_turn_told(
            st,
            t.swept_curve(
                st.frame,
                st.named,
                upto - 1,
                st.named[upto - 1].len() as int,
            ).unwrap(),
            upto - 1,
        );
    } else {
        let s = st.start();
        assert forall|c: int| 0 <= c < s.curves.len() implies is_segment(#[trigger] s.curves[c]) by {
            assert(is_segment(st.contour().curves[c]));
        }
    }
}

/// A move reports every point that it has moved or set, with the place where
/// the point now stands, and reports nothing else and nothing twice.
///
/// Every point of the contour either stands where it stood, or is reported
/// with the place where it stands; every point that was named is reported,
/// whether it stands where it stood or not; every report is that of a point of the
/// contour, with the place where the point stands; and where no two points
/// of a segment bear the same identifier, no two reports bear the same name.
pub proof fn lemma_transformed_reports(
    v: ContourView,
    contour_index: usize,
    idxs: Seq<GlyphPointIndex>,
    matrix: Matrix,
)
    requires
        v.wf(),
        transformed(v, contour_index, idxs, matrix) is Some,
    ensures
        ({
            let st = stage_of(v, contour_index, idxs, matrix);
            let t = transformed(v, contour_index, idxs, matrix).unwrap();
            &&& forall|c: int, i: int|
                st.has(c, i) ==> #[trigger] t.position(c, i) == v.curves[c].points[i].position
                    || st.reported(t, c, i)
            &&& forall|c: int, i: int|
                st.has(c, i) && #[trigger] st.named[c][i] ==> st.reported(t, c, i)
            &&& forall|k: int| 0 <= k < t.log.len() ==> #[trigger] st.report_named(t, k)
            &&& st.distinct() ==> st.told_once(t)
        }),
{
    let st = stage_of(v, contour_index, idxs, matrix);
    let n = v.curves.len() as int;
    assert(st.contour() == v);
    lemma_swept_told(st, n);
    let t = transformed(v, contour_index, idxs, matrix).unwrap();
    assert forall|c: int, i: int| st.has(c, i) implies #[trigger] t.position(c, i)
        == v.curves[c].points[i].position || st.reported(t, c, i) by {
        assert(st.point_told(t, c, i, n, 0));
    }
    assert forall|c: int, i: int| st.has(c, i) && #[trigger] st.named[c][i] implies st.reported(
        t,
        c,
        i,
    ) by {
        assert(st.point_told(t, c, i, n, 0));
    }
    assert forall|k: int| 0 <= k < t.log.len() implies #[trigger] st.report_named(t, k) by {
        assert(st.report_true(t, k, n, 0));
        let (d, j) = choose|d: int, j: int| #[trigger] st.backs(t, k, d, j, n, 0);
        assert(st.has(d, j) && st.reports(t, k, d, j));
    }
}

} // verus!
