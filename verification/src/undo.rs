//! The log of edits: what was done can be undone, and what was undone can be
//! done again.

use vstd::prelude::*;
use crate::actions::change_views;
use crate::actions::changed;
use crate::actions::changes_fit;
use crate::actions::lemma_changed_len;
use crate::actions::lemma_revert_undoes_apply;
use crate::actions::ActionView;
use crate::actions::ChangeView;
use crate::actions::ContourChange;
use crate::actions::EditAction;
use crate::contours::Contour;
use crate::contours::ContourView;
use crate::errors::EditError;
use crate::glyphs::Glyph;
use crate::glyphs::GlyphPointIndex;
use crate::glyphs::GlyphView;
use crate::glyphs::Guideline;
use crate::matrix::Matrix;
use crate::points::Point;
use crate::propagation::transformed;

verus! {

/// The log of the edits of a glyph: the edits that were made, the last on
/// top, and the edits that were undone, the last on top.
#[derive(Debug)]
pub struct UndoLog {
    undo: Vec<EditAction>,
    redo: Vec<EditAction>,
}

/// What a log is, as a value.
pub struct LogView {
    pub undo: Seq<ActionView>,
    pub redo: Seq<ActionView>,
}

/// A glyph together with the log of its edits.
pub struct Session {
    pub glyph: GlyphView,
    pub log: LogView,
}

/// The views of a row of edits.
pub open spec fn action_views(actions: Seq<EditAction>) -> Seq<ActionView> {
    Seq::new(actions.len(), |k: int| actions[k]@)
}

impl View for UndoLog {
    type V = LogView;

    closed spec fn view(&self) -> LogView {
        LogView { undo: action_views(self.undo@), redo: action_views(self.redo@) }
    }
}

impl LogView {
    /// Whether every edit in the log is well formed.
    pub open spec fn wf(self) -> bool {
        &&& forall|k: int| 0 <= k < self.undo.len() ==> (#[trigger] self.undo[k]).wf()
        &&& forall|k: int| 0 <= k < self.redo.len() ==> (#[trigger] self.redo[k]).wf()
    }

    /// The log after `a` was recorded: `a` is the last edit made, and no
    /// edit is left to be made again.
    pub open spec fn recorded(self, a: ActionView) -> LogView {
        LogView { undo: self.undo.push(a), redo: Seq::empty() }
    }
}

impl Session {
    /// The session after one undo: the last edit is taken back and moves to
    /// the edits that can be made again. Without an edit to take back
    /// nothing changes.
    pub open spec fn undone(self) -> Session {
        if self.log.undo.len() == 0 {
            self
        } else {
            let a = self.log.undo.last();
            Session {
                glyph: self.glyph.reverted(a),
                log: LogView { undo: self.log.undo.drop_last(), redo: self.log.redo.push(a) },
            }
        }
    }

    /// The session after one redo: the edit that was undone last is made
    /// again and moves back to the edits made. Without an edit to make again
    /// nothing changes.
    pub open spec fn redone(self) -> Session {
        if self.log.redo.len() == 0 {
            self
        } else {
            let a = self.log.redo.last();
            Session {
                glyph: self.glyph.applied(a),
                log: LogView { undo: self.log.undo.push(a), redo: self.log.redo.drop_last() },
            }
        }
    }

    /// The session after `n` undos.
    pub open spec fn undone_times(self, n: int) -> Session
        decreases n,
    {
        if n <= 0 {
            self
        } else {
            self.undone().undone_times(n - 1)
        }
    }

    /// The session after `n` redos.
    pub open spec fn redone_times(self, n: int) -> Session
        decreases n,
    {
        if n <= 0 {
            self
        } else {
            self.redone_times(n - 1).redone()
        }
    }
}

/// Whether the edits `made` lead to the glyph `g` step by step: each, the
/// last first, was an edit that fitted the glyph before it and made of it
/// the glyph after it.
pub open spec fn retraceable(g: GlyphView, made: Seq<ActionView>) -> bool
    decreases made.len(),
{
    if made.len() == 0 {
        true
    } else {
        let a = made.last();
        &&& g.reverted(a).fits(a)
        &&& g.reverted(a).applied(a) == g
        &&& retraceable(g.reverted(a), made.drop_last())
    }
}

/// Making an edit that fits and recording it keeps the log retraceable.
pub proof fn lemma_record_keeps_retraceable(g: GlyphView, made: Seq<ActionView>, a: ActionView)
    requires
        retraceable(g, made),
        g.fits(a),
    ensures
        retraceable(g.applied(a), made.push(a)),
{
    lemma_revert_undoes_apply(g, a);
    assert(made.push(a).drop_last() =~= made);
}

/// A redo makes good an undo.
pub proof fn lemma_redo_after_undo(s: Session)
    requires
        retraceable(s.glyph, s.log.undo),
    ensures
        s.log.undo.len() > 0 ==> s.undone().redone() == s,
        retraceable(s.undone().glyph, s.undone().log.undo),
{
    if s.log.undo.len() > 0 {
        let a = s.log.undo.last();
        let t = s.undone();
        assert(t.log.redo.last() == a);
        assert(t.log.redo.drop_last() =~= s.log.redo);
        assert(t.log.undo.push(a) =~= s.log.undo);
    }
}

/// After as many undos as one likes, as many redos lead back to where one
/// was: the same glyph, every position and every identifier, and the same
/// log.
pub proof fn lemma_undo_redo_round_trip(s: Session, n: int)
    requires
        retraceable(s.glyph, s.log.undo),
        0 <= n <= s.log.undo.len(),
    ensures
        s.undone_times(n).redone_times(n) == s,
    decreases n,
{
    if n > 0 {
        lemma_redo_after_undo(s);
        let t = s.undone();
        lemma_undo_redo_round_trip(t, n - 1);
        assert(s.undone_times(n) == t.undone_times(n - 1));
    }
}

/// What a move of the named points makes of the first `upto` contours: the
/// contours that it changes, and the points that it moves, or `None` where a
/// point would leave the lattice.
pub open spec fn selection_moved(
    contours: Seq<ContourView>,
    idxs: Seq<GlyphPointIndex>,
    matrix: Matrix,
    upto: int,
) -> Option<(Seq<ChangeView>, Seq<(GlyphPointIndex, Point)>)>
    decreases upto,
{
    if upto <= 0 {
        Some((Seq::empty(), Seq::empty()))
    } else {
        match selection_moved(contours, idxs, matrix, upto - 1) {
            None => None,
            Some((changes, moves)) => match transformed(
                contours[upto - 1],
                (upto - 1) as usize,
                idxs,
                matrix,
            ) {
                None => None,
                Some(s) => if s.log.len() == 0 {
                    Some((changes, moves))
                } else {
                    Some(
                        (
                            changes.push(
                                ChangeView {
                                    index: upto - 1,
                                    before: contours[upto - 1],
                                    after: ContourView { curves: s.curves, ..contours[upto - 1] },
                                },
                            ),
                            moves + s.log,
                        ),
                    )
                },
            },
        }
    }
}

/// Once a point has left the lattice, the move stays void.
pub proof fn lemma_selection_stays_void(
    contours: Seq<ContourView>,
    idxs: Seq<GlyphPointIndex>,
    matrix: Matrix,
    at: int,
    upto: int,
)
    requires
        0 <= at <= upto,
        selection_moved(contours, idxs, matrix, at) is None,
    ensures
        selection_moved(contours, idxs, matrix, upto) is None,
    decreases upto - at,
{
    if at < upto {
        lemma_selection_stays_void(contours, idxs, matrix, at, upto - 1);
    }
}

/// Changes of contours before the `from`-th leave the others as they are.
pub proof fn lemma_changed_elsewhere(
    contours: Seq<ContourView>,
    changes: Seq<ChangeView>,
    upto: int,
    from: int,
)
    requires
        0 <= upto <= changes.len(),
        forall|k: int| 0 <= k < changes.len() ==> (#[trigger] changes[k]).index < from,
    ensures
        forall|c: int|
            from <= c < contours.len() ==> #[trigger] changed(contours, changes, upto)[c]
                == contours[c],
    decreases upto,
{
    if upto > 0 {
        lemma_changed_elsewhere(contours, changes, upto - 1, from);
        lemma_changed_len(contours, changes, upto - 1);
        assert(changes[upto - 1].index < from);
    }
}

/// The changes that a move of points makes fit the contours that it was
/// worked out for, and bring well-formed contours.
pub proof fn lemma_selection_fits(
    contours: Seq<ContourView>,
    idxs: Seq<GlyphPointIndex>,
    matrix: Matrix,
    upto: int,
)
    requires
        0 <= upto <= contours.len(),
        forall|c: int| 0 <= c < contours.len() ==> (#[trigger] contours[c]).wf(),
        selection_moved(contours, idxs, matrix, upto) is Some,
    ensures
        ({
            let changes = selection_moved(contours, idxs, matrix, upto).unwrap().0;
            &&& changes_fit(contours, changes, changes.len() as int)
            &&& forall|k: int|
                0 <= k < changes.len() ==> 0 <= (#[trigger] changes[k]).index < upto
                    && changes[k].before.wf() && changes[k].after.wf()
        }),
    decreases upto,
{
    if upto > 0 {
        lemma_selection_fits(contours, idxs, matrix, upto - 1);
        let prev = selection_moved(contours, idxs, matrix, upto - 1).unwrap().0;
        let s = transformed(contours[upto - 1], (upto - 1) as usize, idxs, matrix).unwrap();
        if s.log.len() != 0 {
            let c = ChangeView {
                index: upto - 1,
                before: contours[upto - 1],
                after: ContourView { curves: s.curves, ..contours[upto - 1] },
            };
            let changes = prev.push(c);
            assert(contours[upto - 1].wf());
            crate::invariants::lemma_transformed_keeps_joins(
                contours[upto - 1],
                (upto - 1) as usize,
                idxs,
                matrix,
            );
            lemma_changes_fit_grows(contours, prev, changes, prev.len() as int);
            lemma_changed_elsewhere(contours, prev, prev.len() as int, upto - 1);
            lemma_changed_same(contours, prev, changes, prev.len() as int);
            assert forall|k: int| 0 <= k < changes.len() implies 0 <= (#[trigger] changes[k]).index
                < upto && changes[k].before.wf() && changes[k].after.wf() by {
                if k < prev.len() {
                    assert(changes[k] == prev[k]);
                }
            }
        }
    }
}

/// The first changes of a longer row change the contours as they do alone.
pub proof fn lemma_changed_same(
    contours: Seq<ContourView>,
    a: Seq<ChangeView>,
    b: Seq<ChangeView>,
    upto: int,
)
    requires
        0 <= upto <= a.len() <= b.len(),
        forall|k: int| 0 <= k < a.len() ==> #[trigger] a[k] == b[k],
    ensures
        changed(contours, a, upto) == changed(contours, b, upto),
    decreases upto,
{
    if upto > 0 {
        lemma_changed_same(contours, a, b, upto - 1);
    }
}

/// The first changes of a longer row fit as they do alone.
pub proof fn lemma_changes_fit_grows(
    contours: Seq<ContourView>,
    a: Seq<ChangeView>,
    b: Seq<ChangeView>,
    upto: int,
)
    requires
        0 <= upto <= a.len() <= b.len(),
        forall|k: int| 0 <= k < a.len() ==> #[trigger] a[k] == b[k],
        changes_fit(contours, a, upto),
    ensures
        changes_fit(contours, b, upto),
    decreases upto,
{
    if upto > 0 {
        lemma_changes_fit_grows(contours, a, b, upto - 1);
        lemma_changed_same(contours, a, b, upto - 1);
    }
}

impl Glyph {
    /// The edit that puts a copy of `contour` in as the `contour_index`-th
    /// contour. It fits the glyph where the place is not past the end.
    pub fn add_contour(&self, contour: &Contour, contour_index: usize) -> (r: EditAction)
        ensures
            r@ == (ActionView::AddContour { index: contour_index as int, contour: contour@ }),
            contour_index <= self@.contours.len() ==> self@.fits(r@),
    {
        EditAction::AddContour { index: contour_index, contour: contour.clone() }
    }

    /// The edit that takes the `contour_index`-th contour out, or `None`
    /// where the glyph has no such contour.
    pub fn delete_contour(&self, contour_index: usize) -> (r: Option<EditAction>)
        ensures
            contour_index < self@.contours.len() <==> r is Some,
            r matches Some(a) ==> a@ == (ActionView::DeleteContour {
                index: contour_index as int,
                contour: self@.contours[contour_index as int],
            }) && self@.fits(a@),
    {
        if contour_index < self.contours.len() {
            Some(
                EditAction::DeleteContour {
                    index: contour_index,
                    contour: self.contours[contour_index].clone(),
                },
            )
        } else {
            None
        }
    }

    /// The edit that adds a guideline through `position` at `angle`, behind
    /// the guidelines that there are.
    pub fn new_guideline(&self, angle: i32, position: Point) -> (r: EditAction)
        ensures
            r@ == (ActionView::AddGuideline {
                index: self@.guidelines.len() as int,
                guideline: Guideline { position, angle },
            }),
            self@.fits(r@),
    {
        EditAction::AddGuideline {
            index: self.guidelines.len(),
            guideline: Guideline { position, angle },
        }
    }

    /// The edit that takes the `index`-th guideline out, or `None` where the
    /// glyph has no such guideline.
    pub fn delete_guideline(&self, index: usize) -> (r: Option<EditAction>)
        ensures
            index < self@.guidelines.len() <==> r is Some,
            r matches Some(a) ==> a@ == (ActionView::DeleteGuideline {
                index: index as int,
                guideline: self@.guidelines[index as int],
            }) && self@.fits(a@),
    {
        if index < self.guidelines.len() {
            Some(EditAction::DeleteGuideline { index, guideline: self.guidelines[index] })
        } else {
            None
        }
    }

    /// The edit that moves the `index`-th guideline by the matrix `m` and
    /// turns it by `turn`, or `None` where the glyph has no such guideline,
    /// or the guideline would leave the lattice, or the angle the range of
    /// its numbers.
    pub fn transform_guideline(&self, index: usize, m: Matrix, turn: i32) -> (r: Option<
        EditAction,
    >)
        ensures
            (index < self@.guidelines.len() && m.apply(
                self@.guidelines[index as int].position,
            ) is Some && -0x8000_0000 <= self@.guidelines[index as int].angle + turn
                <= 0x7fff_ffff) <==> r is Some,
            r matches Some(a) ==> a@ == (ActionView::TransformGuideline {
                index: index as int,
                before: self@.guidelines[index as int],
                after: Guideline {
                    position: m.apply(self@.guidelines[index as int].position).unwrap(),
                    angle: (self@.guidelines[index as int].angle + turn) as i32,
                },
            }) && self@.fits(a@),
    {
        if index >= self.guidelines.len() {
            return None;
        }
        let before: Guideline = self.guidelines[index];
        let angle: i64 = before.angle as i64 + turn as i64;
        if angle < -0x8000_0000 || angle > 0x7fff_ffff {
            return None;
        }
        match m.transform_point(before.position) {
            Some(position) => Some(
                EditAction::TransformGuideline {
                    index,
                    before,
                    after: Guideline { position, angle: angle as i32 },
                },
            ),
            None => None,
        }
    }

    /// The edit that moves the points that `idxs` names by the matrix `m`,
    /// in every contour, together with the points that were moved and the
    /// places where they now stand. The glyph itself is not changed. Where a
    /// point would leave the lattice, there is no edit.
    pub fn transform_selection(&self, idxs: &[GlyphPointIndex], m: Matrix) -> (r: Result<
        (EditAction, Vec<(GlyphPointIndex, Point)>),
        EditError,
    >)
        requires
            self@.wf(),
        ensures
            match selection_moved(self@.contours, idxs@, m, self@.contours.len() as int) {
                Some((changes, moves)) => r matches Ok((a, l)) && a@
                    == (ActionView::TransformSelection { changes }) && l@ == moves && self@.fits(a@)
                    && a@.wf(),
                None => r matches Err(e) && e == EditError::OutOfRange,
            },
    {
        let n: usize = self.contours.len();
        let mut changes: Vec<ContourChange> = Vec::new();
        let mut moves: Vec<(GlyphPointIndex, Point)> = Vec::new();
        let mut ic: usize = 0;
        assert(change_views(changes@) =~= Seq::empty());
        while ic < n
            invariant
                ic <= n,
                n == self@.contours.len(),
                self@.wf(),
                selection_moved(self@.contours, idxs@, m, ic as int) == Some(
                    (change_views(changes@), moves@),
                ),
            decreases n - ic,
        {
            let mut contour: Contour = self.contours[ic].clone();
            assert(self@.contours[ic as int].wf());
            match contour.transform_points(ic, idxs, m) {
                Err(_) => {
                    proof {
                        lemma_selection_stays_void(self@.contours, idxs@, m, ic + 1, n as int);
                    }
                    return Err(EditError::OutOfRange);
                },
                Ok(mut moved) => {
                    if moved.len() != 0 {
                        let ghost before = change_views(changes@);
                        changes.push(
                            ContourChange {
                                index: ic,
                                before: self.contours[ic].clone(),
                                after: contour,
                            },
                        );
                        moves.append(&mut moved);
                        assert(change_views(changes@) =~= before.push(changes@.last()@));
                    }
                },
            }
            ic += 1;
        }
        proof {
            lemma_selection_fits(self@.contours, idxs@, m, n as int);
        }
        let action = EditAction::TransformSelection { changes };
        proof {
            assert(action@->changes == change_views(changes@));
        }
        Ok((action, moves))
    }
}

impl UndoLog {
    /// The log without edits.
    pub fn new() -> (r: UndoLog)
        ensures
            r@ == (LogView { undo: Seq::empty(), redo: Seq::empty() }),
            r@.wf(),
    {
        let r = UndoLog { undo: Vec::new(), redo: Vec::new() };
        assert(r@.undo =~= Seq::empty());
        assert(r@.redo =~= Seq::empty());
        r
    }

    /// Records an edit that was made: it becomes the last edit made, and the
    /// edits that were undone are forgotten.
    pub fn record(&mut self, action: EditAction)
        requires
            old(self)@.wf(),
            action@.wf(),
        ensures
            final(self)@ == old(self)@.recorded(action@),
            final(self)@.wf(),
    {
        self.undo.push(action);
        self.redo.clear();
        proof {
            assert(self@.undo =~= old(self)@.undo.push(action@));
            assert(self@.redo =~= Seq::empty());
            assert forall|k: int| 0 <= k < self@.undo.len() implies (#[trigger] self@.undo[k]).wf() by {
                if k < old(self)@.undo.len() {
                    assert(old(self)@.undo[k].wf());
                }
            }
        }
    }

    /// Makes an edit of the glyph and records it.
    pub fn perform(&mut self, glyph: &mut Glyph, action: EditAction)
        requires
            old(self)@.wf(),
            old(glyph)@.wf(),
            action@.wf(),
        ensures
            final(glyph)@ == old(glyph)@.applied(action@),
            final(glyph)@.wf(),
            final(self)@ == old(self)@.recorded(action@),
            final(self)@.wf(),
            final(glyph).name == old(glyph).name,
            final(glyph).kind == old(glyph).kind,
            final(glyph).width == old(glyph).width,
            final(glyph).components == old(glyph).components,
            final(glyph).glif_source == old(glyph).glif_source,
    {
        glyph.apply(&action);
        self.record(action);
    }

    /// Whether there is an edit to undo.
    pub fn can_undo(&self) -> (r: bool)
        ensures
            r == (self@.undo.len() > 0),
    {
        self.undo.len() > 0
    }

    /// Whether there is an edit to make again.
    pub fn can_redo(&self) -> (r: bool)
        ensures
            r == (self@.redo.len() > 0),
    {
        self.redo.len() > 0
    }

    /// Takes back the last edit made: the glyph is as it was before the
    /// edit, and the edit can be made again. Without an edit to undo nothing
    /// changes. Tells whether an edit was undone.
    pub fn undo(&mut self, glyph: &mut Glyph) -> (r: bool)
        requires
            old(self)@.wf(),
            old(glyph)@.wf(),
        ensures
            r == (old(self)@.undo.len() > 0),
            (Session { glyph: final(glyph)@, log: final(self)@ }) == (Session {
                glyph: old(glyph)@,
                log: old(self)@,
            }).undone(),
            final(self)@.wf(),
            final(glyph)@.wf(),
            final(glyph).name == old(glyph).name,
            final(glyph).kind == old(glyph).kind,
            final(glyph).width == old(glyph).width,
            final(glyph).components == old(glyph).components,
            final(glyph).glif_source == old(glyph).glif_source,
    {
        match self.undo.pop() {
            None => false,
            Some(action) => {
                proof {
                    assert(action@ == old(self)@.undo.last());
                    assert(old(self)@.undo[old(self)@.undo.len() - 1].wf());
                }
                glyph.revert(&action);
                self.redo.push(action);
                proof {
                    assert(self@.undo =~= old(self)@.undo.drop_last());
                    assert(self@.redo =~= old(self)@.redo.push(action@));
                    assert forall|k: int| 0 <= k < self@.undo.len() implies (
                    #[trigger] self@.undo[k]).wf() by {
                        assert(old(self)@.undo[k].wf());
                    }
                    assert forall|k: int| 0 <= k < self@.redo.len() implies (
                    #[trigger] self@.redo[k]).wf() by {
                        if k < old(self)@.redo.len() {
                            assert(old(self)@.redo[k].wf());
                        }
                    }
                }
                true
            },
        }
    }

    /// Makes the edit again that was undone last: the glyph is as it was
    /// after the edit, and the edit can be undone again. Without an edit to
    /// make again nothing changes. Tells whether an edit was made again.
    pub fn redo(&mut self, glyph: &mut Glyph) -> (r: bool)
        requires
            old(self)@.wf(),
            old(glyph)@.wf(),
        ensures
            r == (old(self)@.redo.len() > 0),
            (Session { glyph: final(glyph)@, log: final(self)@ }) == (Session {
                glyph: old(glyph)@,
                log: old(self)@,
            }).redone(),
            final(self)@.wf(),
            final(glyph)@.wf(),
            final(glyph).name == old(glyph).name,
            final(glyph).kind == old(glyph).kind,
            final(glyph).width == old(glyph).width,
            final(glyph).components == old(glyph).components,
            final(glyph).glif_source == old(glyph).glif_source,
    {
        match self.redo.pop() {
            None => false,
            Some(action) => {
                proof {
                    assert(action@ == old(self)@.redo.last());
                    assert(old(self)@.redo[old(self)@.redo.len() - 1].wf());
                }
                glyph.apply(&action);
                self.undo.push(action);
                proof {
                    assert(self@.redo =~= old(self)@.redo.drop_last());
                    assert(self@.undo =~= old(self)@.undo.push(action@));
                    assert forall|k: int| 0 <= k < self@.redo.len() implies (
                    #[trigger] self@.redo[k]).wf() by {
                        assert(old(self)@.redo[k].wf());
                    }
                    assert forall|k: int| 0 <= k < self@.undo.len() implies (
                    #[trigger] self@.undo[k]).wf() by {
                        if k < old(self)@.undo.len() {
                            assert(old(self)@.undo[k].wf());
                        }
                    }
                }
                true
            },
        }
    }
}

} // verus!
