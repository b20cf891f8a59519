//! Edits of a glyph as values: each can be applied, and taken back.

use vstd::prelude::*;
use crate::contours::Contour;
use crate::contours::ContourView;
use crate::glyphs::contour_views;
use crate::glyphs::Glyph;
use crate::glyphs::GlyphView;
use crate::glyphs::Guideline;

verus! {

/// One contour before and after an edit.
#[derive(Debug)]
pub struct ContourChange {
    pub index: usize,
    pub before: Contour,
    pub after: Contour,
}

/// An edit of a glyph.
#[derive(Debug)]
pub enum EditAction {
    /// Puts `contour` in as the `index`-th contour.
    AddContour { index: usize, contour: Contour },
    /// Takes the `index`-th contour out; `contour` is what is taken out.
    DeleteContour { index: usize, contour: Contour },
    /// Replaces contours by what a move of points made of them.
    TransformSelection { changes: Vec<ContourChange> },
    /// Puts `guideline` in as the `index`-th guideline.
    AddGuideline { index: usize, guideline: Guideline },
    /// Takes the `index`-th guideline out; `guideline` is what is taken out.
    DeleteGuideline { index: usize, guideline: Guideline },
    /// Replaces the `index`-th guideline.
    TransformGuideline { index: usize, before: Guideline, after: Guideline },
}

/// What a change of a contour is, as a value.
pub struct ChangeView {
    pub index: int,
    pub before: ContourView,
    pub after: ContourView,
}

/// What an edit is, as a value.
pub enum ActionView {
    AddContour { index: int, contour: ContourView },
    DeleteContour { index: int, contour: ContourView },
    TransformSelection { changes: Seq<ChangeView> },
    AddGuideline { index: int, guideline: Guideline },
    DeleteGuideline { index: int, guideline: Guideline },
    TransformGuideline { index: int, before: Guideline, after: Guideline },
}

impl View for ContourChange {
    type V = ChangeView;

    open spec fn view(&self) -> ChangeView {
        ChangeView { index: self.index as int, before: self.before@, after: self.after@ }
    }
}

/// The views of a row of changes.
pub open spec fn change_views(changes: Seq<ContourChange>) -> Seq<ChangeView> {
    Seq::new(changes.len(), |k: int| changes[k]@)
}

impl View for EditAction {
    type V = ActionView;

    open spec fn view(&self) -> ActionView {
        match self {
            EditAction::AddContour { index, contour } => ActionView::AddContour {
                index: *index as int,
                contour: contour@,
            },
            EditAction::DeleteContour { index, contour } => ActionView::DeleteContour {
                index: *index as int,
                contour: contour@,
            },
            EditAction::TransformSelection { changes } => ActionView::TransformSelection {
                changes: change_views(changes@),
            },
            EditAction::AddGuideline { index, guideline } => ActionView::AddGuideline {
                index: *index as int,
                guideline: *guideline,
            },
            EditAction::DeleteGuideline { index, guideline } => ActionView::DeleteGuideline {
                index: *index as int,
                guideline: *guideline,
            },
            EditAction::TransformGuideline { index, before, after } => ActionView::TransformGuideline {
                index: *index as int,
                before: *before,
                after: *after,
            },
        }
    }
}

/// The row `s` with `v` put in as the `index`-th; a place past the end
/// changes nothing.
pub open spec fn put_in<A>(s: Seq<A>, index: int, v: A) -> Seq<A> {
    if 0 <= index <= s.len() {
        s.insert(index, v)
    } else {
        s
    }
}

/// The row `s` with the `index`-th taken out; a place that is not there
/// changes nothing.
pub open spec fn taken_out<A>(s: Seq<A>, index: int) -> Seq<A> {
    if 0 <= index < s.len() {
        s.remove(index)
    } else {
        s
    }
}

/// The row `s` with the `index`-th replaced by `v`; a place that is not there
/// changes nothing.
pub open spec fn replaced<A>(s: Seq<A>, index: int, v: A) -> Seq<A> {
    if 0 <= index < s.len() {
        s.update(index, v)
    } else {
        s
    }
}

/// The contours after the first `upto` changes were made, in order.
pub open spec fn changed(contours: Seq<ContourView>, changes: Seq<ChangeView>, upto: int) -> Seq<
    ContourView,
>
    decreases upto,
{
    if upto <= 0 {
        contours
    } else {
        replaced(
            changed(contours, changes, upto - 1),
            changes[upto - 1].index,
            changes[upto - 1].after,
        )
    }
}

/// The contours after the first `upto` changes were taken back, the last of
/// them first.
pub open spec fn unchanged(contours: Seq<ContourView>, changes: Seq<ChangeView>, upto: int) -> Seq<
    ContourView,
>
    decreases upto,
{
    if upto <= 0 {
        contours
    } else {
        unchanged(
            replaced(contours, changes[upto - 1].index, changes[upto - 1].before),
            changes,
            upto - 1,
        )
    }
}

/// Whether each of the first `upto` changes finds the contour that it
/// replaces as it has it.
pub open spec fn changes_fit(contours: Seq<ContourView>, changes: Seq<ChangeView>, upto: int) -> bool
    decreases upto,
{
    if upto <= 0 {
        true
    } else {
        &&& changes_fit(contours, changes, upto - 1)
        &&& 0 <= changes[upto - 1].index < contours.len()
        &&& changed(contours, changes, upto - 1)[changes[upto - 1].index] == changes[upto
            - 1].before
    }
}

impl ActionView {
    /// Whether the contours that the edit brings are well formed.
    pub open spec fn wf(self) -> bool {
        match self {
            ActionView::AddContour { contour, .. } => contour.wf(),
            ActionView::DeleteContour { contour, .. } => contour.wf(),
            ActionView::TransformSelection { changes } => forall|k: int|
                0 <= k < changes.len() ==> (#[trigger] changes[k]).before.wf()
                    && changes[k].after.wf(),
            _ => true,
        }
    }
}

impl GlyphView {
    /// The glyph after the edit.
    pub open spec fn applied(self, a: ActionView) -> GlyphView {
        match a {
            ActionView::AddContour { index, contour } => GlyphView {
                contours: put_in(self.contours, index, contour),
                ..self
            },
            ActionView::DeleteContour { index, .. } => GlyphView {
                contours: taken_out(self.contours, index),
                ..self
            },
            ActionView::TransformSelection { changes } => GlyphView {
                contours: changed(self.contours, changes, changes.len() as int),
                ..self
            },
            ActionView::AddGuideline { index, guideline } => GlyphView {
                guidelines: put_in(self.guidelines, index, guideline),
                ..self
            },
            ActionView::DeleteGuideline { index, .. } => GlyphView {
                guidelines: taken_out(self.guidelines, index),
                ..self
            },
            ActionView::TransformGuideline { index, after, .. } => GlyphView {
                guidelines: replaced(self.guidelines, index, after),
                ..self
            },
        }
    }

    /// The glyph after the edit was taken back.
    pub open spec fn reverted(self, a: ActionView) -> GlyphView {
        match a {
            ActionView::AddContour { index, .. } => GlyphView {
                contours: taken_out(self.contours, index),
                ..self
            },
            ActionView::DeleteContour { index, contour } => GlyphView {
                contours: put_in(self.contours, index, contour),
                ..self
            },
            ActionView::TransformSelection { changes } => GlyphView {
                contours: unchanged(self.contours, changes, changes.len() as int),
                ..self
            },
            ActionView::AddGuideline { index, .. } => GlyphView {
                guidelines: taken_out(self.guidelines, index),
                ..self
            },
            ActionView::DeleteGuideline { index, guideline } => GlyphView {
                guidelines: put_in(self.guidelines, index, guideline),
                ..self
            },
            ActionView::TransformGuideline { index, before, .. } => GlyphView {
                guidelines: replaced(self.guidelines, index, before),
                ..self
            },
        }
    }

    /// Whether the edit fits the glyph: it finds the places that it names,
    /// and in them what it expects to replace or to take out.
    pub open spec fn fits(self, a: ActionView) -> bool {
        match a {
            ActionView::AddContour { index, .. } => 0 <= index <= self.contours.len(),
            ActionView::DeleteContour { index, contour } => 0 <= index < self.contours.len()
                && self.contours[index] == contour,
            ActionView::TransformSelection { changes } => changes_fit(
                self.contours,
                changes,
                changes.len() as int,
            ),
            ActionView::AddGuideline { index, .. } => 0 <= index <= self.guidelines.len(),
            ActionView::DeleteGuideline { index, guideline } => 0 <= index < self.guidelines.len()
                && self.guidelines[index] == guideline,
            ActionView::TransformGuideline { index, before, .. } => 0 <= index
                < self.guidelines.len() && self.guidelines[index] == before,
        }
    }
}

/// Changing contours keeps their number.
pub proof fn lemma_changed_len(contours: Seq<ContourView>, changes: Seq<ChangeView>, upto: int)
    ensures
        changed(contours, changes, upto).len() == contours.len(),
    decreases upto,
{
    if upto > 0 {
        lemma_changed_len(contours, changes, upto - 1);
    }
}

/// Changes that fit are undone by taking them back.
pub proof fn lemma_changes_taken_back(
    contours: Seq<ContourView>,
    changes: Seq<ChangeView>,
    upto: int,
)
    requires
        changes_fit(contours, changes, upto),
    ensures
        unchanged(changed(contours, changes, upto), changes, upto) == contours,
    decreases upto,
{
    if upto > 0 {
        let mid = changed(contours, changes, upto - 1);
        let c = changes[upto - 1];
        lemma_changed_len(contours, changes, upto - 1);
        assert(replaced(replaced(mid, c.index, c.after), c.index, c.before) =~= mid);
        lemma_changes_taken_back(contours, changes, upto - 1);
    }
}

/// An edit that fits the glyph is undone by taking it back: the glyph is
/// what it was, every position and every identifier.
pub proof fn lemma_revert_undoes_apply(g: GlyphView, a: ActionView)
    requires
        g.fits(a),
    ensures
        g.applied(a).reverted(a) == g,
{
    match a {
        ActionView::AddContour { index, contour } => {
            assert(taken_out(put_in(g.contours, index, contour), index) =~= g.contours);
        },
        ActionView::DeleteContour { index, contour } => {
            assert(put_in(taken_out(g.contours, index), index, contour) =~= g.contours);
        },
        ActionView::TransformSelection { changes } => {
            lemma_changes_taken_back(g.contours, changes, changes.len() as int);
        },
        ActionView::AddGuideline { index, guideline } => {
            assert(taken_out(put_in(g.guidelines, index, guideline), index) =~= g.guidelines);
        },
        ActionView::DeleteGuideline { index, guideline } => {
            assert(put_in(taken_out(g.guidelines, index), index, guideline) =~= g.guidelines);
        },
        ActionView::TransformGuideline { index, before, after } => {
            assert(replaced(replaced(g.guidelines, index, after), index, before) =~= g.guidelines);
        },
    }
}

/// Changes keep well-formed contours well formed.
pub proof fn lemma_changed_wf(contours: Seq<ContourView>, changes: Seq<ChangeView>, upto: int)
    requires
        0 <= upto <= changes.len(),
        forall|c: int| 0 <= c < contours.len() ==> (#[trigger] contours[c]).wf(),
        forall|k: int| 0 <= k < changes.len() ==> (#[trigger] changes[k]).after.wf(),
    ensures
        forall|c: int|
            0 <= c < contours.len() ==> (#[trigger] changed(contours, changes, upto)[c]).wf(),
        changed(contours, changes, upto).len() == contours.len(),
    decreases upto,
{
    if upto > 0 {
        lemma_changed_wf(contours, changes, upto - 1);
        assert(changes[upto - 1].after.wf());
    }
}

/// Taking changes back keeps well-formed contours well formed.
pub proof fn lemma_unchanged_wf(contours: Seq<ContourView>, changes: Seq<ChangeView>, upto: int)
    requires
        0 <= upto <= changes.len(),
        forall|c: int| 0 <= c < contours.len() ==> (#[trigger] contours[c]).wf(),
        forall|k: int| 0 <= k < changes.len() ==> (#[trigger] changes[k]).before.wf(),
    ensures
        forall|c: int|
            0 <= c < contours.len() ==> (#[trigger] unchanged(contours, changes, upto)[c]).wf(),
        unchanged(contours, changes, upto).len() == contours.len(),
    decreases upto,
{
    if upto > 0 {
        let next = replaced(contours, changes[upto - 1].index, changes[upto - 1].before);
        assert(changes[upto - 1].before.wf());
        assert forall|c: int| 0 <= c < next.len() implies (#[trigger] next[c]).wf() by {
            if c != changes[upto - 1].index {
                assert(contours[c].wf());
            }
        }
        lemma_unchanged_wf(next, changes, upto - 1);
    }
}

impl Glyph {
    /// Puts a copy of `contour` in place of the `index`-th contour; a place
    /// that is not there changes nothing.
    fn replace_contour(&mut self, index: usize, contour: &Contour)
        ensures
            final(self)@ == (GlyphView {
                contours: replaced(old(self)@.contours, index as int, contour@),
                ..old(self)@
            }),
            final(self).name == old(self).name,
            final(self).kind == old(self).kind,
            final(self).width == old(self).width,
            final(self).components == old(self).components,
            final(self).glif_source == old(self).glif_source,
    {
        if index < self.contours.len() {
            self.contours.set(index, contour.clone());
            assert(self@.contours =~= replaced(old(self)@.contours, index as int, contour@));
        }
    }

    /// Puts a copy of `contour` in as the `index`-th contour; a place past
    /// the end changes nothing.
    fn insert_contour(&mut self, index: usize, contour: &Contour)
        ensures
            final(self)@ == (GlyphView {
                contours: put_in(old(self)@.contours, index as int, contour@),
                ..old(self)@
            }),
            final(self).name == old(self).name,
            final(self).kind == old(self).kind,
            final(self).width == old(self).width,
            final(self).components == old(self).components,
            final(self).glif_source == old(self).glif_source,
    {
        if index <= self.contours.len() {
            self.contours.insert(index, contour.clone());
            assert(self@.contours =~= put_in(old(self)@.contours, index as int, contour@));
        }
    }

    /// Takes the `index`-th contour out; a place that is not there changes
    /// nothing.
    fn remove_contour(&mut self, index: usize)
        ensures
            final(self)@ == (GlyphView {
                contours: taken_out(old(self)@.contours, index as int),
                ..old(self)@
            }),
            final(self).name == old(self).name,
            final(self).kind == old(self).kind,
            final(self).width == old(self).width,
            final(self).components == old(self).components,
            final(self).glif_source == old(self).glif_source,
    {
        if index < self.contours.len() {
            let _gone: Contour = self.contours.remove(index);
            assert(self@.contours =~= taken_out(old(self)@.contours, index as int));
        }
    }

    /// Puts `guideline` in as the `index`-th guideline; a place past the end
    /// changes nothing.
    fn insert_guideline(&mut self, index: usize, guideline: Guideline)
        ensures
            final(self)@ == (GlyphView {
                guidelines: put_in(old(self)@.guidelines, index as int, guideline),
                ..old(self)@
            }),
            final(self).name == old(self).name,
            final(self).kind == old(self).kind,
            final(self).width == old(self).width,
            final(self).components == old(self).components,
            final(self).glif_source == old(self).glif_source,
    {
        if index <= self.guidelines.len() {
            self.guidelines.insert(index, guideline);
        }
    }

    /// Takes the `index`-th guideline out; a place that is not there changes
    /// nothing.
    fn remove_guideline(&mut self, index: usize)
        ensures
            final(self)@ == (GlyphView {
                guidelines: taken_out(old(self)@.guidelines, index as int),
                ..old(self)@
            }),
            final(self).name == old(self).name,
            final(self).kind == old(self).kind,
            final(self).width == old(self).width,
            final(self).components == old(self).components,
            final(self).glif_source == old(self).glif_source,
    {
        if index < self.guidelines.len() {
            let _gone: Guideline = self.guidelines.remove(index);
        }
    }

    /// Puts `guideline` in place of the `index`-th guideline; a place that is
    /// not there changes nothing.
    fn replace_guideline(&mut self, index: usize, guideline: Guideline)
        ensures
            final(self)@ == (GlyphView {
                guidelines: replaced(old(self)@.guidelines, index as int, guideline),
                ..old(self)@
            }),
            final(self).name == old(self).name,
            final(self).kind == old(self).kind,
            final(self).width == old(self).width,
            final(self).components == old(self).components,
            final(self).glif_source == old(self).glif_source,
    {
        if index < self.guidelines.len() {
            self.guidelines.set(index, guideline);
        }
    }

    /// Makes the edit. What the edit names and the glyph does not have is
    /// passed over.
    pub fn apply(&mut self, action: &EditAction)
        requires
            old(self)@.wf(),
            action@.wf(),
        ensures
            final(self)@ == old(self)@.applied(action@),
            final(self)@.wf(),
            final(self).name == old(self).name,
            final(self).kind == old(self).kind,
            final(self).width == old(self).width,
            final(self).components == old(self).components,
            final(self).glif_source == old(self).glif_source,
    {
        match action {
            EditAction::AddContour { index, contour } => {
                self.insert_contour(*index, contour);
                proof {
                    assert forall|c: int| 0 <= c < self@.contours.len() implies (
                    #[trigger] self@.contours[c]).wf() by {
                        if c < *index {
                            assert(old(self)@.contours[c].wf());
                        } else if c > *index {
                            assert(old(self)@.contours[c - 1].wf());
                        }
                    }
                }
            },
            EditAction::DeleteContour { index, .. } => {
                self.remove_contour(*index);
                proof {
                    assert forall|c: int| 0 <= c < self@.contours.len() implies (
                    #[trigger] self@.contours[c]).wf() by {
                        if c < *index {
                            assert(old(self)@.contours[c].wf());
                        } else {
                            assert(old(self)@.contours[c + 1].wf());
                        }
                    }
                }
            },
            EditAction::TransformSelection { changes } => {
                let ghost views = change_views(changes@);
                proof {
                    assert(action@.wf());
                    assert(action@->changes == views);
                    assert forall|j: int| 0 <= j < views.len() implies (
                    #[trigger] views[j]).after.wf() by {
                        assert(change_views(changes@)[j].after.wf());
                    }
                    lemma_changed_wf(old(self)@.contours, views, views.len() as int);
                }
                let mut k: usize = 0;
                while k < changes.len()
                    invariant
                        k <= changes@.len(),
                        views == change_views(changes@),
                        forall|c: int|
                            0 <= c < old(self)@.contours.len() ==> (#[trigger] changed(
                                old(self)@.contours,
                                views,
                                views.len() as int,
                            )[c]).wf(),
                        changed(old(self)@.contours, views, views.len() as int).len() == old(
                            self,
                        )@.contours.len(),
                        self@ == (GlyphView {
                            contours: changed(old(self)@.contours, views, k as int),
                            ..old(self)@
                        }),
                        self.name == old(self).name,
                        self.kind == old(self).kind,
                        self.width == old(self).width,
                        self.components == old(self).components,
                        self.glif_source == old(self).glif_source,
                    decreases changes@.len() - k,
                {
                    self.replace_contour(changes[k].index, &changes[k].after);
                    k += 1;
                }
            },
            EditAction::AddGuideline { index, guideline } => {
                self.insert_guideline(*index, *guideline);
            },
            EditAction::DeleteGuideline { index, .. } => {
                self.remove_guideline(*index);
            },
            EditAction::TransformGuideline { index, after, .. } => {
                self.replace_guideline(*index, *after);
            },
        }
    }

    /// Takes the edit back. What the edit names and the glyph does not have
    /// is passed over.
    pub fn revert(&mut self, action: &EditAction)
        requires
            old(self)@.wf(),
            action@.wf(),
        ensures
            final(self)@ == old(self)@.reverted(action@),
            final(self)@.wf(),
            final(self).name == old(self).name,
            final(self).kind == old(self).kind,
            final(self).width == old(self).width,
            final(self).components == old(self).components,
            final(self).glif_source == old(self).glif_source,
    {
        match action {
            EditAction::AddContour { index, .. } => {
                self.remove_contour(*index);
                proof {
                    assert forall|c: int| 0 <= c < self@.contours.len() implies (
                    #[trigger] self@.contours[c]).wf() by {
                        if c < *index {
                            assert(old(self)@.contours[c].wf());
                        } else {
                            assert(old(self)@.contours[c + 1].wf());
                        }
                    }
                }
            },
            EditAction::DeleteContour { index, contour } => {
                self.insert_contour(*index, contour);
                proof {
                    assert forall|c: int| 0 <= c < self@.contours.len() implies (
                    #[trigger] self@.contours[c]).wf() by {
                        if c < *index {
                            assert(old(self)@.contours[c].wf());
                        } else if c > *index {
                            assert(old(self)@.contours[c - 1].wf());
                        }
                    }
                }
            },
            EditAction::TransformSelection { changes } => {
                let ghost views = change_views(changes@);
                proof {
                    assert(action@.wf());
                    assert(action@->changes == views);
                    assert forall|j: int| 0 <= j < views.len() implies (
                    #[trigger] views[j]).before.wf() by {
                        assert(change_views(changes@)[j].before.wf());
                    }
                    lemma_unchanged_wf(old(self)@.contours, views, views.len() as int);
                }
                let n: usize = changes.len();
                let mut k: usize = n;
                while k > 0
                    invariant
                        k <= n,
                        n == changes@.len(),
                        views == change_views(changes@),
                        forall|c: int|
                            0 <= c < old(self)@.contours.len() ==> (#[trigger] unchanged(
                                old(self)@.contours,
                                views,
                                views.len() as int,
                            )[c]).wf(),
                        unchanged(old(self)@.contours, views, views.len() as int).len() == old(
                            self,
                        )@.contours.len(),
                        unchanged(self@.contours, views, k as int) == unchanged(
                            old(self)@.contours,
                            views,
                            n as int,
                        ),
                        self@.guidelines == old(self)@.guidelines,
                        self.name == old(self).name,
                        self.kind == old(self).kind,
                        self.width == old(self).width,
                        self.components == old(self).components,
                        self.glif_source == old(self).glif_source,
                    decreases k,
                {
                    self.replace_contour(changes[k - 1].index, &changes[k - 1].before);
                    k -= 1;
                }
            },
            EditAction::AddGuideline { index, .. } => {
                self.remove_guideline(*index);
            },
            EditAction::DeleteGuideline { index, guideline } => {
                self.insert_guideline(*index, *guideline);
            },
            EditAction::TransformGuideline { index, before, .. } => {
                self.replace_guideline(*index, *before);
            },
        }
    }
}

} // verus!
