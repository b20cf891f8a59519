//! A glyph that is being edited, with what goes with it: the selection, the
//! index of its points and the log of its edits.
//!
//! The index is built anew with every change of the glyph, so that it always
//! lists the points as they stand. While points or a guideline are dragged,
//! the glyph follows the pointer and the log is left alone; when the drag is
//! over, what it came to is recorded as one edit, and a drag that is given up
//! leaves no trace.

use vstd::prelude::*;
use crate::actions::change_views;
use crate::actions::changed;
use crate::actions::changes_fit;
use crate::actions::replaced;
use crate::actions::ActionView;
use crate::actions::ChangeView;
use crate::actions::ContourChange;
use crate::actions::EditAction;
use crate::canvas::Canvas;
use crate::canvas::Transformation;
use crate::canvas::UnitPoint;
use crate::canvas::ViewPoint;
use crate::contours::Contour;
use crate::contours::ContourView;
use crate::errors::EditError;
use crate::glyphs::contour_views;
use crate::glyphs::Glyph;
use crate::glyphs::GlyphPointIndex;
use crate::glyphs::GlyphView;
use crate::glyphs::Guideline;
use crate::matrix::Matrix;
use crate::panning::ruler_angle;
use crate::panning::ruler_guideline_angle;
use crate::panning::CurveIndex;
use crate::panning::Motion;
use crate::panning::PanningTool;
use crate::panning::Reaction;
use crate::panning::SelectionChange;
use crate::points::Point;
use crate::range_query::glyph_entries;
use crate::range_query::region_test;
use crate::range_query::SpatialIndex;
use crate::undo::selection_moved;
use crate::undo::LogView;
use crate::undo::UndoLog;

verus! {

/// What is held back while something is dragged.
#[derive(Debug)]
pub enum Preview {
    /// Nothing is dragged.
    Settled,
    /// Points are dragged; these are the contours as they were when the drag
    /// began.
    Points(Vec<Contour>),
    /// The guideline of this number is dragged; this is the guideline as it
    /// was when the drag began.
    Guideline(usize, Guideline),
}

/// What is held back, as a value.
pub enum Held {
    Settled,
    Points(Seq<ContourView>),
    Guideline(int, Guideline),
}

/// A glyph that is being edited.
#[derive(Debug)]
pub struct GlyphState {
    canvas: Canvas,
    tool: PanningTool,
    lock_guidelines: bool,
    show_rulers: bool,
    ruler_breadth: u32,
    hovering: Option<CurveIndex>,
    selected_guideline: Option<usize>,
    glyph: Glyph,
    selection: Vec<GlyphPointIndex>,
    kd_tree: SpatialIndex,
    log: UndoLog,
    preview: Preview,
}

/// What is edited, as a value: the glyph, the log, the index, the selection,
/// and what is held back during a drag.
pub struct StateView {
    /// The glyph as it stands.
    pub glyph: GlyphView,
    /// The log of the edits.
    pub log: LogView,
    /// The points that the index lists.
    pub index: Seq<(GlyphPointIndex, Point)>,
    /// The names of the selected points.
    pub selection: Seq<GlyphPointIndex>,
    /// What is held back while something is dragged.
    pub held: Held,
    /// The view and the pointer.
    pub canvas: Canvas,
    /// The tool that pans, drags and selects.
    pub tool: PanningTool,
    /// The segment under the pointer, if any.
    pub hovering: Option<CurveIndex>,
    /// The guideline that is shown as selected, if any.
    pub selected_guideline: Option<usize>,
    /// Whether the guidelines are kept from being moved and added.
    pub lock_guidelines: bool,
    /// Whether the rulers are shown.
    pub show_rulers: bool,
    /// How broad the rulers are, in steps of the view.
    pub ruler_breadth: u32,
}

impl View for Preview {
    type V = Held;

    open spec fn view(&self) -> Held {
        match self {
            Preview::Settled => Held::Settled,
            Preview::Points(before) => Held::Points(contour_views(before@)),
            Preview::Guideline(i, before) => Held::Guideline(*i as int, *before),
        }
    }
}

impl View for GlyphState {
    type V = StateView;

    closed spec fn view(&self) -> StateView {
        StateView {
            glyph: self.glyph@,
            log: self.log@,
            index: self.kd_tree@,
            selection: self.selection@,
            held: self.preview@,
            canvas: self.canvas,
            tool: self.tool,
            hovering: self.hovering,
            selected_guideline: self.selected_guideline,
            lock_guidelines: self.lock_guidelines,
            show_rulers: self.show_rulers,
            ruler_breadth: self.ruler_breadth,
        }
    }
}

/// The points of a glyph as the index lists them.
pub open spec fn entries_of(g: GlyphView) -> Seq<(GlyphPointIndex, Point)> {
    glyph_entries(g.contours, g.contours.len() as int)
}

/// The names of the points in `hits`.
pub open spec fn names_of(hits: Seq<(GlyphPointIndex, Point)>) -> Seq<GlyphPointIndex> {
    Seq::new(hits.len(), |k: int| hits[k].0)
}

/// The change of every contour from `before` to `after`.
pub open spec fn full_changes(before: Seq<ContourView>, after: Seq<ContourView>) -> Seq<ChangeView> {
    Seq::new(before.len(), |i: int| ChangeView { index: i, before: before[i], after: after[i] })
}

/// The contours of which the first `upto` are those of `after` and the others
/// those of `before`.
pub open spec fn mixed(before: Seq<ContourView>, after: Seq<ContourView>, upto: int) -> Seq<
    ContourView,
> {
    Seq::new(
        before.len(),
        |i: int|
            if i < upto {
                after[i]
            } else {
                before[i]
            },
    )
}

/// The change of every contour fits the contours before, and makes of them
/// the contours after.
pub proof fn lemma_full_changes(before: Seq<ContourView>, after: Seq<ContourView>, upto: int)
    requires
        before.len() == after.len(),
        0 <= upto <= before.len(),
    ensures
        changed(before, full_changes(before, after), upto) == mixed(before, after, upto),
        changes_fit(before, full_changes(before, after), upto),
    decreases upto,
{
    let full = full_changes(before, after);
    if upto > 0 {
        lemma_full_changes(before, after, upto - 1);
        assert(replaced(mixed(before, after, upto - 1), upto - 1, after[upto - 1]) =~= mixed(
            before,
            after,
            upto,
        ));
    } else {
        assert(mixed(before, after, 0) =~= before);
    }
}

impl StateView {
    /// Whether the state hangs together: the glyph and the log are well
    /// formed, the index lists the points of the glyph as they stand, and
    /// what is held back is of the shape of the glyph.
    pub open spec fn wf(self) -> bool {
        &&& self.glyph.wf()
        &&& self.log.wf()
        &&& self.index == entries_of(self.glyph)
        &&& match self.held {
            Held::Settled => true,
            Held::Points(before) => before.len() == self.glyph.contours.len() && forall|i: int|
                0 <= i < before.len() ==> (#[trigger] before[i]).wf(),
            Held::Guideline(i, _) => 0 <= i < self.glyph.guidelines.len(),
        }
    }

    /// The glyph as it was when the drag began; the glyph itself where
    /// nothing is dragged.
    pub open spec fn before_drag(self) -> GlyphView {
        match self.held {
            Held::Settled => self.glyph,
            Held::Points(before) => GlyphView { contours: before, ..self.glyph },
            Held::Guideline(i, before) => GlyphView {
                guidelines: self.glyph.guidelines.update(i, before),
                ..self.glyph
            },
        }
    }

    /// The edit that the drag has come to, if something is dragged.
    pub open spec fn pending(self) -> Option<ActionView> {
        match self.held {
            Held::Settled => None,
            Held::Points(before) => Some(
                ActionView::TransformSelection {
                    changes: full_changes(before, self.glyph.contours),
                },
            ),
            Held::Guideline(i, before) => Some(
                ActionView::TransformGuideline {
                    index: i,
                    before,
                    after: self.glyph.guidelines[i],
                },
            ),
        }
    }

    /// The state after the drag is over: what it came to is recorded as one
    /// edit. Nothing changes where nothing is dragged.
    pub open spec fn committed(self) -> StateView {
        match self.pending() {
            None => self,
            Some(a) => StateView { log: self.log.recorded(a), held: Held::Settled, ..self },
        }
    }

    /// The state after the drag was given up: the glyph is as it was when the
    /// drag began, and the log is as it was.
    pub open spec fn aborted(self) -> StateView {
        StateView {
            glyph: self.before_drag(),
            index: entries_of(self.before_drag()),
            held: Held::Settled,
            ..self
        }
    }

    /// The state after the edit `a` was made and recorded.
    pub open spec fn performed(self, a: ActionView) -> StateView {
        let s = self.committed();
        StateView {
            glyph: s.glyph.applied(a),
            index: entries_of(s.glyph.applied(a)),
            log: s.log.recorded(a),
            ..s
        }
    }

    /// The selection after the reaction was carried out, with `hits` the
    /// points under the pointer.
    pub open spec fn reselected(
        self,
        change: SelectionChange,
        hits: Seq<(GlyphPointIndex, Point)>,
    ) -> Seq<GlyphPointIndex> {
        match change {
            SelectionChange::Keep => self.selection,
            SelectionChange::SetToHits => names_of(hits),
            SelectionChange::Clear => Seq::empty(),
            SelectionChange::Region(a, b) => names_of(self.index.filter(region_test(a.0, b.0))),
        }
    }
}

/// The edit that a drag has come to fits the glyph as it was when the drag
/// began, and makes of it the glyph as it stands.
pub proof fn lemma_pending_fits(s: StateView)
    requires
        s.wf(),
        s.pending() is Some,
    ensures
        s.before_drag().fits(s.pending().unwrap()),
        s.before_drag().applied(s.pending().unwrap()) == s.glyph,
{
    match s.held {
        Held::Points(before) => {
            let n = before.len() as int;
            lemma_full_changes(before, s.glyph.contours, n);
            assert(mixed(before, s.glyph.contours, n) =~= s.glyph.contours);
            assert(full_changes(before, s.glyph.contours).len() == n);
        },
        Held::Guideline(i, before) => {
            assert(s.glyph.guidelines.update(i, before).update(i, s.glyph.guidelines[i])
                =~= s.glyph.guidelines);
        },
        Held::Settled => {},
    }
}

/// Ending a drag keeps the log retraceable: where the edits made lead to the
/// glyph as it was when the drag began, the edits made after the drag is
/// recorded lead to the glyph as it stands.
pub proof fn lemma_commit_keeps_retraceable(s: StateView)
    requires
        s.wf(),
        crate::undo::retraceable(s.before_drag(), s.log.undo),
    ensures
        crate::undo::retraceable(s.committed().glyph, s.committed().log.undo),
{
    if s.pending() is Some {
        lemma_pending_fits(s);
        crate::undo::lemma_record_keeps_retraceable(
            s.before_drag(),
            s.log.undo,
            s.pending().unwrap(),
        );
    }
}

/// The names of the points in `hits`.
fn names(hits: &Vec<(GlyphPointIndex, Point)>) -> (r: Vec<GlyphPointIndex>)
    ensures
        r@ == names_of(hits@),
{
    let mut out: Vec<GlyphPointIndex> = Vec::new();
    let mut k: usize = 0;
    while k < hits.len()
        invariant
            k <= hits@.len(),
            out@.len() == k,
            forall|j: int| 0 <= j < k ==> #[trigger] out@[j] == hits@[j].0,
        decreases hits@.len() - k,
    {
        out.push(hits[k].0);
        k += 1;
    }
    assert(out@ =~= names_of(hits@));
    out
}

/// A copy of a row of contours.
fn copied_contours(contours: &Vec<Contour>) -> (r: Vec<Contour>)
    ensures
        contour_views(r@) == contour_views(contours@),
{
    let mut out: Vec<Contour> = Vec::new();
    let mut k: usize = 0;
    while k < contours.len()
        invariant
            k <= contours@.len(),
            out@.len() == k,
            forall|j: int| 0 <= j < k ==> (#[trigger] out@[j])@ == contours@[j]@,
        decreases contours@.len() - k,
    {
        out.push(contours[k].clone());
        k += 1;
    }
    assert(contour_views(out@) =~= contour_views(contours@));
    out
}

impl GlyphState {
    /// The state in which the editing of `glyph` begins: nothing selected,
    /// nothing recorded, nothing dragged, the tool at rest.
    pub fn new(glyph: Glyph, transformation: Transformation) -> (r: GlyphState)
        requires
            glyph@.wf(),
        ensures
            r@.wf(),
            r@ == (StateView {
                glyph: glyph@,
                log: LogView { undo: Seq::empty(), redo: Seq::empty() },
                index: entries_of(glyph@),
                selection: Seq::empty(),
                held: Held::Settled,
                canvas: Canvas { transformation, mouse: ViewPoint(Point { x: 0, y: 0 }) },
                tool: PanningTool {
                    active: false,
                    mode: crate::panning::ControlPointMode::Idle,
                    is_selection_empty: true,
                    is_selection_active: false,
                    selection_upper_left: UnitPoint(Point { x: 0, y: 0 }),
                    selection_bottom_right: UnitPoint(Point { x: 0, y: 0 }),
                },
                hovering: None,
                selected_guideline: None,
                lock_guidelines: false,
                show_rulers: true,
                ruler_breadth: 0,
            }),
    {
        let kd_tree = SpatialIndex::from_glyph(&glyph);
        GlyphState {
            canvas: Canvas::new(transformation),
            tool: PanningTool::new(),
            lock_guidelines: false,
            show_rulers: true,
            ruler_breadth: 0,
            hovering: None,
            selected_guideline: None,
            glyph,
            selection: Vec::new(),
            kd_tree,
            log: UndoLog::new(),
            preview: Preview::Settled,
        }
    }

    /// The view and the pointer.
    pub fn canvas(&self) -> (r: Canvas)
        ensures
            r == self@.canvas,
    {
        self.canvas
    }

    /// Sets the view and the pointer.
    pub fn set_canvas(&mut self, canvas: Canvas)
        ensures
            final(self)@ == (StateView { canvas, ..old(self)@ }),
    {
        self.canvas = canvas;
    }

    /// The tool that pans, drags and selects.
    pub fn tool(&self) -> (r: PanningTool)
        ensures
            r == self@.tool,
    {
        self.tool
    }

    /// Sets the tool that pans, drags and selects.
    pub fn set_tool(&mut self, tool: PanningTool)
        ensures
            final(self)@ == (StateView { tool, ..old(self)@ }),
    {
        self.tool = tool;
    }

    /// Says whether the rulers are shown, how broad they are, and whether
    /// the guidelines are locked.
    pub fn set_rulers(&mut self, show_rulers: bool, ruler_breadth: u32, lock_guidelines: bool)
        ensures
            final(self)@ == (StateView {
                show_rulers,
                ruler_breadth,
                lock_guidelines,
                ..old(self)@
            }),
    {
        self.show_rulers = show_rulers;
        self.ruler_breadth = ruler_breadth;
        self.lock_guidelines = lock_guidelines;
    }

    /// Whether the rulers are shown.
    pub fn show_rulers(&self) -> (r: bool)
        ensures
            r == self@.show_rulers,
    {
        self.show_rulers
    }

    /// How broad the rulers are, in steps of the view.
    pub fn ruler_breadth(&self) -> (r: u32)
        ensures
            r == self@.ruler_breadth,
    {
        self.ruler_breadth
    }

    /// Whether the guidelines are kept from being moved and added.
    pub fn lock_guidelines(&self) -> (r: bool)
        ensures
            r == self@.lock_guidelines,
    {
        self.lock_guidelines
    }

    /// The segment under the pointer, if any.
    pub fn hovering(&self) -> (r: Option<CurveIndex>)
        ensures
            r == self@.hovering,
    {
        self.hovering
    }

    /// The guideline that is shown as selected, if any.
    pub fn selected_guideline(&self) -> (r: Option<usize>)
        ensures
            r == self@.selected_guideline,
    {
        self.selected_guideline
    }

    /// The glyph as it stands.
    pub fn glyph(&self) -> (r: &Glyph)
        ensures
            r@ == self@.glyph,
    {
        &self.glyph
    }

    /// The index of the points of the glyph as they stand.
    pub fn kd_tree(&self) -> (r: &SpatialIndex)
        ensures
            r@ == self@.index,
    {
        &self.kd_tree
    }

    /// The log of the edits.
    pub fn log(&self) -> (r: &UndoLog)
        ensures
            r@ == self@.log,
    {
        &self.log
    }

    /// The names of the selected points.
    pub fn get_selection(&self) -> (r: &Vec<GlyphPointIndex>)
        ensures
            r@ == self@.selection,
    {
        &self.selection
    }

    /// Selects the points in `pts`.
    pub fn set_selection(&mut self, pts: &Vec<(GlyphPointIndex, Point)>)
        ensures
            final(self)@ == (StateView { selection: names_of(pts@), ..old(self)@ }),
    {
        self.selection = names(pts);
    }

    /// Whether something is dragged.
    pub fn is_dragging(&self) -> (r: bool)
        ensures
            r == !(self@.held is Settled),
    {
        match &self.preview {
            Preview::Settled => false,
            _ => true,
        }
    }

    /// Ends the drag: what it came to is recorded as one edit, which fits the
    /// glyph as it was when the drag began and makes of it the glyph as it
    /// stands. Tells whether there was a drag to end.
    pub fn commit(&mut self) -> (r: bool)
        requires
            old(self)@.wf(),
        ensures
            final(self)@.wf(),
            final(self)@ == old(self)@.committed(),
            r == (old(self)@.pending() is Some),
    {
        let action: EditAction = match &self.preview {
            Preview::Settled => {
                return false;
            },
            Preview::Points(before) => {
                let n: usize = before.len();
                let mut changes: Vec<ContourChange> = Vec::new();
                let mut i: usize = 0;
                while i < n
                    invariant
                        i <= n,
                        n == before@.len(),
                        n == self.glyph.contours@.len(),
                        changes@.len() == i,
                        forall|j: int|
                            0 <= j < i ==> (#[trigger] changes@[j])@ == (ChangeView {
                                index: j,
                                before: before@[j]@,
                                after: self.glyph.contours@[j]@,
                            }),
                    decreases n - i,
                {
                    changes.push(
                        ContourChange {
                            index: i,
                            before: before[i].clone(),
                            after: self.glyph.contours[i].clone(),
                        },
                    );
                    i += 1;
                }
                let action = EditAction::TransformSelection { changes };
                proof {
                    assert(action@->changes == change_views(changes@));
                    assert(change_views(changes@) =~= full_changes(
                        contour_views(before@),
                        self@.glyph.contours,
                    ));
                    assert forall|k: int| 0 <= k < action@->changes.len() implies (
                    #[trigger] action@->changes[k]).before.wf() && action@->changes[k].after.wf() by {
                        assert(contour_views(before@)[k].wf());
                        assert(self@.glyph.contours[k].wf());
                    }
                }
                action
            },
            Preview::Guideline(i, before) => EditAction::TransformGuideline {
                index: *i,
                before: *before,
                after: self.glyph.guidelines[*i],
            },
        };
        assert(action@ == old(self)@.pending().unwrap());
        self.log.record(action);
        self.preview = Preview::Settled;
        true
    }

    /// Gives the drag up: the glyph is as it was when the drag began, and
    /// nothing is recorded. Tells whether there was a drag to give up.
    pub fn abort(&mut self) -> (r: bool)
        requires
            old(self)@.wf(),
        ensures
            final(self)@.wf(),
            final(self)@ == old(self)@.aborted(),
            r == !(old(self)@.held is Settled),
    {
        match &self.preview {
            Preview::Settled => {
                return false;
            },
            Preview::Points(before) => {
                let contours: Vec<Contour> = copied_contours(before);
                self.glyph.contours = contours;
                proof {
                    assert forall|c: int| 0 <= c < self.glyph@.contours.len() implies (
                    #[trigger] self.glyph@.contours[c]).wf() by {
                        assert(contour_views(before@)[c].wf());
                    }
                }
            },
            Preview::Guideline(i, before) => {
                self.glyph.guidelines.set(*i, *before);
            },
        }
        self.kd_tree = SpatialIndex::from_glyph(&self.glyph);
        self.preview = Preview::Settled;
        true
    }

    /// Makes an edit and records it, after any drag is ended and recorded.
    /// The index is built anew.
    pub fn perform(&mut self, action: EditAction)
        requires
            old(self)@.wf(),
            action@.wf(),
        ensures
            final(self)@.wf(),
            final(self)@ == old(self)@.performed(action@),
    {
        self.commit();
        self.log.perform(&mut self.glyph, action);
        self.kd_tree = SpatialIndex::from_glyph(&self.glyph);
    }

    /// Takes back the last edit, after any drag is ended and recorded. The
    /// index is built anew. Tells whether an edit was undone.
    pub fn undo(&mut self) -> (r: bool)
        requires
            old(self)@.wf(),
        ensures
            final(self)@.wf(),
            r == (old(self)@.committed().log.undo.len() > 0),
            (crate::undo::Session { glyph: final(self)@.glyph, log: final(self)@.log })
                == (crate::undo::Session {
                glyph: old(self)@.glyph,
                log: old(self)@.committed().log,
            }).undone(),
            final(self)@ == (StateView {
                glyph: final(self)@.glyph,
                log: final(self)@.log,
                index: entries_of(final(self)@.glyph),
                ..old(self)@.committed()
            }),
    {
        self.commit();
        let undone: bool = self.log.undo(&mut self.glyph);
        self.kd_tree = SpatialIndex::from_glyph(&self.glyph);
        undone
    }

    /// Makes the edit again that was undone last, after any drag is ended and
    /// recorded. The index is built anew. Tells whether an edit was made
    /// again.
    pub fn redo(&mut self) -> (r: bool)
        requires
            old(self)@.wf(),
        ensures
            final(self)@.wf(),
            r == (old(self)@.committed().log.redo.len() > 0),
            (crate::undo::Session { glyph: final(self)@.glyph, log: final(self)@.log })
                == (crate::undo::Session {
                glyph: old(self)@.glyph,
                log: old(self)@.committed().log,
            }).redone(),
            final(self)@ == (StateView {
                glyph: final(self)@.glyph,
                log: final(self)@.log,
                index: entries_of(final(self)@.glyph),
                ..old(self)@.committed()
            }),
    {
        self.commit();
        let redone: bool = self.log.redo(&mut self.glyph);
        self.kd_tree = SpatialIndex::from_glyph(&self.glyph);
        redone
    }

    /// Moves the selected points by the matrix `m` as a part of a drag: the
    /// glyph and the index follow, the log is left alone, and the contours as
    /// they were when the drag began are held back. A drag of a guideline is
    /// ended and recorded first. Returns the points that were moved; where a
    /// point would leave the lattice, nothing is moved.
    pub fn transform_selection(&mut self, m: Matrix) -> (r: Result<
        Vec<(GlyphPointIndex, Point)>,
        EditError,
    >)
        requires
            old(self)@.wf(),
        ensures
            final(self)@.wf(),
            ({
                let s = if old(self)@.held is Guideline {
                    old(self)@.committed()
                } else {
                    old(self)@
                };
                match selection_moved(
                    s.glyph.contours,
                    s.selection,
                    m,
                    s.glyph.contours.len() as int,
                ) {
                    Some((changes, moves)) => {
                        let g = GlyphView {
                            contours: changed(s.glyph.contours, changes, changes.len() as int),
                            ..s.glyph
                        };
                        r matches Ok(moved) && moved@ == moves && final(self)@ == (StateView {
                            glyph: g,
                            index: entries_of(g),
                            held: Held::Points(s.before_drag().contours),
                            ..s
                        })
                    },
                    None => r matches Err(e) && e == EditError::OutOfRange && final(self)@ == s,
                }
            }),
    {
        let guideline_dragged: bool = match &self.preview {
            Preview::Guideline(_, _) => true,
            _ => false,
        };
        if guideline_dragged {
            self.commit();
        }
        let (action, moved) = match self.glyph.transform_selection(self.selection.as_slice(), m) {
            Ok(found) => found,
            Err(e) => {
                return Err(e);
            },
        };
        let settled: bool = match &self.preview {
            Preview::Settled => true,
            _ => false,
        };
        if settled {
            self.preview = Preview::Points(copied_contours(&self.glyph.contours));
        }
        let ghost before = self@;
        self.glyph.apply(&action);
        self.kd_tree = SpatialIndex::from_glyph(&self.glyph);
        proof {
            assert(action@->changes == selection_moved(
                before.glyph.contours,
                before.selection,
                m,
                before.glyph.contours.len() as int,
            ).unwrap().0);
            crate::actions::lemma_changed_len(
                before.glyph.contours,
                action@->changes,
                action@->changes.len() as int,
            );
        }
        Ok(moved)
    }

    /// Moves the guideline `index` by the matrix `m` and turns it by `turn`
    /// as a part of a drag: the glyph follows, the log is left alone, and the
    /// guideline as it was when the drag began is held back. A drag of points
    /// or of another guideline is ended and recorded first. Tells whether the
    /// guideline was moved; a guideline that is not there, or would leave the
    /// lattice or the range of its angle, is not.
    pub fn transform_guideline(&mut self, index: usize, m: Matrix, turn: i32) -> (r: bool)
        requires
            old(self)@.wf(),
        ensures
            final(self)@.wf(),
            ({
                let s = if old(self)@.held matches Held::Guideline(i, _) && i == index {
                    old(self)@
                } else {
                    old(self)@.committed()
                };
                let moved = index < s.glyph.guidelines.len() && m.apply(
                    s.glyph.guidelines[index as int].position,
                ) is Some && -0x8000_0000 <= s.glyph.guidelines[index as int].angle + turn
                    <= 0x7fff_ffff;
                &&& r == moved
                &&& moved ==> final(self)@ == (StateView {
                    glyph: GlyphView {
                        guidelines: s.glyph.guidelines.update(
                            index as int,
                            Guideline {
                                position: m.apply(
                                    s.glyph.guidelines[index as int].position,
                                ).unwrap(),
                                angle: (s.glyph.guidelines[index as int].angle + turn) as i32,
                            },
                        ),
                        ..s.glyph
                    },
                    held: Held::Guideline(index as int, s.before_drag().guidelines[index as int]),
                    ..s
                })
                &&& !moved ==> final(self)@ == s
            }),
    {
        let same: bool = match &self.preview {
            Preview::Guideline(i, _) => *i == index,
            _ => false,
        };
        if !same {
            self.commit();
        }
        let action: EditAction = match self.glyph.transform_guideline(index, m, turn) {
            Some(action) => action,
            None => {
                return false;
            },
        };
        if !same {
            self.preview = Preview::Guideline(index, self.glyph.guidelines[index]);
        }
        self.glyph.apply(&action);
        proof {
            assert(self@.glyph.contours == old(self)@.glyph.contours);
        }
        true
    }

    /// Adds the guideline that a press on the rulers at `event_position`
    /// draws out, through `position`, and records the edit; a drag is ended
    /// and recorded first. Returns the number of the new guideline, or `None`
    /// where the press is not on a ruler, the rulers are not shown or the
    /// guidelines are locked, and nothing changes.
    pub fn draw_out_guideline(&mut self, event_position: ViewPoint, position: UnitPoint) -> (r:
        Option<usize>)
        requires
            old(self)@.wf(),
        ensures
            final(self)@.wf(),
            match ruler_angle(
                event_position,
                old(self)@.ruler_breadth,
                old(self)@.show_rulers,
                old(self)@.lock_guidelines,
            ) {
                Some(angle) => r == Some(old(self)@.glyph.guidelines.len() as usize) && final(self)@ == old(self)@.performed(
                    ActionView::AddGuideline {
                        index: old(self)@.glyph.guidelines.len() as int,
                        guideline: Guideline { position: position.0, angle },
                    },
                ),
                None => r is None && final(self)@ == old(self)@,
            },
    {
        match ruler_guideline_angle(
            event_position,
            self.ruler_breadth,
            self.show_rulers,
            self.lock_guidelines,
        ) {
            Some(angle) => {
                let index: usize = self.glyph.guidelines.len();
                let action: EditAction = self.glyph.new_guideline(angle, position.0);
                self.perform(action);
                Some(index)
            },
            None => None,
        }
    }

    /// Carries out what the tool answered to a press or a release: the
    /// segment under the pointer is forgotten, the guideline is shown as
    /// selected, the selection becomes what the answer says (with `hits` the
    /// points under the pointer), and a drag that is over is recorded.
    pub fn carry_out(&mut self, reaction: &Reaction, hits: &Vec<(GlyphPointIndex, Point)>)
        requires
            old(self)@.wf(),
        ensures
            final(self)@.wf(),
            ({
                let s = if reaction.commit {
                    old(self)@.committed()
                } else {
                    old(self)@
                };
                final(self)@ == (StateView {
                    selection: old(self)@.reselected(reaction.selection, hits@),
                    hovering: if reaction.clear_hover {
                        None
                    } else {
                        old(self)@.hovering
                    },
                    selected_guideline: if reaction.select_guideline is Some {
                        reaction.select_guideline
                    } else {
                        old(self)@.selected_guideline
                    },
                    ..s
                })
            }),
    {
        if reaction.clear_hover {
            self.hovering = None;
        }
        if reaction.select_guideline.is_some() {
            self.selected_guideline = reaction.select_guideline;
        }
        match reaction.selection {
            SelectionChange::Keep => {},
            SelectionChange::SetToHits => {
                self.selection = names(hits);
            },
            SelectionChange::Clear => {
                self.selection = Vec::new();
                assert(self.selection@ =~= Seq::empty());
            },
            SelectionChange::Region(a, b) => {
                let found: Vec<(GlyphPointIndex, Point)> = self.kd_tree.query_region((a.0, b.0));
                self.selection = names(&found);
            },
        }
        if reaction.commit {
            self.commit();
        }
    }

    /// Carries out what the tool answered to a move of the pointer: the
    /// segment under the pointer is shown, the selected points or the
    /// guideline follow the pointer as a part of a drag, or the camera is
    /// moved. Tells whether the glyph or the camera was moved.
    pub fn carry_out_motion(&mut self, motion: Motion) -> (r: bool)
        requires
            old(self)@.wf(),
        ensures
            final(self)@.wf(),
            match motion {
                Motion::Nothing | Motion::ResizeSelection => !r && final(self)@ == old(self)@,
                Motion::Hover { clear, curve } => !r && final(self)@ == (StateView {
                    hovering: if curve is Some {
                        curve
                    } else if clear {
                        None
                    } else {
                        old(self)@.hovering
                    },
                    ..old(self)@
                }),
                Motion::MoveSelection(m) => {
                    let s = if old(self)@.held is Guideline {
                        old(self)@.committed()
                    } else {
                        old(self)@
                    };
                    match selection_moved(
                        s.glyph.contours,
                        s.selection,
                        m,
                        s.glyph.contours.len() as int,
                    ) {
                        Some((changes, moves)) => {
                            let g = GlyphView {
                                contours: changed(s.glyph.contours, changes, changes.len() as int),
                                ..s.glyph
                            };
                            r && final(self)@ == (StateView {
                                glyph: g,
                                index: entries_of(g),
                                held: Held::Points(s.before_drag().contours),
                                ..s
                            })
                        },
                        None => !r && final(self)@ == s,
                    }
                },
                Motion::MoveGuideline(i, m) => {
                    let s = if old(self)@.held matches Held::Guideline(j, _) && j == i {
                        old(self)@
                    } else {
                        old(self)@.committed()
                    };
                    let moved = i < s.glyph.guidelines.len() && m.apply(
                        s.glyph.guidelines[i as int].position,
                    ) is Some;
                    &&& r == moved
                    &&& moved ==> final(self)@ == (StateView {
                        glyph: GlyphView {
                            guidelines: s.glyph.guidelines.update(
                                i as int,
                                Guideline {
                                    position: m.apply(
                                        s.glyph.guidelines[i as int].position,
                                    ).unwrap(),
                                    angle: s.glyph.guidelines[i as int].angle,
                                },
                            ),
                            ..s.glyph
                        },
                        held: Held::Guideline(i as int, s.before_drag().guidelines[i as int]),
                        ..s
                    })
                    &&& !moved ==> final(self)@ == s
                },
                Motion::PanCamera(delta) => {
                    let t = old(self)@.canvas.transformation;
                    &&& r == t.dragged(delta.0).is_some()
                    &&& r ==> final(self)@ == (StateView {
                        canvas: Canvas {
                            transformation: Transformation {
                                camera: UnitPoint(t.dragged(delta.0).unwrap()),
                                ..t
                            },
                            ..old(self)@.canvas
                        },
                        ..old(self)@
                    })
                    &&& !r ==> final(self)@ == old(self)@
                },
            },
    {
        match motion {
            Motion::Nothing => false,
            Motion::ResizeSelection => false,
            Motion::Hover { clear, curve } => {
                if curve.is_some() {
                    self.hovering = curve;
                } else if clear {
                    self.hovering = None;
                }
                false
            },
            Motion::MoveSelection(m) => match self.transform_selection(m) {
                Ok(_) => true,
                Err(_) => false,
            },
            Motion::MoveGuideline(i, m) => self.transform_guideline(i, m, 0),
            Motion::PanCamera(delta) => self.canvas.transformation.move_camera_by_delta(delta),
        }
    }
}

} // verus!
