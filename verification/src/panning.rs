//! The tool that pans the canvas, drags points and guidelines, and draws the
//! selection box: what it makes of the events of the pointer.
//!
//! The tool decides; the caller looks up what lies under the pointer before
//! it asks, and carries out what the tool answers.

use vstd::prelude::*;
use crate::arith::floor_div;
use crate::canvas::UnitPoint;
use crate::canvas::ViewPoint;
use crate::continuity::Ratio;
use crate::matrix::Matrix;
use crate::points::lattice;
use crate::points::lattice_point;
use crate::points::Point;
use crate::shape_tools::MouseButton;

verus! {

/// The angle of a guideline drawn out of the corner where the rulers meet,
/// in hundredths of a degree.
pub const CORNER_ANGLE: i32 = -4500;

/// The angle of a guideline drawn out of the ruler along the second axis, in
/// hundredths of a degree.
pub const UPRIGHT_ANGLE: i32 = 9000;

/// How far one step of the wheel pans the view.
pub const SCROLL_STEP: i32 = 5;

/// How far one step of the wheel turns a guideline, in hundredths of a
/// degree.
pub const TURN_STEP: i32 = 150;

/// What the tool is doing with the points.
#[derive(Clone, Copy, Debug, PartialEq, Eq, Structural, Hash)]
pub enum ControlPointMode {
    /// Nothing.
    Idle,
    /// Dragging the selected points.
    Drag,
    /// Dragging a guideline.
    DragGuideline(usize),
    /// Drawing the selection box.
    Select,
}

/// The shape of the pointer.
#[derive(Clone, Copy, Debug, PartialEq, Eq, Structural, Hash)]
pub enum Cursor {
    Arrow,
    Grab,
    Crosshair,
}

/// What becomes of the selection.
#[derive(Clone, Copy, Debug, PartialEq, Eq, Structural, Hash)]
pub enum SelectionChange {
    /// It stays.
    Keep,
    /// It becomes the points under the pointer.
    SetToHits,
    /// It becomes empty.
    Clear,
    /// It becomes the points in the rectangle with these opposite corners.
    Region(UnitPoint, UnitPoint),
}

/// A menu to pop up.
#[derive(Clone, Copy, Debug, PartialEq, Eq, Structural, Hash)]
pub enum Menu {
    /// The menu of the guideline: edit it, or delete it.
    Guideline(usize),
    /// The menu of the contour: reverse its direction.
    Contour(usize),
}

/// The state of the tool.
#[derive(Clone, Copy, Debug, PartialEq, Eq, Structural, Hash)]
pub struct PanningTool {
    pub active: bool,
    pub mode: ControlPointMode,
    pub is_selection_empty: bool,
    pub is_selection_active: bool,
    pub selection_upper_left: UnitPoint,
    pub selection_bottom_right: UnitPoint,
}

/// What the caller is to do after a press or a release of a button.
#[derive(Clone, Copy, Debug, PartialEq, Eq, Structural, Hash)]
pub struct Reaction {
    /// Whether the event is dealt with.
    pub inhibit: bool,
    /// The shape to give the pointer, if it changes.
    pub cursor: Option<Cursor>,
    /// Whether the canvas is to be drawn anew.
    pub redraw: bool,
    /// Whether the segment under the pointer is no longer to be shown.
    pub clear_hover: bool,
    /// The guideline to show as selected, if any.
    pub select_guideline: Option<usize>,
    /// What becomes of the selection.
    pub selection: SelectionChange,
    /// The menu to pop up, if any.
    pub menu: Option<Menu>,
    /// Whether the drag is over: what was moved is now to be recorded as one
    /// edit.
    pub commit: bool,
}

/// A segment of a glyph: the contour, and the segment in it.
#[derive(Clone, Copy, Debug, PartialEq, Eq, Structural, Hash)]
pub struct CurveIndex {
    pub contour_index: usize,
    pub curve_index: usize,
}

/// What lies under the pointer when a button is pressed.
#[derive(Clone, Copy, Debug, PartialEq, Eq, Structural, Hash)]
pub struct PressScene {
    /// Where the pointer is.
    pub position: UnitPoint,
    /// Whether the guidelines are locked.
    pub lock_guidelines: bool,
    /// The first guideline under the pointer, if any.
    pub guideline_hit: Option<usize>,
    /// Whether no point lies under the pointer.
    pub hits_empty: bool,
    /// Whether one of the points under the pointer is selected.
    pub hits_selected: bool,
    /// Whether nothing is selected.
    pub selection_empty: bool,
}

/// What lies under the pointer when a button is released.
#[derive(Clone, Copy, Debug, PartialEq, Eq, Structural, Hash)]
pub struct ReleaseScene {
    /// Where the pointer is.
    pub position: UnitPoint,
    /// The contour of the first segment under the pointer, if any.
    pub contour_hit: Option<usize>,
}

/// What the pointer does when it is moved.
#[derive(Clone, Copy, Debug, PartialEq, Eq, Structural, Hash)]
pub struct MotionScene {
    /// Where the pointer is, in the unit space.
    pub position: UnitPoint,
    /// Where the pointer is, in the view.
    pub event_position: ViewPoint,
    /// Where the pointer was seen last.
    pub mouse: ViewPoint,
    /// The magnification of the view: how many steps of the view make how
    /// many steps of the unit space.
    pub magnification: Ratio,
    /// Whether no point lies under the pointer.
    pub hits_empty: bool,
    /// The first segment under the pointer, if any.
    pub curve_hit: Option<CurveIndex>,
}

/// What the caller is to do after a move of the pointer.
#[derive(Clone, Copy, Debug, PartialEq, Eq, Structural, Hash)]
pub enum Motion {
    /// Nothing.
    Nothing,
    /// Show what lies under the pointer: no segment any longer, or this one.
    Hover { clear: bool, curve: Option<CurveIndex> },
    /// Move the selected points by the matrix.
    MoveSelection(Matrix),
    /// Move the guideline by the matrix.
    MoveGuideline(usize, Matrix),
    /// Move the camera by the way the pointer went in the view.
    PanCamera(ViewPoint),
    /// Draw the selection box anew.
    ResizeSelection,
}

/// What the caller is to do after a turn of the wheel.
#[derive(Clone, Copy, Debug, PartialEq, Eq, Structural, Hash)]
pub enum Scroll {
    /// Nothing: the event is left to others.
    Nothing,
    /// Move the camera by this way in the view.
    Pan(ViewPoint),
    /// Turn the guideline by this angle, in hundredths of a degree.
    TurnGuideline(usize, i32),
}

/// Where the pointer is to be put when it has run into the border of the
/// view: how far the pointer is moved on the screen, and how far the place
/// where it was seen last is moved with it.
#[derive(Clone, Copy, Debug, PartialEq, Eq, Structural, Hash)]
pub struct Warp {
    pub pointer_x: i64,
    pub pointer_y: i64,
    pub mouse_x: i64,
    pub mouse_y: i64,
}

/// The reaction that asks for nothing.
pub open spec fn quiet(inhibit: bool) -> Reaction {
    Reaction {
        inhibit,
        cursor: None,
        redraw: false,
        clear_hover: false,
        select_guideline: None,
        selection: SelectionChange::Keep,
        menu: None,
        commit: false,
    }
}

/// The angle of the guideline that a press on the rulers draws out, if the
/// press is on a ruler: out of the corner, out of the ruler along the second
/// axis, or out of the ruler along the first.
pub open spec fn ruler_angle(
    event_position: ViewPoint,
    ruler_breadth: u32,
    show_rulers: bool,
    lock_guidelines: bool,
) -> Option<i32> {
    let x = event_position.0.x;
    let y = event_position.0.y;
    if show_rulers && !lock_guidelines && (x < ruler_breadth || y < ruler_breadth) {
        if x < ruler_breadth && y < ruler_breadth {
            Some(CORNER_ANGLE)
        } else if x < ruler_breadth {
            Some(UPRIGHT_ANGLE)
        } else {
            Some(0i32)
        }
    } else {
        None
    }
}

impl PanningTool {
    /// What a press of the primary button makes of an idle tool.
    pub open spec fn grabbed(self, scene: PressScene) -> (PanningTool, Reaction) {
        if !scene.lock_guidelines && scene.guideline_hit is Some {
            let i = scene.guideline_hit.unwrap();
            (
                PanningTool { active: true, mode: ControlPointMode::DragGuideline(i), ..self },
                Reaction { cursor: Some(Cursor::Grab), select_guideline: Some(i), ..quiet(true) },
            )
        } else {
            let reselect = scene.selection_empty || !scene.hits_selected;
            let selection = if reselect {
                SelectionChange::SetToHits
            } else {
                SelectionChange::Keep
            };
            let nothing = if reselect {
                scene.hits_empty
            } else {
                scene.selection_empty
            };
            if nothing {
                (
                    PanningTool { active: true, mode: ControlPointMode::Select, ..self },
                    Reaction {
                        cursor: Some(Cursor::Arrow),
                        redraw: true,
                        clear_hover: true,
                        selection,
                        ..quiet(true)
                    },
                )
            } else {
                (
                    PanningTool { active: true, mode: ControlPointMode::Drag, ..self },
                    Reaction { cursor: Some(Cursor::Grab), selection, ..quiet(true) },
                )
            }
        }
    }

    /// What a press of the primary button makes of a tool that draws the
    /// selection box: it starts a new box, or ends the one that is drawn.
    pub open spec fn boxed(self, scene: PressScene) -> (PanningTool, Reaction) {
        if self.is_selection_active && !self.is_selection_empty {
            (PanningTool { is_selection_empty: true, ..self }, quiet(true))
        } else {
            (
                PanningTool {
                    active: true,
                    is_selection_empty: false,
                    is_selection_active: true,
                    selection_upper_left: scene.position,
                    selection_bottom_right: scene.position,
                    ..self
                },
                Reaction { selection: SelectionChange::Clear, ..quiet(true) },
            )
        }
    }

    /// What the press of a button makes of the tool.
    pub open spec fn pressed(self, button: MouseButton, scene: PressScene) -> (
        PanningTool,
        Reaction,
    ) {
        match button {
            MouseButton::Middle => (
                PanningTool { active: true, mode: ControlPointMode::Idle, ..self },
                Reaction { cursor: Some(Cursor::Crosshair), ..quiet(true) },
            ),
            MouseButton::Primary => match self.mode {
                ControlPointMode::Drag | ControlPointMode::DragGuideline(_) => (
                    PanningTool { active: false, mode: ControlPointMode::Idle, ..self },
                    Reaction {
                        cursor: Some(Cursor::Arrow),
                        redraw: true,
                        clear_hover: true,
                        commit: true,
                        ..quiet(true)
                    },
                ),
                ControlPointMode::Idle => self.grabbed(scene),
                ControlPointMode::Select => self.boxed(scene),
            },
            MouseButton::Secondary => match self.mode {
                ControlPointMode::Idle => if scene.guideline_hit is Some {
                    (self, Reaction { menu: Some(Menu::Guideline(scene.guideline_hit.unwrap())), ..quiet(true) })
                } else {
                    (
                        PanningTool { active: false, ..self },
                        Reaction { cursor: Some(Cursor::Arrow), redraw: true, ..quiet(true) },
                    )
                },
                ControlPointMode::Select => (
                    PanningTool {
                        active: false,
                        mode: ControlPointMode::Idle,
                        is_selection_empty: true,
                        is_selection_active: false,
                        ..self
                    },
                    Reaction {
                        cursor: Some(Cursor::Arrow),
                        redraw: true,
                        selection: SelectionChange::Clear,
                        ..quiet(true)
                    },
                ),
                _ => (self, quiet(false)),
            },
            MouseButton::Other => (self, quiet(false)),
        }
    }

    /// What the release of a button makes of the tool.
    pub open spec fn released(self, button: MouseButton, scene: ReleaseScene) -> (
        PanningTool,
        Reaction,
    ) {
        if self.mode == ControlPointMode::Select {
            if self.is_selection_active && !self.is_selection_empty {
                (
                    PanningTool {
                        active: false,
                        mode: ControlPointMode::Idle,
                        is_selection_active: false,
                        selection_bottom_right: scene.position,
                        ..self
                    },
                    Reaction {
                        selection: SelectionChange::Region(
                            self.selection_upper_left,
                            scene.position,
                        ),
                        ..quiet(true)
                    },
                )
            } else {
                (self, quiet(false))
            }
        } else {
            let calm = PanningTool { is_selection_active: false, ..self };
            match button {
                MouseButton::Primary => if self.mode == ControlPointMode::Idle {
                    (calm, quiet(false))
                } else {
                    (
                        PanningTool { active: false, ..calm },
                        Reaction { cursor: Some(Cursor::Arrow), commit: true, ..quiet(true) },
                    )
                },
                MouseButton::Middle => (
                    PanningTool { active: false, ..calm },
                    Reaction { cursor: Some(Cursor::Arrow), ..quiet(true) },
                ),
                MouseButton::Secondary => if scene.contour_hit is Some {
                    (
                        calm,
                        Reaction {
                            cursor: Some(Cursor::Arrow),
                            menu: Some(Menu::Contour(scene.contour_hit.unwrap())),
                            ..quiet(true)
                        },
                    )
                } else {
                    (calm, Reaction { cursor: Some(Cursor::Arrow), ..quiet(false) })
                },
                MouseButton::Other => (calm, quiet(false)),
            }
        }
    }

    /// The matrix that moves by the way the pointer went, brought down to the
    /// unit space and rounded down, with the second axis turned over; `None`
    /// where the magnification is no ratio or the way does not fit.
    pub open spec fn drag_matrix(scene: MotionScene) -> Option<Matrix> {
        if !scene.magnification.wf() {
            None
        } else {
            match lattice(
                ((scene.event_position.0.x - scene.mouse.0.x) * scene.magnification.den) / (
                scene.magnification.num as int),
                -(((scene.event_position.0.y - scene.mouse.0.y) * scene.magnification.den) / (
                scene.magnification.num as int)),
            ) {
                Some(d) => Some(Matrix { xx: 1, yx: 0, xy: 0, yy: 1, x0: d.x, y0: d.y }),
                None => None,
            }
        }
    }

    /// What a move of the pointer makes of the tool, and what the caller is
    /// to do; the flag tells whether the event is dealt with.
    pub open spec fn moved(self, scene: MotionScene) -> (PanningTool, Motion, bool) {
        if !self.active {
            if scene.hits_empty || scene.curve_hit is Some {
                (self, Motion::Hover { clear: scene.hits_empty, curve: scene.curve_hit }, false)
            } else {
                (self, Motion::Nothing, false)
            }
        } else {
            match self.mode {
                ControlPointMode::Drag => match Self::drag_matrix(scene) {
                    Some(m) => (self, Motion::MoveSelection(m), true),
                    None => (self, Motion::Nothing, true),
                },
                ControlPointMode::DragGuideline(i) => match Self::drag_matrix(scene) {
                    Some(m) => (self, Motion::MoveGuideline(i, m), true),
                    None => (self, Motion::Nothing, true),
                },
                ControlPointMode::Idle => match lattice(
                    scene.event_position.0.x - scene.mouse.0.x,
                    scene.event_position.0.y - scene.mouse.0.y,
                ) {
                    Some(d) => (self, Motion::PanCamera(ViewPoint(d)), true),
                    None => (self, Motion::Nothing, true),
                },
                ControlPointMode::Select => if self.is_selection_active
                    && !self.is_selection_empty {
                    (
                        PanningTool { selection_bottom_right: scene.position, ..self },
                        Motion::ResizeSelection,
                        true,
                    )
                } else {
                    (self, Motion::Nothing, false)
                },
            }
        }
    }

    /// What a turn of the wheel by `(dx, dy)` asks for: with shift, a pan of
    /// the view, along the first axis only with control as well; with
    /// control alone while a guideline is dragged, a turn of the guideline.
    pub open spec fn scrolled(self, shift: bool, control: bool, dx: i32, dy: i32) -> Scroll {
        if shift {
            let along = if control && crate::points::abs(dy as int) > crate::points::abs(
                dx as int,
            ) {
                dy
            } else {
                dx
            };
            let across = if control {
                0i32
            } else {
                dy
            };
            match lattice(SCROLL_STEP * along, SCROLL_STEP * across) {
                Some(d) => Scroll::Pan(ViewPoint(d)),
                None => Scroll::Nothing,
            }
        } else if control {
            match self.mode {
                ControlPointMode::DragGuideline(i) => match lattice(TURN_STEP * dy, 0) {
                    Some(d) => Scroll::TurnGuideline(i, d.x),
                    None => Scroll::Nothing,
                },
                _ => Scroll::Nothing,
            }
        } else {
            Scroll::Nothing
        }
    }
}

/// Where the pointer is to be put when, at `(x, y)` in a view of the given
/// size, it has come within the breadth of the rulers of the border: on the
/// far side of the view. `None` where it has not.
pub open spec fn warped(x: i32, y: i32, width: u32, height: u32, ruler_breadth: u32) -> Option<
    Warp,
> {
    if x + ruler_breadth >= width {
        Some(
            Warp {
                pointer_x: (3 * ruler_breadth - width) as i64,
                pointer_y: 0,
                mouse_x: (-width) as i64,
                mouse_y: 0,
            },
        )
    } else if y + ruler_breadth >= height {
        Some(
            Warp {
                pointer_x: 0,
                pointer_y: (-height - ruler_breadth) as i64,
                mouse_x: 0,
                mouse_y: (-height) as i64,
            },
        )
    } else if x <= ruler_breadth {
        Some(
            Warp {
                pointer_x: (width - 3 * ruler_breadth) as i64,
                pointer_y: 0,
                mouse_x: width as i64,
                mouse_y: 0,
            },
        )
    } else if y <= ruler_breadth {
        Some(
            Warp {
                pointer_x: 0,
                pointer_y: (height - 3 * ruler_breadth) as i64,
                mouse_x: 0,
                mouse_y: height as i64,
            },
        )
    } else {
        None
    }
}

/// The reaction that asks for nothing.
fn quiet_reaction(inhibit: bool) -> (r: Reaction)
    ensures
        r == quiet(inhibit),
{
    Reaction {
        inhibit,
        cursor: None,
        redraw: false,
        clear_hover: false,
        select_guideline: None,
        selection: SelectionChange::Keep,
        menu: None,
        commit: false,
    }
}

/// The angle of the guideline that a press at `event_position` draws out of
/// the rulers, in hundredths of a degree; `None` where the press is not on a
/// ruler, the rulers are not shown or the guidelines are locked.
pub fn ruler_guideline_angle(
    event_position: ViewPoint,
    ruler_breadth: u32,
    show_rulers: bool,
    lock_guidelines: bool,
) -> (r: Option<i32>)
    ensures
        r == ruler_angle(event_position, ruler_breadth, show_rulers, lock_guidelines),
{
    let x: i64 = event_position.0.x as i64;
    let y: i64 = event_position.0.y as i64;
    let b: i64 = ruler_breadth as i64;
    if show_rulers && !lock_guidelines && (x < b || y < b) {
        if x < b && y < b {
            Some(CORNER_ANGLE)
        } else if x < b {
            Some(UPRIGHT_ANGLE)
        } else {
            Some(0)
        }
    } else {
        None
    }
}

/// Where the pointer is to be put when it has run into the border of the
/// view; see `warped`.
pub fn edge_warp(x: i32, y: i32, width: u32, height: u32, ruler_breadth: u32) -> (r: Option<Warp>)
    ensures
        r == warped(x, y, width, height, ruler_breadth),
{
    let b: i64 = ruler_breadth as i64;
    let w: i64 = width as i64;
    let h: i64 = height as i64;
    if x as i64 + b >= w {
        Some(Warp { pointer_x: 3 * b - w, pointer_y: 0, mouse_x: -w, mouse_y: 0 })
    } else if y as i64 + b >= h {
        Some(Warp { pointer_x: 0, pointer_y: -h - b, mouse_x: 0, mouse_y: -h })
    } else if x as i64 <= b {
        Some(Warp { pointer_x: w - 3 * b, pointer_y: 0, mouse_x: w, mouse_y: 0 })
    } else if y as i64 <= b {
        Some(Warp { pointer_x: 0, pointer_y: h - 3 * b, mouse_x: 0, mouse_y: h })
    } else {
        None
    }
}

impl PanningTool {
    /// The tool at rest.
    pub fn new() -> (r: PanningTool)
        ensures
            r == (PanningTool {
                active: false,
                mode: ControlPointMode::Idle,
                is_selection_empty: true,
                is_selection_active: false,
                selection_upper_left: UnitPoint(Point { x: 0, y: 0 }),
                selection_bottom_right: UnitPoint(Point { x: 0, y: 0 }),
            }),
    {
        PanningTool {
            active: false,
            mode: ControlPointMode::Idle,
            is_selection_empty: true,
            is_selection_active: false,
            selection_upper_left: UnitPoint(Point { x: 0, y: 0 }),
            selection_bottom_right: UnitPoint(Point { x: 0, y: 0 }),
        }
    }

    /// Takes the tool into use.
    pub fn on_activate(&mut self)
        ensures
            *final(self) == (PanningTool { active: true, ..*old(self) }),
    {
        self.active = true;
    }

    /// Puts the tool away.
    pub fn on_deactivate(&mut self)
        ensures
            *final(self) == (PanningTool { active: false, ..*old(self) }),
    {
        self.active = false;
    }

    /// A button was pressed.
    ///
    /// The middle button takes the tool into use for panning. The primary
    /// button ends a drag; on an idle tool it takes hold of the guideline or
    /// of the points under the pointer, or, where there is nothing to take
    /// hold of, turns to the selection box; on the selection box it starts a
    /// box, or ends the one that is drawn. The secondary button pops up the
    /// menu of the guideline under the pointer, or puts the tool away.
    pub fn on_button_press_event(&mut self, button: MouseButton, scene: PressScene) -> (r: Reaction)
        ensures
            (*final(self), r) == old(self).pressed(button, scene),
    {
        match button {
            MouseButton::Middle => {
                self.mode = ControlPointMode::Idle;
                self.active = true;
                let mut r: Reaction = quiet_reaction(true);
                r.cursor = Some(Cursor::Crosshair);
                r
            },
            MouseButton::Primary => match self.mode {
                ControlPointMode::Drag | ControlPointMode::DragGuideline(_) => {
                    self.mode = ControlPointMode::Idle;
                    self.active = false;
                    let mut r: Reaction = quiet_reaction(true);
                    r.cursor = Some(Cursor::Arrow);
                    r.redraw = true;
                    r.clear_hover = true;
                    r.commit = true;
                    r
                },
                ControlPointMode::Idle => self.grab(scene),
                ControlPointMode::Select => {
                    let mut r: Reaction = quiet_reaction(true);
                    if self.is_selection_active && !self.is_selection_empty {
                        self.is_selection_empty = true;
                    } else {
                        self.selection_upper_left = scene.position;
                        self.selection_bottom_right = scene.position;
                        self.is_selection_empty = false;
                        self.is_selection_active = true;
                        self.active = true;
                        r.selection = SelectionChange::Clear;
                    }
                    r
                },
            },
            MouseButton::Secondary => match self.mode {
                ControlPointMode::Idle => {
                    let mut r: Reaction = quiet_reaction(true);
                    match scene.guideline_hit {
                        Some(i) => {
                            r.menu = Some(Menu::Guideline(i));
                        },
                        None => {
                            self.active = false;
                            r.cursor = Some(Cursor::Arrow);
                            r.redraw = true;
                        },
                    }
                    r
                },
                ControlPointMode::Select => {
                    self.is_selection_empty = true;
                    self.is_selection_active = false;
                    self.active = false;
                    self.mode = ControlPointMode::Idle;
                    let mut r: Reaction = quiet_reaction(true);
                    r.cursor = Some(Cursor::Arrow);
                    r.redraw = true;
                    r.selection = SelectionChange::Clear;
                    r
                },
                _ => quiet_reaction(false),
            },
            MouseButton::Other => quiet_reaction(false),
        }
    }

    /// The primary button was pressed on an idle tool.
    fn grab(&mut self, scene: PressScene) -> (r: Reaction)
        ensures
            (*final(self), r) == old(self).grabbed(scene),
    {
        let mut r: Reaction = quiet_reaction(true);
        if !scene.lock_guidelines && scene.guideline_hit.is_some() {
            let i: usize = scene.guideline_hit.unwrap();
            self.mode = ControlPointMode::DragGuideline(i);
            self.active = true;
            r.cursor = Some(Cursor::Grab);
            r.select_guideline = Some(i);
            return r;
        }
        let reselect: bool = scene.selection_empty || !scene.hits_selected;
        if reselect {
            r.selection = SelectionChange::SetToHits;
        }
        let nothing: bool = if reselect {
            scene.hits_empty
        } else {
            scene.selection_empty
        };
        self.active = true;
        if nothing {
            self.mode = ControlPointMode::Select;
            r.cursor = Some(Cursor::Arrow);
            r.redraw = true;
            r.clear_hover = true;
        } else {
            self.mode = ControlPointMode::Drag;
            r.cursor = Some(Cursor::Grab);
        }
        r
    }

    /// A button was released.
    ///
    /// On the selection box the release ends the box and selects the points
    /// in it. Otherwise the primary and the middle button put the tool away,
    /// and the primary button ends a drag, which is then to be recorded;
    /// the secondary button pops up the menu of the contour under the
    /// pointer.
    pub fn on_button_release_event(&mut self, button: MouseButton, scene: ReleaseScene) -> (r:
        Reaction)
        ensures
            (*final(self), r) == old(self).released(button, scene),
    {
        if self.mode == ControlPointMode::Select {
            if self.is_selection_active && !self.is_selection_empty {
                let mut r: Reaction = quiet_reaction(true);
                r.selection = SelectionChange::Region(self.selection_upper_left, scene.position);
                self.is_selection_active = false;
                self.active = false;
                self.selection_bottom_right = scene.position;
                self.mode = ControlPointMode::Idle;
                return r;
            }
            return quiet_reaction(false);
        }
        self.is_selection_active = false;
        match button {
            MouseButton::Primary => {
                if self.mode == ControlPointMode::Idle {
                    return quiet_reaction(false);
                }
                self.active = false;
                let mut r: Reaction = quiet_reaction(true);
                r.cursor = Some(Cursor::Arrow);
                r.commit = true;
                r
            },
            MouseButton::Middle => {
                self.active = false;
                let mut r: Reaction = quiet_reaction(true);
                r.cursor = Some(Cursor::Arrow);
                r
            },
            MouseButton::Secondary => {
                let mut r: Reaction = quiet_reaction(false);
                r.cursor = Some(Cursor::Arrow);
                match scene.contour_hit {
                    Some(i) => {
                        r.menu = Some(Menu::Contour(i));
                        r.inhibit = true;
                    },
                    None => {},
                }
                r
            },
            MouseButton::Other => quiet_reaction(false),
        }
    }

    /// The matrix that moves by the way the pointer went; see `drag_matrix`.
    fn drag(scene: &MotionScene) -> (r: Option<Matrix>)
        ensures
            r == Self::drag_matrix(*scene),
    {
        if scene.magnification.num == 0 || scene.magnification.den == 0 {
            return None;
        }
        let k: i128 = scene.magnification.num as i128;
        let d: i128 = scene.magnification.den as i128;
        let x: i128 = scene.event_position.0.x as i128 - scene.mouse.0.x as i128;
        let y: i128 = scene.event_position.0.y as i128 - scene.mouse.0.y as i128;
        proof {
            crate::points::lemma_product_bound(
                x as int,
                d as int,
                0x1_0000_0000,
                0x1_0000_0000_0000_0000,
            );
            crate::points::lemma_product_bound(
                y as int,
                d as int,
                0x1_0000_0000,
                0x1_0000_0000_0000_0000,
            );
            crate::arith::lemma_floor_div_between(
                x * d,
                k as int,
                -0x1_0000_0000_0000_0000_0000_0000,
                0x1_0000_0000_0000_0000_0000_0000,
            );
            crate::arith::lemma_floor_div_between(
                y * d,
                k as int,
                -0x1_0000_0000_0000_0000_0000_0000,
                0x1_0000_0000_0000_0000_0000_0000,
            );
        }
        let dx: i128 = floor_div(x * d, k);
        let dy: i128 = floor_div(y * d, k);
        match lattice_point(dx, -dy) {
            Some(d) => Some(Matrix::translation(d.x, d.y)),
            None => None,
        }
    }

    /// The pointer was moved. Tells what the caller is to do, and whether the
    /// event is dealt with.
    ///
    /// A tool that is not in use shows what lies under the pointer. A drag
    /// moves the selected points, or the guideline, by the way the pointer
    /// went. An idle tool in use pans the camera. The selection box follows
    /// the pointer.
    pub fn on_motion_notify_event(&mut self, scene: MotionScene) -> (r: (Motion, bool))
        ensures
            (*final(self), r.0, r.1) == old(self).moved(scene),
    {
        if !self.active {
            if scene.hits_empty || scene.curve_hit.is_some() {
                return (Motion::Hover { clear: scene.hits_empty, curve: scene.curve_hit }, false);
            }
            return (Motion::Nothing, false);
        }
        match self.mode {
            ControlPointMode::Drag => match Self::drag(&scene) {
                Some(m) => (Motion::MoveSelection(m), true),
                None => (Motion::Nothing, true),
            },
            ControlPointMode::DragGuideline(i) => match Self::drag(&scene) {
                Some(m) => (Motion::MoveGuideline(i, m), true),
                None => (Motion::Nothing, true),
            },
            ControlPointMode::Idle => match scene.event_position.0.checked_sub(scene.mouse.0) {
                Some(d) => (Motion::PanCamera(ViewPoint(d)), true),
                None => (Motion::Nothing, true),
            },
            ControlPointMode::Select => {
                if self.is_selection_active && !self.is_selection_empty {
                    self.selection_bottom_right = scene.position;
                    (Motion::ResizeSelection, true)
                } else {
                    (Motion::Nothing, false)
                }
            },
        }
    }

    /// The wheel was turned by `(dx, dy)`; see `scrolled`.
    pub fn on_scroll_event(&self, shift: bool, control: bool, dx: i32, dy: i32) -> (r: Scroll)
        ensures
            r == self.scrolled(shift, control, dx, dy),
    {
        if shift {
            let ax: i64 = if dx < 0 { -(dx as i64) } else { dx as i64 };
            let ay: i64 = if dy < 0 { -(dy as i64) } else { dy as i64 };
            let along: i32 = if control && ay > ax { dy } else { dx };
            let across: i32 = if control { 0 } else { dy };
            match lattice_point(
                (SCROLL_STEP as i128) * (along as i128),
                (SCROLL_STEP as i128) * (across as i128),
            ) {
                Some(d) => Scroll::Pan(ViewPoint(d)),
                None => Scroll::Nothing,
            }
        } else if control {
            proof {
                crate::points::lemma_product_bound(TURN_STEP as int, dy as int, 150, 0x8000_0000);
            }
            match self.mode {
                ControlPointMode::DragGuideline(i) => match lattice_point(
                    (TURN_STEP as i128) * (dy as i128),
                    0,
                ) {
                    Some(d) => Scroll::TurnGuideline(i, d.x),
                    None => Scroll::Nothing,
                },
                _ => Scroll::Nothing,
            }
        } else {
            Scroll::Nothing
        }
    }
}

} // verus!
