use gerb::canvas::{UnitPoint, ViewPoint};
use gerb::continuity::{Continuity, Ratio};
use gerb::curves::Bezier;
use gerb::errors::EditError;
use gerb::matrix::Matrix;
use gerb::panning::{
    edge_warp, ruler_guideline_angle, ControlPointMode, Cursor, CurveIndex, Menu, Motion,
    MotionScene, PanningTool, PressScene, Reaction, ReleaseScene, Scroll, SelectionChange, Warp,
};
use gerb::points::Point;
use gerb::shape_tools::{EllipseTool, MouseButton, QuadrilateralTool, ShapeStep};
use gerb::shapes::{make_circle_bezier_curves, make_quadrilateral_bezier_curves};

fn p(x: i32, y: i32) -> Point {
    Point { x, y }
}

fn u(x: i32, y: i32) -> UnitPoint {
    UnitPoint(p(x, y))
}

fn positions(curves: &[Bezier]) -> Vec<Vec<Point>> {
    curves.iter().map(|b| b.points().iter().map(|q| q.position).collect()).collect()
}

fn four() -> [Bezier; 4] {
    [Bezier::empty(), Bezier::empty(), Bezier::empty(), Bezier::empty()]
}

fn quiet(inhibit: bool) -> Reaction {
    Reaction {
        inhibit,
        cursor: None,
        redraw: false,
        clear_hover: false,
        select_guideline: None,
        selection: SelectionChange::Keep,
        menu: None,
        commit: false,
    }
}

fn scene() -> PressScene {
    PressScene {
        position: u(7, 8),
        lock_guidelines: false,
        guideline_hit: None,
        hits_empty: true,
        hits_selected: false,
        selection_empty: true,
    }
}

#[test]
fn the_sides_of_a_quadrilateral() {
    let mut curves = four();
    curves[2].set_smooth(true);
    make_quadrilateral_bezier_curves(&mut curves, (p(0, 0), p(10, 1), p(12, 8), p(-1, 7)));
    assert_eq!(
        positions(&curves),
        vec![
            vec![p(0, 0), p(10, 1)],
            vec![p(10, 1), p(12, 8)],
            vec![p(12, 8), p(-1, 7)],
            vec![p(-1, 7), p(0, 0)],
        ]
    );
    assert!(curves[2].smooth() && !curves[0].smooth());
    assert_ne!(curves[0].point(1).uuid, curves[1].point(0).uuid);
}

#[test]
fn the_quarters_of_a_circle() {
    let mut curves = four();
    assert_eq!(make_circle_bezier_curves(&mut curves, (p(1000, -1000), 100_000)), Ok(()));
    assert_eq!(
        positions(&curves),
        vec![
            vec![p(101_006, -1000), p(100_874, 54_343), p(56_343, 98_874), p(1000, 99_006)],
            vec![p(1000, 99_006), p(-54_343, 98_874), p(-98_874, 54_343), p(-99_006, -1000)],
            vec![p(-99_006, -1000), p(-98_874, -56_343), p(-54_343, -100_874), p(1000, -101_006)],
            vec![p(1000, -101_006), p(56_343, -100_874), p(100_874, -56_343), p(101_006, -1000)],
        ]
    );
    assert_eq!(make_circle_bezier_curves(&mut curves, (p(5, 5), 0)), Ok(()));
    assert_eq!(positions(&curves)[3], vec![p(5, 5); 4]);
    assert_eq!(make_circle_bezier_curves(&mut curves, (p(5, 5), 1)), Ok(()));
    assert_eq!(positions(&curves)[0], vec![p(6, 5), p(6, 6), p(6, 6), p(5, 6)]);
}

#[test]
fn a_circle_off_the_lattice_is_not_laid_out() {
    let mut curves = four();
    make_circle_bezier_curves(&mut curves, (p(0, 0), 10)).unwrap();
    let before = positions(&curves);
    assert_eq!(
        make_circle_bezier_curves(&mut curves, (p(i32::MAX - 5, 0), 10)),
        Err(EditError::OutOfRange)
    );
    assert_eq!(make_circle_bezier_curves(&mut curves, (p(0, 0), u64::MAX)), Err(EditError::OutOfRange));
    assert_eq!(positions(&curves), before);
}

#[test]
fn the_quadrilateral_tool_draws_a_rectangle() {
    let mut tool = QuadrilateralTool::new();
    assert!(!tool.is_active());
    assert!(matches!(tool.on_button_press_event(MouseButton::Primary, u(1, 1)), ShapeStep::Ignored));
    tool.on_activate();
    assert!(matches!(tool.on_motion_notify_event(u(1, 1)), ShapeStep::Ignored));
    assert!(matches!(tool.on_button_press_event(MouseButton::Middle, u(1, 1)), ShapeStep::Ignored));
    assert!(matches!(tool.on_button_press_event(MouseButton::Primary, u(1, 2)), ShapeStep::Started));
    assert_eq!(tool.upper_left(), Some(u(1, 2)));
    assert_eq!(positions(tool.curves())[0], vec![p(1, 2), p(1, 2)]);
    assert!(matches!(tool.on_motion_notify_event(u(5, 9)), ShapeStep::Resized));
    assert_eq!(
        positions(tool.curves()),
        vec![
            vec![p(1, 2), p(5, 2)],
            vec![p(5, 2), p(5, 9)],
            vec![p(5, 9), p(1, 9)],
            vec![p(1, 9), p(1, 2)],
        ]
    );
    assert!(matches!(tool.on_button_press_event(MouseButton::Other, u(0, 0)), ShapeStep::Ignored));
    match tool.on_button_press_event(MouseButton::Primary, u(11, 12)) {
        ShapeStep::Finished(contour) => {
            assert!(!contour.is_open());
            assert_eq!(
                positions(contour.curves()),
                vec![
                    vec![p(1, 2), p(11, 2)],
                    vec![p(11, 2), p(11, 12)],
                    vec![p(11, 12), p(1, 12)],
                    vec![p(1, 12), p(1, 2)],
                ]
            );
            assert_eq!(contour.continuities(), &vec![Continuity::Positional; 4]);
            assert!(contour.curves().iter().all(|b| b.smooth()));
        }
        other => panic!("the rectangle is not finished: {:?}", other),
    }
    assert!(!tool.is_active());
    assert_eq!(tool.upper_left(), None);
    assert!(tool.curves().iter().all(|b| b.is_empty()));
}

#[test]
fn the_quadrilateral_tool_gives_up() {
    let mut tool = QuadrilateralTool::new();
    tool.on_activate();
    tool.on_button_press_event(MouseButton::Primary, u(1, 2));
    assert!(matches!(tool.on_button_press_event(MouseButton::Secondary, u(3, 3)), ShapeStep::Cancelled));
    assert!(!tool.is_active());
    assert_eq!(tool.upper_left(), None);
    tool.on_activate();
    tool.on_button_press_event(MouseButton::Primary, u(1, 2));
    tool.on_deactivate();
    assert!(!tool.is_active());
    assert_eq!(tool.upper_left(), None);
}

#[test]
fn the_ellipse_tool_draws_a_circle() {
    let mut tool = EllipseTool::new();
    assert!(matches!(tool.on_button_press_event(MouseButton::Primary, u(1, 1)), ShapeStep::Ignored));
    tool.on_activate();
    assert!(matches!(tool.on_button_press_event(MouseButton::Primary, u(0, 0)), ShapeStep::Started));
    assert_eq!(tool.center(), Some(u(0, 0)));
    assert_eq!(positions(tool.curves())[1], vec![p(0, 0); 4]);
    assert!(matches!(tool.on_motion_notify_event(u(600, 800)), ShapeStep::Resized));
    assert_eq!(
        positions(tool.curves())[0],
        vec![p(1000, 0), p(999, 553), p(553, 999), p(0, 1000)]
    );
    assert!(matches!(
        tool.on_motion_notify_event(u(i32::MAX, i32::MAX)),
        ShapeStep::OutOfRange
    ));
    assert_eq!(positions(tool.curves())[0][0], p(1000, 0));
    assert!(matches!(
        tool.on_button_press_event(MouseButton::Primary, u(i32::MAX, 0)),
        ShapeStep::OutOfRange
    ));
    assert!(tool.is_active());
    match tool.on_button_press_event(MouseButton::Primary, u(0, -100)) {
        ShapeStep::Finished(contour) => {
            assert!(!contour.is_open());
            assert_eq!(
                positions(contour.curves()),
                vec![
                    vec![p(100, 0), p(100, 55), p(55, 100), p(0, 100)],
                    vec![p(0, 100), p(-55, 100), p(-100, 55), p(-100, 0)],
                    vec![p(-100, 0), p(-100, -55), p(-55, -100), p(0, -100)],
                    vec![p(0, -100), p(55, -100), p(100, -55), p(100, 0)],
                ]
            );
            assert_eq!(contour.continuities(), &vec![Continuity::Velocity; 4]);
        }
        other => panic!("the circle is not finished: {:?}", other),
    }
    assert!(!tool.is_active());
    assert_eq!(tool.center(), None);
    tool.on_activate();
    tool.on_button_press_event(MouseButton::Primary, u(0, 0));
    assert!(matches!(tool.on_button_press_event(MouseButton::Secondary, u(0, 0)), ShapeStep::Cancelled));
    assert!(!tool.is_active());
}

#[test]
fn guidelines_are_drawn_out_of_the_rulers() {
    let at = |x, y| ViewPoint(p(x, y));
    assert_eq!(ruler_guideline_angle(at(5, 5), 13, true, false), Some(-4500));
    assert_eq!(ruler_guideline_angle(at(5, 50), 13, true, false), Some(9000));
    assert_eq!(ruler_guideline_angle(at(50, 5), 13, true, false), Some(0));
    assert_eq!(ruler_guideline_angle(at(50, 50), 13, true, false), None);
    assert_eq!(ruler_guideline_angle(at(13, 13), 13, true, false), None);
    assert_eq!(ruler_guideline_angle(at(5, 5), 13, false, false), None);
    assert_eq!(ruler_guideline_angle(at(5, 5), 13, true, true), None);
    assert_eq!(ruler_guideline_angle(at(-5, 50), 13, true, false), Some(9000));
}

#[test]
fn the_pointer_is_put_on_the_far_side() {
    assert_eq!(
        edge_warp(790, 300, 800, 600, 13),
        Some(Warp { pointer_x: -761, pointer_y: 0, mouse_x: -800, mouse_y: 0 })
    );
    assert_eq!(
        edge_warp(400, 590, 800, 600, 13),
        Some(Warp { pointer_x: 0, pointer_y: -613, mouse_x: 0, mouse_y: -600 })
    );
    assert_eq!(
        edge_warp(13, 300, 800, 600, 13),
        Some(Warp { pointer_x: 761, pointer_y: 0, mouse_x: 800, mouse_y: 0 })
    );
    assert_eq!(
        edge_warp(400, 0, 800, 600, 13),
        Some(Warp { pointer_x: 0, pointer_y: 561, mouse_x: 0, mouse_y: 600 })
    );
    assert_eq!(edge_warp(400, 300, 800, 600, 13), None);
    assert_eq!(edge_warp(786, 586, 800, 600, 13), None);
}

#[test]
fn a_press_takes_hold_of_what_lies_under_the_pointer() {
    let mut tool = PanningTool::new();
    let r = tool.on_button_press_event(
        MouseButton::Primary,
        PressScene { guideline_hit: Some(2), ..scene() },
    );
    assert_eq!(r, Reaction { cursor: Some(Cursor::Grab), select_guideline: Some(2), ..quiet(true) });
    assert_eq!(tool.mode, ControlPointMode::DragGuideline(2));
    assert!(tool.active);

    let mut tool = PanningTool::new();
    let r = tool.on_button_press_event(
        MouseButton::Primary,
        PressScene { guideline_hit: Some(2), lock_guidelines: true, hits_empty: false, ..scene() },
    );
    assert_eq!(
        r,
        Reaction { cursor: Some(Cursor::Grab), selection: SelectionChange::SetToHits, ..quiet(true) }
    );
    assert_eq!(tool.mode, ControlPointMode::Drag);

    let mut tool = PanningTool::new();
    let r = tool.on_button_press_event(
        MouseButton::Primary,
        PressScene { hits_empty: false, hits_selected: true, selection_empty: false, ..scene() },
    );
    assert_eq!(r, Reaction { cursor: Some(Cursor::Grab), ..quiet(true) });
    assert_eq!(tool.mode, ControlPointMode::Drag);

    let r = tool.on_button_press_event(MouseButton::Primary, scene());
    assert_eq!(
        r,
        Reaction {
            cursor: Some(Cursor::Arrow),
            redraw: true,
            clear_hover: true,
            commit: true,
            ..quiet(true)
        }
    );
    assert_eq!(tool.mode, ControlPointMode::Idle);
    assert!(!tool.active);
}

#[test]
fn a_press_on_nothing_turns_to_the_selection_box() {
    let mut tool = PanningTool::new();
    let r = tool.on_button_press_event(MouseButton::Primary, scene());
    assert_eq!(
        r,
        Reaction {
            cursor: Some(Cursor::Arrow),
            redraw: true,
            clear_hover: true,
            selection: SelectionChange::SetToHits,
            ..quiet(true)
        }
    );
    assert_eq!(tool.mode, ControlPointMode::Select);
    assert!(tool.active);

    let r = tool.on_button_press_event(MouseButton::Primary, scene());
    assert_eq!(r, Reaction { selection: SelectionChange::Clear, ..quiet(true) });
    assert!(tool.is_selection_active && !tool.is_selection_empty);
    assert_eq!(tool.selection_upper_left, u(7, 8));
    assert_eq!(tool.selection_bottom_right, u(7, 8));

    let moved = tool.on_motion_notify_event(motion(u(20, 30)));
    assert_eq!(moved, (Motion::ResizeSelection, true));
    assert_eq!(tool.selection_bottom_right, u(20, 30));

    let r = tool.on_button_release_event(
        MouseButton::Primary,
        ReleaseScene { position: u(21, 31), contour_hit: None },
    );
    assert_eq!(
        r,
        Reaction { selection: SelectionChange::Region(u(7, 8), u(21, 31)), ..quiet(true) }
    );
    assert_eq!(tool.mode, ControlPointMode::Idle);
    assert!(!tool.active && !tool.is_selection_active);
    assert_eq!(tool.selection_bottom_right, u(21, 31));
}

#[test]
fn the_selection_box_is_given_up() {
    let mut tool = PanningTool::new();
    tool.on_button_press_event(MouseButton::Primary, scene());
    tool.on_button_press_event(MouseButton::Primary, scene());
    let r = tool.on_button_press_event(MouseButton::Primary, scene());
    assert_eq!(r, quiet(true));
    assert!(tool.is_selection_empty);
    let r = tool.on_button_release_event(
        MouseButton::Primary,
        ReleaseScene { position: u(0, 0), contour_hit: None },
    );
    assert_eq!(r, quiet(false));
    assert_eq!(tool.on_motion_notify_event(motion(u(1, 1))), (Motion::Nothing, false));
    let r = tool.on_button_press_event(MouseButton::Secondary, scene());
    assert_eq!(
        r,
        Reaction {
            cursor: Some(Cursor::Arrow),
            redraw: true,
            selection: SelectionChange::Clear,
            ..quiet(true)
        }
    );
    assert_eq!(tool, PanningTool { selection_upper_left: u(7, 8), selection_bottom_right: u(7, 8), ..PanningTool::new() });
}

#[test]
fn the_other_buttons() {
    let mut tool = PanningTool::new();
    let r = tool.on_button_press_event(MouseButton::Middle, scene());
    assert_eq!(r, Reaction { cursor: Some(Cursor::Crosshair), ..quiet(true) });
    assert!(tool.active);
    assert_eq!(tool.mode, ControlPointMode::Idle);
    let r = tool.on_button_release_event(
        MouseButton::Middle,
        ReleaseScene { position: u(0, 0), contour_hit: None },
    );
    assert_eq!(r, Reaction { cursor: Some(Cursor::Arrow), ..quiet(true) });
    assert!(!tool.active);

    assert_eq!(tool.on_button_press_event(MouseButton::Other, scene()), quiet(false));
    let r = tool.on_button_press_event(
        MouseButton::Secondary,
        PressScene { guideline_hit: Some(1), lock_guidelines: true, ..scene() },
    );
    assert_eq!(r, Reaction { menu: Some(Menu::Guideline(1)), ..quiet(true) });
    tool.on_activate();
    let r = tool.on_button_press_event(MouseButton::Secondary, scene());
    assert_eq!(r, Reaction { cursor: Some(Cursor::Arrow), redraw: true, ..quiet(true) });
    assert!(!tool.active);

    let mut dragging = PanningTool { mode: ControlPointMode::Drag, active: true, ..PanningTool::new() };
    assert_eq!(dragging.on_button_press_event(MouseButton::Secondary, scene()), quiet(false));
    let r = dragging.on_button_release_event(
        MouseButton::Primary,
        ReleaseScene { position: u(0, 0), contour_hit: None },
    );
    assert_eq!(r, Reaction { cursor: Some(Cursor::Arrow), commit: true, ..quiet(true) });
    assert!(!dragging.active);
    assert_eq!(dragging.mode, ControlPointMode::Drag);
    dragging.on_deactivate();
    assert!(!dragging.active);

    let mut idle = PanningTool::new();
    let none = ReleaseScene { position: u(0, 0), contour_hit: None };
    assert_eq!(idle.on_button_release_event(MouseButton::Primary, none), quiet(false));
    assert_eq!(idle.on_button_release_event(MouseButton::Other, none), quiet(false));
    assert_eq!(
        idle.on_button_release_event(MouseButton::Secondary, none),
        Reaction { cursor: Some(Cursor::Arrow), ..quiet(false) }
    );
    assert_eq!(
        idle.on_button_release_event(
            MouseButton::Secondary,
            ReleaseScene { position: u(0, 0), contour_hit: Some(3) }
        ),
        Reaction { cursor: Some(Cursor::Arrow), menu: Some(Menu::Contour(3)), ..quiet(true) }
    );
}

fn motion(position: UnitPoint) -> MotionScene {
    MotionScene {
        position,
        event_position: ViewPoint(p(130, 70)),
        mouse: ViewPoint(p(100, 100)),
        magnification: Ratio { num: 4, den: 1 },
        hits_empty: false,
        curve_hit: None,
    }
}

#[test]
fn moves_of_the_pointer() {
    let mut tool = PanningTool::new();
    assert_eq!(tool.on_motion_notify_event(motion(u(0, 0))), (Motion::Nothing, false));
    let hit = Some(CurveIndex { contour_index: 1, curve_index: 2 });
    assert_eq!(
        tool.on_motion_notify_event(MotionScene { curve_hit: hit, ..motion(u(0, 0)) }),
        (Motion::Hover { clear: false, curve: hit }, false)
    );
    assert_eq!(
        tool.on_motion_notify_event(MotionScene { hits_empty: true, ..motion(u(0, 0)) }),
        (Motion::Hover { clear: true, curve: None }, false)
    );
    tool.on_activate();
    assert_eq!(
        tool.on_motion_notify_event(motion(u(0, 0))),
        (Motion::PanCamera(ViewPoint(p(30, -30))), true)
    );
    tool.mode = ControlPointMode::Drag;
    assert_eq!(
        tool.on_motion_notify_event(motion(u(0, 0))),
        (Motion::MoveSelection(Matrix::translation(7, 8)), true)
    );
    tool.mode = ControlPointMode::DragGuideline(3);
    assert_eq!(
        tool.on_motion_notify_event(motion(u(0, 0))),
        (Motion::MoveGuideline(3, Matrix::translation(7, 8)), true)
    );
    assert_eq!(
        tool.on_motion_notify_event(MotionScene { magnification: Ratio { num: 0, den: 1 }, ..motion(u(0, 0)) }),
        (Motion::Nothing, true)
    );
    let fine = MotionScene { magnification: Ratio { num: 3, den: 2 }, ..motion(u(0, 0)) };
    assert_eq!(
        tool.on_motion_notify_event(fine),
        (Motion::MoveGuideline(3, Matrix::translation(20, 20)), true)
    );
    let coarse = MotionScene { magnification: Ratio { num: 1, den: 0 }, ..motion(u(0, 0)) };
    assert_eq!(tool.on_motion_notify_event(coarse), (Motion::Nothing, true));
    tool.mode = ControlPointMode::Idle;
    let across = MotionScene {
        event_position: ViewPoint(p(i32::MAX, 0)),
        mouse: ViewPoint(p(-1, 0)),
        ..motion(u(0, 0))
    };
    assert_eq!(tool.on_motion_notify_event(across), (Motion::Nothing, true));
}

#[test]
fn turns_of_the_wheel() {
    let mut tool = PanningTool::new();
    assert_eq!(tool.on_scroll_event(false, false, 1, 2), Scroll::Nothing);
    assert_eq!(tool.on_scroll_event(true, false, 1, -2), Scroll::Pan(ViewPoint(p(5, -10))));
    assert_eq!(tool.on_scroll_event(true, true, 1, -2), Scroll::Pan(ViewPoint(p(-10, 0))));
    assert_eq!(tool.on_scroll_event(true, true, 3, -2), Scroll::Pan(ViewPoint(p(15, 0))));
    assert_eq!(tool.on_scroll_event(true, false, i32::MAX, 0), Scroll::Nothing);
    assert_eq!(tool.on_scroll_event(false, true, 1, 2), Scroll::Nothing);
    tool.mode = ControlPointMode::DragGuideline(4);
    assert_eq!(tool.on_scroll_event(false, true, 1, 2), Scroll::TurnGuideline(4, 300));
    assert_eq!(tool.on_scroll_event(false, true, 1, -1), Scroll::TurnGuideline(4, -150));
    assert_eq!(tool.on_scroll_event(false, true, 1, i32::MIN), Scroll::Nothing);
    assert_eq!(tool.on_scroll_event(false, false, 1, 2), Scroll::Nothing);
}
