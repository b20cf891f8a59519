use gerb::canvas::{Transformation, UnitPoint, ViewPoint};
use gerb::continuity::Ratio;
use gerb::curves::Bezier;
use gerb::editor::GlyphState;
use gerb::glyphs::{Glyph, GlyphPointIndex, Guideline};
use gerb::matrix::Matrix;
use gerb::panning::{CurveIndex, Menu, Motion, PanningTool, Reaction, SelectionChange};
use gerb::points::{CurvePoint, Point};
use gerb::range_query::SpatialIndex;
use gerb::utils::Either;

fn p(x: i32, y: i32) -> Point {
    Point { x, y }
}

fn seg(smooth: bool, first: u128, points: &[(i32, i32)]) -> Bezier {
    let pts = points
        .iter()
        .enumerate()
        .map(|(i, &(x, y))| CurvePoint::with_uuid(p(x, y), first + i as u128))
        .collect();
    Bezier::from_curve_points(smooth, pts).unwrap()
}

fn name(curve_index: usize, uuid: u128) -> GlyphPointIndex {
    GlyphPointIndex { contour_index: 0, curve_index, uuid }
}

fn state() -> GlyphState {
    let glyph = Glyph::new(
        "a",
        'a',
        vec![
            seg(false, 10, &[(-30, 0), (-20, 5), (-10, 0), (0, 0)]),
            seg(true, 20, &[(0, 0), (10, 0), (20, 5), (30, 0)]),
        ],
    )
    .unwrap();
    let whole = Ratio { num: 1, den: 1 };
    GlyphState::new(glyph, Transformation::new(whole, whole, 800, 600))
}

fn position(s: &GlyphState, curve: usize, point: usize) -> Point {
    s.glyph().contours[0].curves()[curve].point(point).position
}

fn quiet() -> Reaction {
    Reaction {
        inhibit: true,
        cursor: None,
        redraw: false,
        clear_hover: false,
        select_guideline: None,
        selection: SelectionChange::Keep,
        menu: None,
        commit: false,
    }
}

fn index_follows(s: &GlyphState) -> bool {
    s.kd_tree().query_region((p(i32::MIN, i32::MIN), p(i32::MAX, i32::MAX)))
        == SpatialIndex::from_glyph(s.glyph())
            .query_region((p(i32::MIN, i32::MIN), p(i32::MAX, i32::MAX)))
}

#[test]
fn a_drag_is_recorded_once_when_it_is_over() {
    let mut s = state();
    s.set_selection(&vec![(name(0, 12), p(-10, 0))]);
    assert_eq!(s.get_selection(), &vec![name(0, 12)]);
    assert!(s.carry_out_motion(Motion::MoveSelection(Matrix::translation(-5, 2))));
    assert!(s.is_dragging());
    assert!(!s.log().can_undo());
    assert_eq!(position(&s, 0, 2), p(-15, 2));
    assert_eq!(position(&s, 1, 1), p(15, -2));
    assert!(index_follows(&s));
    assert!(s.carry_out_motion(Motion::MoveSelection(Matrix::translation(0, 1))));
    assert_eq!(position(&s, 0, 2), p(-15, 3));
    assert_eq!(position(&s, 1, 1), p(15, -3));
    assert!(!s.log().can_undo());

    s.carry_out(&Reaction { commit: true, ..quiet() }, &vec![]);
    assert!(!s.is_dragging());
    assert!(s.log().can_undo());
    assert_eq!(position(&s, 0, 2), p(-15, 3));

    assert!(s.undo());
    assert_eq!(position(&s, 0, 2), p(-10, 0));
    assert_eq!(position(&s, 1, 1), p(10, 0));
    assert!(index_follows(&s));
    assert!(!s.log().can_undo());
    assert!(!s.undo());
    assert!(s.redo());
    assert_eq!(position(&s, 0, 2), p(-15, 3));
    assert_eq!(position(&s, 1, 1), p(15, -3));
    assert!(index_follows(&s));
    assert!(!s.redo());
}

#[test]
fn a_drag_that_is_given_up_leaves_no_trace() {
    let mut s = state();
    s.set_selection(&vec![(name(0, 13), p(0, 0))]);
    assert_eq!(
        s.transform_selection(Matrix::translation(1, 1)).unwrap().len(),
        4
    );
    assert_eq!(position(&s, 1, 0), p(1, 1));
    assert!(s.abort());
    assert!(!s.is_dragging());
    assert!(!s.abort());
    assert_eq!(position(&s, 0, 3), p(0, 0));
    assert_eq!(position(&s, 1, 0), p(0, 0));
    assert_eq!(position(&s, 1, 1), p(10, 0));
    assert!(!s.log().can_undo());
    assert!(index_follows(&s));
    assert!(!s.commit());
    assert!(!s.log().can_undo());
}

#[test]
fn a_move_off_the_lattice_is_no_part_of_a_drag() {
    let mut s = state();
    s.set_selection(&vec![(name(0, 13), p(0, 0))]);
    assert!(!s.carry_out_motion(Motion::MoveSelection(Matrix::translation(i32::MAX, 0))));
    assert!(!s.is_dragging());
    assert_eq!(position(&s, 0, 3), p(0, 0));
    assert!(s.transform_selection(Matrix::translation(i32::MAX, 0)).is_err());
}

#[test]
fn a_guideline_is_drawn_out_of_the_rulers_and_dragged() {
    let mut s = state();
    s.set_rulers(true, 13, false);
    assert_eq!(s.draw_out_guideline(ViewPoint(p(50, 50)), UnitPoint(p(1, 2))), None);
    assert!(!s.log().can_undo());
    assert_eq!(s.draw_out_guideline(ViewPoint(p(5, 50)), UnitPoint(p(1, 2))), Some(0));
    assert_eq!(s.glyph().guidelines, vec![Guideline { position: p(1, 2), angle: 9000 }]);
    assert!(s.log().can_undo());
    s.set_rulers(true, 13, true);
    assert_eq!(s.draw_out_guideline(ViewPoint(p(5, 50)), UnitPoint(p(1, 2))), None);

    assert!(s.carry_out_motion(Motion::MoveGuideline(0, Matrix::translation(3, 3))));
    assert!(s.transform_guideline(0, Matrix::identity(), 150));
    assert!(s.is_dragging());
    assert_eq!(s.glyph().guidelines, vec![Guideline { position: p(4, 5), angle: 9150 }]);
    assert!(!s.carry_out_motion(Motion::MoveGuideline(7, Matrix::translation(3, 3))));
    assert!(!s.is_dragging());
    assert!(s.undo());
    assert_eq!(s.glyph().guidelines, vec![Guideline { position: p(1, 2), angle: 9000 }]);
    assert!(s.undo());
    assert!(s.glyph().guidelines.is_empty());
    assert!(!s.undo());

    assert!(s.redo());
    assert!(s.transform_guideline(0, Matrix::translation(1, 0), 0));
    assert!(s.abort());
    assert_eq!(s.glyph().guidelines, vec![Guideline { position: p(1, 2), angle: 9000 }]);
}

#[test]
fn an_edit_ends_a_drag_first() {
    let mut s = state();
    s.set_selection(&vec![(name(0, 12), p(-10, 0))]);
    s.transform_selection(Matrix::translation(-5, 2)).unwrap();
    let action = s.glyph().new_guideline(0, p(0, 0));
    s.perform(action);
    assert!(!s.is_dragging());
    assert_eq!(s.glyph().guidelines.len(), 1);
    assert!(s.undo());
    assert!(s.glyph().guidelines.is_empty());
    assert_eq!(position(&s, 0, 2), p(-15, 2));
    assert!(s.undo());
    assert_eq!(position(&s, 0, 2), p(-10, 0));
    assert!(!s.undo());
}

#[test]
fn the_answers_of_the_tool_are_carried_out() {
    let mut s = state();
    let hits = vec![(name(1, 21), p(10, 0)), (name(0, 12), p(-10, 0))];
    assert!(!s.carry_out_motion(Motion::Hover {
        clear: false,
        curve: Some(CurveIndex { contour_index: 0, curve_index: 1 }),
    }));
    assert_eq!(s.hovering(), Some(CurveIndex { contour_index: 0, curve_index: 1 }));
    assert!(!s.carry_out_motion(Motion::Hover { clear: false, curve: None }));
    assert!(s.hovering().is_some());
    assert!(!s.carry_out_motion(Motion::Nothing));
    assert!(!s.carry_out_motion(Motion::ResizeSelection));

    s.carry_out(&Reaction { selection: SelectionChange::SetToHits, ..quiet() }, &hits);
    assert_eq!(s.get_selection(), &vec![name(1, 21), name(0, 12)]);
    assert!(s.hovering().is_some());
    s.carry_out(
        &Reaction { clear_hover: true, select_guideline: Some(3), menu: Some(Menu::Contour(0)), ..quiet() },
        &hits,
    );
    assert_eq!(s.get_selection(), &vec![name(1, 21), name(0, 12)]);
    assert_eq!(s.hovering(), None);
    assert_eq!(s.selected_guideline(), Some(3));
    s.carry_out(
        &Reaction {
            selection: SelectionChange::Region(UnitPoint(p(25, 10)), UnitPoint(p(-10, 0))),
            ..quiet()
        },
        &hits,
    );
    assert_eq!(
        s.get_selection(),
        &vec![name(0, 12), name(0, 13), name(1, 20), name(1, 21), name(1, 22)]
    );
    assert_eq!(s.selected_guideline(), Some(3));
    s.carry_out(&Reaction { selection: SelectionChange::Clear, ..quiet() }, &hits);
    assert!(s.get_selection().is_empty());
    assert!(!s.carry_out_motion(Motion::Hover { clear: true, curve: None }));
}

#[test]
fn the_camera_and_the_tool_are_kept() {
    let mut s = state();
    assert!(s.carry_out_motion(Motion::PanCamera(ViewPoint(p(5, -7)))));
    assert_eq!(s.canvas().transformation.camera(), UnitPoint(p(5, 7)));
    let mut canvas = s.canvas();
    canvas.set_mouse(ViewPoint(p(1, 1)));
    canvas.transformation.camera = UnitPoint(p(i32::MAX, 0));
    s.set_canvas(canvas);
    assert!(!s.carry_out_motion(Motion::PanCamera(ViewPoint(p(5, 0)))));
    assert_eq!(s.canvas(), canvas);
    let mut tool = s.tool();
    assert_eq!(tool, PanningTool::new());
    tool.on_activate();
    s.set_tool(tool);
    assert!(s.tool().active);
}

#[test]
fn one_of_two_things() {
    let a: Either<u8, bool> = Either::A(3);
    let b: Either<u8, bool> = Either::B(true);
    assert_eq!(a, Either::A(3));
    assert_ne!(a, b);
    assert!(matches!(b, Either::B(true)));
}
