use gerb::actions::{ContourChange, EditAction};
use gerb::contours::Contour;
use gerb::curves::Bezier;
use gerb::errors::EditError;
use gerb::glyphs::{Glyph, GlyphPointIndex, Guideline};
use gerb::matrix::Matrix;
use gerb::points::{CurvePoint, Point};
use gerb::undo::UndoLog;

fn p(x: i32, y: i32) -> Point {
    Point { x, y }
}

fn seg(smooth: bool, first: u128, points: &[(i32, i32)]) -> Bezier {
    let pts = points
        .iter()
        .enumerate()
        .map(|(i, &(x, y))| CurvePoint::with_uuid(p(x, y), first + i as u128))
        .collect();
    Bezier::from_curve_points(smooth, pts).unwrap()
}

fn glyph() -> Glyph {
    Glyph::new(
        "a",
        'a',
        vec![
            seg(false, 10, &[(-30, 0), (-20, 5), (-10, 0), (0, 0)]),
            seg(true, 20, &[(0, 0), (10, 0), (20, 5), (30, 0)]),
        ],
    )
    .unwrap()
}

fn triangle(first: u128) -> Contour {
    Contour::ring(&vec![
        seg(false, first, &[(0, 500), (10, 500)]),
        seg(false, first + 10, &[(10, 500), (0, 510)]),
        seg(false, first + 20, &[(0, 510), (0, 500)]),
    ])
    .unwrap()
}

/// Everything that an edit can change: the points, flags and continuities of
/// every contour, and the guidelines.
type State = (Vec<(bool, Vec<(bool, Vec<CurvePoint>)>, String)>, Vec<Guideline>);

fn state(g: &Glyph) -> State {
    (
        g.contours
            .iter()
            .map(|c| {
                (
                    c.is_open(),
                    c.curves().iter().map(|b| (b.smooth(), b.points().clone())).collect(),
                    format!("{:?}", c.continuities()),
                )
            })
            .collect(),
        g.guidelines.clone(),
    )
}

fn name(contour_index: usize, curve_index: usize, uuid: u128) -> GlyphPointIndex {
    GlyphPointIndex { contour_index, curve_index, uuid }
}

#[test]
fn undo_and_redo_of_every_kind_of_edit() {
    let mut g = glyph();
    let mut log = UndoLog::new();
    let mut states = vec![state(&g)];

    let action = g.add_contour(&triangle(100), 1);
    log.perform(&mut g, action);
    states.push(state(&g));

    let (action, moved) = g
        .transform_selection(&[name(0, 0, 12), name(1, 0, 100)], Matrix::translation(-5, 2))
        .unwrap();
    assert_eq!(moved.len(), 4);
    log.perform(&mut g, action);
    states.push(state(&g));

    let action = g.new_guideline(9000, p(5, 5));
    log.perform(&mut g, action);
    states.push(state(&g));

    let action = g.transform_guideline(0, Matrix::translation(1, 1), -4500).unwrap();
    log.perform(&mut g, action);
    states.push(state(&g));

    let action = g.delete_contour(0).unwrap();
    log.perform(&mut g, action);
    states.push(state(&g));

    let action = g.delete_guideline(0).unwrap();
    log.perform(&mut g, action);
    states.push(state(&g));

    assert_eq!(g.contours.len(), 1);
    assert!(g.guidelines.is_empty());
    assert!(!log.can_redo());

    for k in (0..6).rev() {
        assert!(log.can_undo());
        assert!(log.undo(&mut g));
        assert_eq!(state(&g), states[k]);
    }
    assert!(!log.can_undo());
    assert!(!log.undo(&mut g));
    assert_eq!(state(&g), states[0]);

    for k in 1..7 {
        assert!(log.can_redo());
        assert!(log.redo(&mut g));
        assert_eq!(state(&g), states[k]);
    }
    assert!(!log.can_redo());
    assert!(!log.redo(&mut g));
    assert_eq!(state(&g), states[6]);
}

#[test]
fn the_edits_do_what_they_say() {
    let mut g = glyph();
    let mut log = UndoLog::new();
    let (action, moved) = g.transform_selection(&[name(0, 0, 12)], Matrix::translation(-5, 2)).unwrap();
    assert_eq!(g.contours[0].curves()[0].point(2).position, p(-10, 0));
    assert_eq!(moved, vec![(name(0, 0, 12), p(-15, 2)), (name(0, 1, 21), p(15, -2))]);
    log.perform(&mut g, action);
    assert_eq!(g.contours[0].curves()[0].point(2).position, p(-15, 2));
    assert_eq!(g.contours[0].curves()[1].point(1).position, p(15, -2));

    let action = g.new_guideline(0, p(1, 2));
    log.perform(&mut g, action);
    let action = g.transform_guideline(0, Matrix::quarter_turns(1), 9000).unwrap();
    log.perform(&mut g, action);
    assert_eq!(g.guidelines, vec![Guideline { position: p(-2, 1), angle: 9000 }]);
    log.undo(&mut g);
    assert_eq!(g.guidelines, vec![Guideline { position: p(1, 2), angle: 0 }]);
}

#[test]
fn recording_forgets_what_was_undone() {
    let mut g = glyph();
    let mut log = UndoLog::new();
    let action = g.new_guideline(0, p(1, 2));
    log.perform(&mut g, action);
    let action = g.new_guideline(100, p(3, 4));
    log.perform(&mut g, action);
    assert!(log.undo(&mut g));
    assert!(log.can_redo());
    let action = g.new_guideline(200, p(5, 6));
    g.apply(&action);
    log.record(action);
    assert!(!log.can_redo());
    assert!(!log.redo(&mut g));
    assert_eq!(
        g.guidelines,
        vec![Guideline { position: p(1, 2), angle: 0 }, Guideline { position: p(5, 6), angle: 200 }]
    );
    assert!(log.undo(&mut g));
    assert!(log.undo(&mut g));
    assert!(!log.undo(&mut g));
    assert!(g.guidelines.is_empty());
}

#[test]
fn stale_edits_are_passed_over() {
    let mut g = glyph();
    let before = state(&g);
    assert!(g.delete_contour(1).is_none());
    assert!(g.delete_guideline(0).is_none());
    assert!(g.transform_guideline(0, Matrix::identity(), 0).is_none());
    g.apply(&EditAction::AddContour { index: 5, contour: triangle(100) });
    g.apply(&EditAction::DeleteContour { index: 5, contour: triangle(100) });
    g.apply(&EditAction::DeleteGuideline { index: 0, guideline: Guideline { position: p(0, 0), angle: 0 } });
    g.apply(&EditAction::AddGuideline { index: 1, guideline: Guideline { position: p(0, 0), angle: 0 } });
    g.apply(&EditAction::TransformGuideline {
        index: 0,
        before: Guideline { position: p(0, 0), angle: 0 },
        after: Guideline { position: p(1, 1), angle: 1 },
    });
    g.apply(&EditAction::TransformSelection {
        changes: vec![ContourChange { index: 9, before: triangle(100), after: triangle(200) }],
    });
    g.revert(&EditAction::AddContour { index: 5, contour: triangle(100) });
    g.revert(&EditAction::TransformSelection {
        changes: vec![ContourChange { index: 9, before: triangle(100), after: triangle(200) }],
    });
    assert_eq!(state(&g), before);
}

#[test]
fn edits_that_would_leave_the_lattice_are_not_made() {
    let mut g = glyph();
    let action = g.new_guideline(i32::MAX, p(i32::MAX, 0));
    g.apply(&action);
    assert!(g.transform_guideline(0, Matrix::identity(), 1).is_none());
    assert!(g.transform_guideline(0, Matrix::translation(1, 0), 0).is_none());
    assert!(g.transform_guideline(0, Matrix::translation(-1, 0), -1).is_some());
    let before = state(&g);
    assert_eq!(
        g.transform_selection(&[name(0, 1, 23)], Matrix::translation(i32::MAX, 0)).err(),
        Some(EditError::OutOfRange)
    );
    assert_eq!(state(&g), before);
}

#[test]
fn a_move_of_nothing_changes_no_contour() {
    let g = glyph();
    let (action, moved) = g.transform_selection(&[name(3, 0, 12)], Matrix::translation(1, 1)).unwrap();
    assert!(moved.is_empty());
    match action {
        EditAction::TransformSelection { changes } => assert!(changes.is_empty()),
        _ => panic!("a move of points is a change of contours"),
    }
}
