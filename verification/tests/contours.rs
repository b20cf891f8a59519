use gerb::continuity::{classify_points, Continuity, Ratio};
use gerb::contours::Contour;
use gerb::curves::Bezier;
use gerb::errors::EditError;
use gerb::glyphs::GlyphPointIndex;
use gerb::matrix::Matrix;
use gerb::points::{CurvePoint, Point};

fn p(x: i32, y: i32) -> Point {
    Point { x, y }
}

/// A segment whose points bear the identifiers `first`, `first + 1`, ...
fn seg(smooth: bool, first: u128, points: &[(i32, i32)]) -> Bezier {
    let pts = points
        .iter()
        .enumerate()
        .map(|(i, &(x, y))| CurvePoint::with_uuid(p(x, y), first + i as u128))
        .collect();
    Bezier::from_curve_points(smooth, pts).unwrap()
}

fn name(curve_index: usize, uuid: u128) -> GlyphPointIndex {
    GlyphPointIndex { contour_index: 0, curve_index, uuid }
}

fn position(c: &Contour, curve: usize, point: usize) -> Point {
    c.curves()[curve].point(point).position
}

fn all_positions(c: &Contour) -> Vec<Vec<Point>> {
    c.curves().iter().map(|b| b.points().iter().map(|q| q.position).collect()).collect()
}

fn joins_meet(c: &Contour) -> bool {
    let curves = c.curves();
    let n = curves.len();
    (0..n).all(|j| {
        let k = if j + 1 == n { 0 } else { j + 1 };
        if j + 1 == n && c.is_open() {
            return true;
        }
        curves[j].point(curves[j].len() - 1).position == curves[k].point(0).position
    })
}

/// Two cubic curves that meet on the origin, with the handles `before` and
/// `after` on the two sides of the join.
fn joined(before: (i32, i32), after: (i32, i32)) -> Contour {
    let mut c = Contour::new();
    c.push_curve(seg(false, 10, &[(-30, 0), (-20, 5), before, (0, 0)])).unwrap();
    c.push_curve(seg(true, 20, &[(0, 0), after, (20, 5), (30, 0)])).unwrap();
    c
}

/// A closed triangle of lines.
fn triangle() -> Contour {
    let mut c = Contour::new();
    c.push_curve(seg(false, 10, &[(0, 0), (10, 0)])).unwrap();
    c.push_curve(seg(false, 20, &[(10, 0), (0, 10)])).unwrap();
    c.push_curve(seg(false, 30, &[(0, 10), (0, 0)])).unwrap();
    c.close().unwrap();
    c
}

#[test]
fn classification_by_the_handles() {
    assert_eq!(classify_points(p(-10, 0), p(0, 0), p(10, 0)), Continuity::Velocity);
    assert_eq!(
        classify_points(p(-10, 0), p(0, 0), p(20, 0)),
        Continuity::Tangent { beta: Ratio { num: 20, den: 10 } }
    );
    assert_eq!(
        classify_points(p(-4, -2), p(0, 0), p(2, 1)),
        Continuity::Tangent { beta: Ratio { num: 3, den: 6 } }
    );
    assert_eq!(classify_points(p(-10, 0), p(0, 0), p(10, 1)), Continuity::Positional);
    assert_eq!(classify_points(p(-3, 7), p(1, 2), p(5, -3)), Continuity::Velocity);
}

#[test]
fn classification_within_the_tolerance() {
    assert_eq!(classify_points(p(-1000, 0), p(0, 0), p(1004, 0)), Continuity::Velocity);
    assert_eq!(classify_points(p(-1000, 0), p(0, 0), p(996, 0)), Continuity::Velocity);
    assert_eq!(
        classify_points(p(-1000, 0), p(0, 0), p(1005, 0)),
        Continuity::Tangent { beta: Ratio { num: 1005, den: 1000 } }
    );
    assert_eq!(
        classify_points(p(-1000, 0), p(0, 0), p(995, 0)),
        Continuity::Tangent { beta: Ratio { num: 995, den: 1000 } }
    );
}

#[test]
fn handles_on_the_join_give_a_positional_continuity() {
    assert_eq!(classify_points(p(0, 0), p(0, 0), p(10, 0)), Continuity::Positional);
    assert_eq!(classify_points(p(-10, 0), p(0, 0), p(0, 0)), Continuity::Positional);
    assert_eq!(classify_points(p(0, 0), p(0, 0), p(0, 0)), Continuity::Positional);
}

#[test]
fn continuity_of_two_segments() {
    let a = seg(false, 1, &[(-30, 0), (-20, 5), (-10, 0), (0, 0)]);
    let smooth = seg(true, 5, &[(0, 0), (10, 0), (20, 5), (30, 0)]);
    let plain = seg(false, 5, &[(0, 0), (10, 0), (20, 5), (30, 0)]);
    assert_eq!(Contour::classify_continuity(&a, &smooth), Continuity::Velocity);
    assert_eq!(Contour::classify_continuity(&a, &plain), Continuity::Positional);
    assert_eq!(
        Contour::calc_smooth_continuity(a.points().as_slice(), plain.points().as_slice()),
        Continuity::Velocity
    );
    let line = seg(true, 9, &[(0, 0), (5, 0)]);
    assert_eq!(
        Contour::classify_continuity(&a, &line),
        Continuity::Tangent { beta: Ratio { num: 5, den: 10 } }
    );
}

#[test]
fn a_new_contour_is_open_and_empty() {
    let c = Contour::new();
    assert!(c.is_open());
    assert!(c.curves().is_empty());
    assert!(c.continuities().is_empty());
}

#[test]
fn push_curve_classifies_each_join() {
    let mut c = Contour::new();
    assert_eq!(c.push_curve(seg(true, 1, &[(-30, 0), (-20, 5), (-10, 0), (0, 0)])), Ok(()));
    assert!(c.continuities().is_empty());
    assert_eq!(c.push_curve(seg(true, 5, &[(0, 0), (10, 0), (20, 5), (30, 0)])), Ok(()));
    assert_eq!(c.continuities(), &vec![Continuity::Velocity]);
    assert_eq!(c.push_curve(seg(false, 9, &[(30, 0), (40, -5), (50, 0)])), Ok(()));
    assert_eq!(c.continuities(), &vec![Continuity::Velocity, Continuity::Positional]);
    assert_eq!(c.push_curve(seg(true, 12, &[(50, 0), (70, 10), (80, 0)])), Ok(()));
    assert_eq!(
        c.continuities(),
        &vec![
            Continuity::Velocity,
            Continuity::Positional,
            Continuity::Tangent { beta: Ratio { num: 30, den: 15 } }
        ]
    );
    assert_eq!(c.curves().len(), 4);
    assert!(c.is_open());
}

#[test]
fn push_curve_passes_over_a_segment_without_points() {
    let mut c = joined((-10, 0), (10, 0));
    assert_eq!(c.push_curve(Bezier::empty()), Ok(()));
    assert_eq!(c.curves().len(), 2);
    assert_eq!(c.continuities().len(), 1);
    let mut closed = triangle();
    assert_eq!(closed.push_curve(Bezier::empty()), Ok(()));
    assert_eq!(closed.curves().len(), 3);
}

#[test]
fn push_curve_rejects_a_segment_that_does_not_meet() {
    let mut c = joined((-10, 0), (10, 0));
    let before = all_positions(&c);
    assert_eq!(c.push_curve(seg(true, 40, &[(31, 0), (40, 0)])), Err(EditError::JoinMismatch));
    assert_eq!(all_positions(&c), before);
    assert_eq!(c.continuities().len(), 1);
}

#[test]
fn push_curve_rejects_a_closed_contour() {
    let mut c = triangle();
    assert_eq!(c.push_curve(seg(false, 40, &[(0, 0), (5, 5)])), Err(EditError::ContourClosed));
    assert_eq!(c.curves().len(), 3);
    assert_eq!(c.continuities().len(), 3);
}

#[test]
fn close_classifies_the_last_join() {
    let mut c = Contour::new();
    c.push_curve(seg(true, 1, &[(0, 0), (10, 0), (20, 10), (20, 20)])).unwrap();
    c.push_curve(seg(true, 5, &[(20, 20), (20, 30), (-10, 0), (0, 0)])).unwrap();
    assert_eq!(c.continuities(), &vec![Continuity::Velocity]);
    assert_eq!(c.close(), Ok(()));
    assert!(!c.is_open());
    assert_eq!(c.continuities(), &vec![Continuity::Velocity, Continuity::Velocity]);
    assert_eq!(c.close(), Ok(()));
    assert_eq!(c.continuities().len(), 2);
}

#[test]
fn close_of_an_empty_contour() {
    let mut c = Contour::new();
    assert_eq!(c.close(), Ok(()));
    assert!(!c.is_open());
    assert!(c.continuities().is_empty());
}

#[test]
fn close_rejects_ends_that_do_not_meet() {
    let mut c = joined((-10, 0), (10, 0));
    assert_eq!(c.close(), Err(EditError::JoinMismatch));
    assert!(c.is_open());
    assert_eq!(c.continuities().len(), 1);
}

#[test]
fn from_curves_and_ring_chain_the_segments() {
    let a = seg(false, 10, &[(0, 0), (10, 0)]);
    let b = seg(false, 20, &[(10, 0), (0, 10)]);
    let d = seg(false, 30, &[(0, 10), (0, 0)]);
    let open = Contour::from_curves(&vec![a.clone(), b.clone(), d.clone()]).unwrap();
    assert!(open.is_open());
    assert_eq!(open.curves().len(), 3);
    assert_eq!(open.continuities().len(), 2);
    let ring = Contour::ring(&vec![a.clone(), b.clone(), d]).unwrap();
    assert!(!ring.is_open());
    assert_eq!(ring.continuities().len(), 3);
    assert_eq!(Contour::ring(&vec![a.clone(), b]).err(), Some(EditError::JoinMismatch));
    let apart = seg(false, 20, &[(11, 0), (0, 10)]);
    assert_eq!(Contour::from_curves(&vec![a, apart]).err(), Some(EditError::JoinMismatch));
}

#[test]
fn reverse_direction_turns_everything_round() {
    let mut c = Contour::new();
    c.push_curve(seg(true, 1, &[(-30, 0), (-20, 5), (-10, 0), (0, 0)])).unwrap();
    c.push_curve(seg(true, 5, &[(0, 0), (10, 0), (20, 5), (30, 0)])).unwrap();
    c.push_curve(seg(false, 9, &[(30, 0), (40, -5), (50, 0)])).unwrap();
    c.reverse_direction();
    assert_eq!(
        all_positions(&c),
        vec![
            vec![p(50, 0), p(40, -5), p(30, 0)],
            vec![p(30, 0), p(20, 5), p(10, 0), p(0, 0)],
            vec![p(0, 0), p(-10, 0), p(-20, 5), p(-30, 0)],
        ]
    );
    assert_eq!(c.continuities(), &vec![Continuity::Positional, Continuity::Velocity]);
    assert_eq!(c.curves()[0].point(0).uuid, 11);
    assert!(joins_meet(&c));
}

#[test]
fn reversing_twice_gives_the_contour_back() {
    let mut c = Contour::new();
    c.push_curve(seg(true, 1, &[(0, 0), (10, 0), (20, 10), (20, 20)])).unwrap();
    c.push_curve(seg(true, 5, &[(20, 20), (20, 40), (-5, 0), (0, 0)])).unwrap();
    c.close().unwrap();
    let curves: Vec<Vec<CurvePoint>> = c.curves().iter().map(|b| b.points().clone()).collect();
    let smooth: Vec<bool> = c.curves().iter().map(|b| b.smooth()).collect();
    let continuities = c.continuities().clone();
    c.reverse_direction();
    c.reverse_direction();
    let again: Vec<Vec<CurvePoint>> = c.curves().iter().map(|b| b.points().clone()).collect();
    assert_eq!(again, curves);
    assert_eq!(c.curves().iter().map(|b| b.smooth()).collect::<Vec<bool>>(), smooth);
    assert_eq!(c.continuities(), &continuities);
    assert!(!c.is_open());
}

#[test]
fn velocity_continuity_mirrors_the_handle() {
    let mut c = joined((-10, 0), (10, 0));
    assert_eq!(c.continuities(), &vec![Continuity::Velocity]);
    let moved = c.transform_points(0, &[name(0, 12)], Matrix::translation(-5, 2)).unwrap();
    assert_eq!(position(&c, 0, 2), p(-15, 2));
    assert_eq!(position(&c, 1, 1), p(15, -2));
    assert_eq!(position(&c, 0, 3), p(0, 0));
    assert_eq!(position(&c, 1, 0), p(0, 0));
    assert_eq!(moved, vec![(name(0, 12), p(-15, 2)), (name(1, 21), p(15, -2))]);
}

#[test]
fn velocity_continuity_mirrors_the_handle_back() {
    let mut c = joined((-10, 0), (10, 0));
    let moved = c.transform_points(0, &[name(1, 21)], Matrix::translation(3, 4)).unwrap();
    assert_eq!(position(&c, 1, 1), p(13, 4));
    assert_eq!(position(&c, 0, 2), p(-13, -4));
    assert_eq!(moved, vec![(name(1, 21), p(13, 4)), (name(0, 12), p(-13, -4))]);
}

#[test]
fn tangent_continuity_keeps_the_ratio() {
    let mut c = joined((-10, 0), (20, 0));
    assert_eq!(
        c.continuities(),
        &vec![Continuity::Tangent { beta: Ratio { num: 20, den: 10 } }]
    );
    c.transform_points(0, &[name(0, 12)], Matrix::translation(-2, -4)).unwrap();
    assert_eq!(position(&c, 0, 2), p(-12, -4));
    assert_eq!(position(&c, 1, 1), p(24, 8));
    c.transform_points(0, &[name(1, 21)], Matrix::translation(6, 2)).unwrap();
    assert_eq!(position(&c, 1, 1), p(30, 10));
    assert_eq!(position(&c, 0, 2), p(-15, -5));
    c.transform_points(0, &[name(1, 21)], Matrix::translation(1, 1)).unwrap();
    assert_eq!(position(&c, 1, 1), p(31, 11));
    assert_eq!(position(&c, 0, 2), p(-15, -5));
    c.transform_points(0, &[name(1, 21)], Matrix::translation(0, 2)).unwrap();
    assert_eq!(position(&c, 0, 2), p(-15, -6));
}

#[test]
fn positional_continuity_leaves_the_other_handle() {
    let mut c = joined((-10, 0), (10, 7));
    assert_eq!(c.continuities(), &vec![Continuity::Positional]);
    let moved = c.transform_points(0, &[name(0, 12)], Matrix::translation(-5, 2)).unwrap();
    assert_eq!(position(&c, 0, 2), p(-15, 2));
    assert_eq!(position(&c, 1, 1), p(10, 7));
    assert_eq!(moved, vec![(name(0, 12), p(-15, 2))]);
}

#[test]
fn an_end_takes_its_neighbours_along() {
    let mut c = joined((-10, 0), (10, 0));
    let moved = c.transform_points(0, &[name(0, 13)], Matrix::translation(1, 1)).unwrap();
    assert_eq!(
        all_positions(&c),
        vec![
            vec![p(-30, 0), p(-20, 5), p(-9, 1), p(1, 1)],
            vec![p(1, 1), p(11, 1), p(20, 5), p(30, 0)],
        ]
    );
    assert_eq!(
        moved,
        vec![
            (name(0, 13), p(1, 1)),
            (name(0, 12), p(-9, 1)),
            (name(1, 20), p(1, 1)),
            (name(1, 21), p(11, 1)),
        ]
    );
    assert!(joins_meet(&c));
}

#[test]
fn the_first_end_of_an_open_contour_has_no_neighbour() {
    let mut c = joined((-10, 0), (10, 0));
    let moved = c.transform_points(0, &[name(0, 10)], Matrix::translation(0, 9)).unwrap();
    assert_eq!(
        moved,
        vec![(name(0, 10), p(-30, 9)), (name(0, 11), p(-20, 14))]
    );
    let moved = c.transform_points(0, &[name(1, 23)], Matrix::translation(0, 9)).unwrap();
    assert_eq!(moved, vec![(name(1, 23), p(30, 9)), (name(1, 22), p(20, 14))]);
}

#[test]
fn no_point_is_moved_twice() {
    let mut c = joined((-10, 0), (10, 0));
    let all = [name(0, 10), name(0, 11), name(0, 12), name(0, 13), name(1, 20), name(1, 21), name(1, 22), name(1, 23)];
    let moved = c.transform_points(0, &all, Matrix::translation(100, 1)).unwrap();
    assert_eq!(
        all_positions(&c),
        vec![
            vec![p(70, 1), p(80, 6), p(90, 1), p(100, 1)],
            vec![p(100, 1), p(110, 1), p(120, 6), p(130, 1)],
        ]
    );
    assert_eq!(moved.len(), 8);
    assert!(joins_meet(&c));
}

#[test]
fn both_sides_of_a_join_named() {
    let mut c = joined((-10, 0), (10, 0));
    c.transform_points(0, &[name(1, 20), name(0, 13)], Matrix::quarter_turns(1)).unwrap();
    assert!(joins_meet(&c));
    assert_eq!(position(&c, 0, 3), p(0, 0));
    assert_eq!(position(&c, 0, 2), p(0, -10));
    assert_eq!(position(&c, 1, 1), p(0, 10));
}

#[test]
fn a_closed_contour_goes_round() {
    let mut c = triangle();
    let moved = c.transform_points(0, &[name(0, 10)], Matrix::translation(-1, -1)).unwrap();
    assert_eq!(
        all_positions(&c),
        vec![
            vec![p(-1, -1), p(10, 0)],
            vec![p(10, 0), p(0, 10)],
            vec![p(0, 10), p(-1, -1)],
        ]
    );
    assert_eq!(moved, vec![(name(0, 10), p(-1, -1)), (name(2, 31), p(-1, -1))]);
    let moved = c.transform_points(0, &[name(2, 31)], Matrix::translation(1, 1)).unwrap();
    assert_eq!(moved, vec![(name(2, 31), p(0, 0)), (name(0, 10), p(0, 0))]);
    assert!(joins_meet(&c));
}

#[test]
fn a_single_closed_curve_meets_itself() {
    let mut c = Contour::new();
    c.push_curve(seg(true, 1, &[(0, 0), (10, 10), (-10, 10), (0, 0)])).unwrap();
    c.close().unwrap();
    let moved = c.transform_points(0, &[name(0, 1)], Matrix::translation(5, 5)).unwrap();
    assert_eq!(all_positions(&c), vec![vec![p(5, 5), p(15, 15), p(-5, 15), p(5, 5)]]);
    assert_eq!(moved.len(), 4);
    assert!(joins_meet(&c));
}

#[test]
fn stale_names_are_passed_over() {
    let mut c = joined((-10, 0), (10, 0));
    let before = all_positions(&c);
    let stale = [
        name(0, 999),
        name(7, 12),
        GlyphPointIndex { contour_index: 3, curve_index: 0, uuid: 12 },
        name(1, 12),
    ];
    let moved = c.transform_points(0, &stale, Matrix::translation(5, 5)).unwrap();
    assert!(moved.is_empty());
    assert_eq!(all_positions(&c), before);
    let moved = c.transform_points(0, &[], Matrix::translation(5, 5)).unwrap();
    assert!(moved.is_empty());
}

#[test]
fn a_move_off_the_lattice_moves_nothing() {
    let mut c = joined((-10, 0), (10, 0));
    let before = all_positions(&c);
    let far = Matrix::translation(i32::MAX, 0);
    assert_eq!(
        c.transform_points(0, &[name(0, 10), name(1, 23)], far),
        Err(EditError::OutOfRange)
    );
    assert_eq!(all_positions(&c), before);
    let mut edge = Contour::new();
    edge.push_curve(seg(false, 1, &[(0, 0), (0, 5), (i32::MIN + 1, 0), (0, 0)])).unwrap();
    edge.push_curve(seg(true, 5, &[(0, 0), (i32::MAX, 0), (5, 5), (9, 9)])).unwrap();
    assert_eq!(edge.continuities(), &vec![Continuity::Velocity]);
    assert_eq!(
        edge.transform_points(0, &[name(1, 6)], Matrix::translation(0, 0)),
        Ok(vec![(name(1, 6), p(i32::MAX, 0)), (name(0, 3), p(-i32::MAX, 0))])
    );
    let mut off = Contour::new();
    off.push_curve(seg(false, 1, &[(0, 0), (0, 5), (-10, 0), (0, 0)])).unwrap();
    off.push_curve(seg(true, 5, &[(0, 0), (10, 0), (5, 5), (9, 9)])).unwrap();
    assert_eq!(
        off.transform_points(0, &[name(0, 3)], Matrix::translation(i32::MIN + 10, 0)),
        Err(EditError::OutOfRange)
    );
    assert_eq!(position(&off, 0, 2), p(-10, 0));
}

#[test]
fn into_cubic_replaces_the_quadratic_curves() {
    let mut c = Contour::new();
    c.push_curve(seg(false, 1, &[(0, 0), (30, 60), (90, 0)])).unwrap();
    c.push_curve(seg(true, 5, &[(90, 0), (100, 0)])).unwrap();
    let continuities = c.continuities().clone();
    c.into_cubic();
    assert_eq!(
        all_positions(&c),
        vec![vec![p(0, 0), p(20, 40), p(50, 40), p(90, 0)], vec![p(90, 0), p(100, 0)]]
    );
    assert_eq!(c.curves()[1].point(0).uuid, 5);
    assert!(c.curves()[1].smooth());
    assert_eq!(c.continuities(), &continuities);
    assert!(joins_meet(&c));
}

#[test]
fn a_copy_is_the_same_contour() {
    let c = triangle();
    let d = c.clone();
    assert_eq!(all_positions(&d), all_positions(&c));
    assert_eq!(d.continuities(), c.continuities());
    assert_eq!(d.is_open(), c.is_open());
}

#[test]
fn errors_describe_themselves() {
    assert_eq!(EditError::InvalidShape.message(), "a segment has 0, 2, 3 or 4 control points");
    assert_eq!(EditError::JoinMismatch.message(), "consecutive segments must meet on one point");
    assert_eq!(EditError::ContourClosed.message(), "the contour is closed");
    assert_eq!(EditError::OutOfRange.message(), "a position falls off the lattice");
}
