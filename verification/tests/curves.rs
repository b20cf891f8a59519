use gerb::curves::{elevated_handle, is_near_segment, Bezier, DEFAULT_TOLERANCE, FLATTENING_STEPS};
use gerb::errors::EditError;
use gerb::points::{CurvePoint, Point};

fn p(x: i32, y: i32) -> Point {
    Point { x, y }
}

fn curve(points: &[(i32, i32)]) -> Bezier {
    Bezier::new(points.iter().map(|&(x, y)| p(x, y)).collect()).unwrap()
}

fn positions(b: &Bezier) -> Vec<Point> {
    b.points().iter().map(|c| c.position).collect()
}

#[test]
fn degree_follows_the_number_of_points() {
    assert_eq!(Bezier::empty().degree(), None);
    assert_eq!(curve(&[]).degree(), None);
    assert_eq!(curve(&[(0, 0), (1, 1)]).degree(), Some(1));
    assert_eq!(curve(&[(0, 0), (1, 1), (2, 0)]).degree(), Some(2));
    assert_eq!(curve(&[(0, 0), (1, 1), (2, 1), (3, 0)]).degree(), Some(3));
}

#[test]
fn other_numbers_of_points_are_rejected() {
    assert_eq!(Bezier::new(vec![p(0, 0)]).err(), Some(EditError::InvalidShape));
    assert_eq!(Bezier::new(vec![p(0, 0); 5]).err(), Some(EditError::InvalidShape));
    let one = vec![CurvePoint::with_uuid(p(0, 0), 1)];
    assert_eq!(Bezier::from_curve_points(true, one).err(), Some(EditError::InvalidShape));
    let mut b = curve(&[(0, 0), (1, 1)]);
    assert_eq!(b.reset(&vec![p(0, 0)]), Err(EditError::InvalidShape));
    assert_eq!(positions(&b), vec![p(0, 0), p(1, 1)]);
}

#[test]
fn new_segments_have_fresh_points_and_no_smooth_flag() {
    let b = curve(&[(0, 0), (1, 1), (2, 0)]);
    assert!(!b.smooth());
    assert_eq!(b.len(), 3);
    assert!(!b.is_empty());
    assert_eq!(positions(&b), vec![p(0, 0), p(1, 1), p(2, 0)]);
    assert_ne!(b.point(0).uuid, b.point(1).uuid);
}

#[test]
fn segments_keep_the_points_they_are_given() {
    let pts = vec![CurvePoint::with_uuid(p(0, 0), 1), CurvePoint::with_uuid(p(4, 4), 2)];
    let mut b = Bezier::from_curve_points(true, pts.clone()).unwrap();
    assert!(b.smooth());
    assert_eq!(b.points(), &pts);
    b.set_smooth(false);
    assert!(!b.smooth());
    assert_eq!(b.points(), &pts);
    let c = b.clone();
    assert_eq!(c.points(), &pts);
}

#[test]
fn set_position_keeps_the_identifier() {
    let pts = vec![CurvePoint::with_uuid(p(0, 0), 1), CurvePoint::with_uuid(p(4, 4), 2)];
    let mut b = Bezier::from_curve_points(false, pts).unwrap();
    assert!(b.set_position(1, p(9, 9)));
    assert_eq!(b.point(1), CurvePoint { position: p(9, 9), uuid: 2 });
    assert_eq!(b.point(0), CurvePoint { position: p(0, 0), uuid: 1 });
    assert!(!b.set_position(2, p(7, 7)));
    assert_eq!(b.len(), 2);
}

#[test]
fn reverse_turns_the_points_round() {
    let pts = vec![
        CurvePoint::with_uuid(p(0, 0), 1),
        CurvePoint::with_uuid(p(1, 1), 2),
        CurvePoint::with_uuid(p(2, 0), 3),
    ];
    let mut b = Bezier::from_curve_points(true, pts.clone()).unwrap();
    b.reverse();
    assert_eq!(b.points(), &vec![pts[2], pts[1], pts[0]]);
    assert!(b.smooth());
    b.reverse();
    assert_eq!(b.points(), &pts);
}

#[test]
fn reset_lays_the_segment_out_anew() {
    let mut b = Bezier::from_curve_points(true, vec![]).unwrap();
    assert_eq!(b.reset(&vec![p(1, 1), p(2, 2)]), Ok(()));
    assert!(b.smooth());
    assert_eq!(positions(&b), vec![p(1, 1), p(2, 2)]);
}

#[test]
fn near_a_straight_stretch() {
    let a = p(0, 0);
    let b = p(100, 0);
    assert!(is_near_segment(p(50, 5), a, b, 5));
    assert!(!is_near_segment(p(50, 6), a, b, 5));
    assert!(is_near_segment(p(-3, 4), a, b, 5));
    assert!(!is_near_segment(p(-4, 4), a, b, 5));
    assert!(is_near_segment(p(103, -4), a, b, 5));
    assert!(!is_near_segment(p(106, 0), a, b, 5));
    assert!(is_near_segment(p(3, 4), a, a, 5));
    assert!(!is_near_segment(p(3, 5), a, a, 5));
    assert!(is_near_segment(p(7, 7), a, p(10, 10), 0));
    assert!(!is_near_segment(p(7, 8), a, p(10, 10), 0));
    let far = p(i32::MAX, i32::MAX);
    let low = p(i32::MIN, i32::MIN);
    assert!(is_near_segment(p(0, 0), low, far, 1));
    assert!(!is_near_segment(p(i32::MAX, i32::MIN), low, far, u16::MAX));
}

#[test]
fn on_curve_query_of_a_line() {
    let line = curve(&[(0, 0), (100, 100)]);
    assert_eq!(DEFAULT_TOLERANCE, 5);
    assert!(line.on_curve_query(p(50, 50), None));
    assert!(line.on_curve_query(p(50, 56), None));
    assert!(!line.on_curve_query(p(50, 60), None));
    assert!(line.on_curve_query(p(50, 60), Some(10)));
    assert!(!line.on_curve_query(p(50, 51), Some(0)));
    assert!(!Bezier::empty().on_curve_query(p(0, 0), Some(u16::MAX)));
}

#[test]
fn on_curve_query_of_curved_segments() {
    let quadratic = curve(&[(0, 0), (50, 100), (100, 0)]);
    assert!(quadratic.on_curve_query(p(50, 50), None));
    assert!(quadratic.on_curve_query(p(0, 0), Some(0)));
    assert!(quadratic.on_curve_query(p(100, 0), Some(0)));
    assert!(!quadratic.on_curve_query(p(50, 100), None));
    assert!(!quadratic.on_curve_query(p(50, 0), None));
    let cubic = curve(&[(0, 0), (0, 100), (100, 100), (100, 0)]);
    assert!(cubic.on_curve_query(p(50, 75), None));
    assert!(cubic.on_curve_query(p(0, 0), Some(0)));
    assert!(cubic.on_curve_query(p(100, 0), Some(0)));
    assert!(!cubic.on_curve_query(p(50, 100), None));
    assert!(!cubic.on_curve_query(p(50, 50), None));
}

#[test]
fn samples_run_from_end_to_end() {
    let quadratic = curve(&[(0, 0), (50, 100), (100, 0)]);
    assert_eq!(quadratic.sample_point(0), p(0, 0));
    assert_eq!(quadratic.sample_point(FLATTENING_STEPS / 2), p(50, 50));
    assert_eq!(quadratic.sample_point(FLATTENING_STEPS), p(100, 0));
    let cubic = curve(&[(0, 0), (0, 100), (100, 100), (100, 0)]);
    assert_eq!(cubic.sample_point(0), p(0, 0));
    assert_eq!(cubic.sample_point(FLATTENING_STEPS / 2), p(50, 75));
    assert_eq!(cubic.sample_point(FLATTENING_STEPS), p(100, 0));
    let edge = curve(&[(i32::MIN, i32::MAX), (i32::MIN, i32::MAX), (i32::MIN, i32::MAX), (i32::MIN, i32::MAX)]);
    assert_eq!(edge.sample_point(7), p(i32::MIN, i32::MAX));
}

#[test]
fn degree_elevation_keeps_the_ends() {
    assert_eq!(elevated_handle(p(0, 0), p(30, 60)), p(20, 40));
    assert_eq!(elevated_handle(p(0, 0), p(1, 2)), p(1, 1));
    assert_eq!(elevated_handle(p(0, 0), p(-1, -2)), p(-1, -1));
    let quadratic = Bezier::from_curve_points(
        true,
        vec![
            CurvePoint::with_uuid(p(0, 0), 1),
            CurvePoint::with_uuid(p(30, 60), 2),
            CurvePoint::with_uuid(p(90, 0), 3),
        ],
    )
    .unwrap();
    let cubic = quadratic.to_cubic();
    assert_eq!(positions(&cubic), vec![p(0, 0), p(20, 40), p(50, 40), p(90, 0)]);
    assert!(!cubic.smooth());
    assert_eq!((cubic.point(0).uuid >> 76) & 0xf, 4);
}
