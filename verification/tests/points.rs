use gerb::arith::{floor_div, rounded_div};
use gerb::matrix::Matrix;
use gerb::points::{distance_between_two_points, integer_sqrt, lattice_point, CurvePoint, Point};

fn p(x: i32, y: i32) -> Point {
    Point { x, y }
}

#[test]
fn distance_is_rounded_down() {
    let a = p(0, 0);
    assert_eq!(distance_between_two_points(a, p(3, 4)), 5);
    assert_eq!(distance_between_two_points(a, p(5, 5)), 7);
    assert_eq!(distance_between_two_points(a, a), 0);
    assert_eq!(distance_between_two_points(p(i32::MIN, i32::MIN), p(i32::MAX, i32::MAX)), 6074000998);
}

#[test]
fn integer_sqrt_brackets_its_argument() {
    for n in [0u128, 1, 2, 3, 4, 15, 16, 17, 99, 100, 1 << 40, (1 << 66) - 1, 1 << 127, u128::MAX] {
        let r = integer_sqrt(n) as u128;
        assert!(r * r <= n && (r + 1).checked_mul(r + 1).map_or(true, |s| n < s));
    }
}

#[test]
fn fresh_points_bear_random_identifiers() {
    let a = CurvePoint::new(p(1, 2));
    let b = CurvePoint::new(p(1, 2));
    assert_eq!(a.position, p(1, 2));
    assert_eq!((a.uuid >> 76) & 0xf, 4);
    assert_eq!((a.uuid >> 62) & 0x3, 2);
    assert_ne!(a.uuid, b.uuid);
}

#[test]
fn moving_a_point_keeps_its_identifier() {
    let a = CurvePoint::with_uuid(p(1, 2), 77);
    let b = a.moved_to(p(5, 6));
    assert_eq!(b, CurvePoint { position: p(5, 6), uuid: 77 });
}

#[test]
fn vector_arithmetic_is_exact_or_refused() {
    assert_eq!(p(1, 2).checked_add(p(3, -5)), Some(p(4, -3)));
    assert_eq!(p(1, 2).checked_sub(p(3, -5)), Some(p(-2, 7)));
    assert_eq!(p(3, -4).checked_scale(-2), Some(p(-6, 8)));
    assert_eq!(p(i32::MAX, 0).checked_add(p(1, 0)), None);
    assert_eq!(p(0, i32::MIN).checked_sub(p(0, 1)), None);
    assert_eq!(p(i32::MAX, 1).checked_scale(2), None);
    assert_eq!(Point::zero(), p(0, 0));
}

#[test]
fn mirror_image_lies_across_the_centre() {
    assert_eq!(p(-15, 2).mirror(p(0, 0)), Some(p(15, -2)));
    assert_eq!(p(1, 1).mirror(p(4, 5)), Some(p(7, 9)));
    assert_eq!(p(i32::MIN, 0).mirror(p(0, 0)), None);
}

#[test]
fn collinearity_is_a_vanishing_cross_product() {
    assert!(p(0, 0).collinear(p(1, 1), p(5, 5)));
    assert!(p(-10, 0).collinear(p(0, 0), p(20, 0)));
    assert!(!p(0, 0).collinear(p(1, 1), p(5, 6)));
    assert_eq!(p(0, 0).cross_product(p(2, 0), p(0, 3)), 6);
    assert_eq!(p(0, 0).dot_product(p(2, 1), p(4, 3)), 11);
}

#[test]
fn lengths_are_exact() {
    assert_eq!(p(3, 4).norm_squared(), 25);
    assert_eq!(p(i32::MIN, i32::MIN).norm_squared(), 1u64 << 63);
    assert_eq!(p(1, 1).distance_squared(p(4, 5)), 25);
    assert_eq!(p(1, 1).taxicab_distance(p(4, -5)), 9);
    assert_eq!(lattice_point(1 << 31, 0), None);
    assert_eq!(lattice_point(-(1 << 31), 5), Some(p(i32::MIN, 5)));
}

#[test]
fn division_rounds_down_and_to_the_nearest() {
    assert_eq!(floor_div(7, 2), 3);
    assert_eq!(floor_div(-7, 2), -4);
    assert_eq!(floor_div(-8, 2), -4);
    assert_eq!(floor_div(-1, 3), -1);
    assert_eq!(rounded_div(7, 2), 4);
    assert_eq!(rounded_div(-7, 2), -3);
    assert_eq!(rounded_div(5, 3), 2);
    assert_eq!(rounded_div(4, 3), 1);
    assert_eq!(rounded_div(-4, 3), -1);
    assert_eq!(rounded_div(-5, 3), -2);
}

#[test]
fn matrices_move_turn_and_compose() {
    let q = p(3, 4);
    assert_eq!(Matrix::identity().transform_point(q), Some(q));
    assert_eq!(Matrix::translation(-5, 2).transform_point(q), Some(p(-2, 6)));
    assert_eq!(Matrix::quarter_turns(0).transform_point(q), Some(q));
    assert_eq!(Matrix::quarter_turns(1).transform_point(q), Some(p(-4, 3)));
    assert_eq!(Matrix::quarter_turns(2).transform_point(q), Some(p(-3, -4)));
    assert_eq!(Matrix::quarter_turns(3).transform_point(q), Some(p(4, -3)));
    assert_eq!(Matrix::quarter_turns(5), Matrix::quarter_turns(1));
    let m = Matrix::new(2, 1, -1, 3, 10, 20);
    assert_eq!(m.transform_point(q), Some(p(2 * 3 - 4 + 10, 3 + 3 * 4 + 20)));
    assert_eq!(Matrix::translation(i32::MAX, 0).transform_point(p(1, 0)), None);
    let turn_then_move = Matrix::quarter_turns(1).multiply(&Matrix::translation(7, 7)).unwrap();
    assert_eq!(turn_then_move.transform_point(q), Some(p(3, 10)));
    let both = m.multiply(&Matrix::quarter_turns(1)).unwrap();
    assert_eq!(
        both.transform_point(q),
        Matrix::quarter_turns(1).transform_point(m.transform_point(q).unwrap())
    );
    let big = Matrix::new(i32::MAX, 0, 0, 1, 0, 0);
    assert_eq!(big.multiply(&big), None);
}

#[test]
fn the_root_of_the_greatest_number() {
    assert_eq!(integer_sqrt(u128::MAX), u64::MAX);
    assert_eq!(integer_sqrt((u64::MAX as u128) * (u64::MAX as u128) - 1), u64::MAX - 1);
}
