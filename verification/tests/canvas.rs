use gerb::canvas::{Canvas, Transformation, UnitPoint, ViewPoint};
use gerb::continuity::Ratio;
use gerb::matrix::Matrix;
use gerb::points::Point;

fn p(x: i32, y: i32) -> Point {
    Point { x, y }
}

fn ratio(num: u64, den: u64) -> Ratio {
    Ratio { num, den }
}

/// A view that magnifies six times.
fn view() -> Transformation {
    let mut t = Transformation::new(ratio(3, 1), ratio(2, 1), 801, 600);
    t.camera = UnitPoint(p(10, -20));
    t
}

/// A view that magnifies one and a half times.
fn fine() -> Transformation {
    let mut t = Transformation::new(ratio(3, 4), ratio(2, 1), 801, 600);
    t.camera = UnitPoint(p(10, -20));
    t
}

#[test]
fn unit_points_are_laid_out_on_the_view() {
    let t = view();
    assert_eq!(t.unit_to_view_point(UnitPoint(p(0, 0))), Some(ViewPoint(p(460, 420))));
    assert_eq!(t.unit_to_view_point(UnitPoint(p(5, 7))), Some(ViewPoint(p(490, 378))));
    assert_eq!(t.unit_to_view_point(UnitPoint(p(-10, 20))), Some(ViewPoint(p(400, 300))));
    assert_eq!(t.camera(), UnitPoint(p(10, -20)));
    assert_eq!(t.magnification(), Some(ratio(6, 1)));
}

#[test]
fn only_the_view_points_of_unit_points_have_a_unit_point() {
    let t = view();
    assert_eq!(t.view_to_unit_point(ViewPoint(p(460, 420))), Some(UnitPoint(p(0, 0))));
    assert_eq!(t.view_to_unit_point(ViewPoint(p(490, 378))), Some(UnitPoint(p(5, 7))));
    assert_eq!(t.view_to_unit_point(ViewPoint(p(465, 420))), None);
    assert_eq!(t.view_to_unit_point(ViewPoint(p(460, 421))), None);
    let plain = Transformation::new(ratio(5, 1), ratio(2, 1), 0, 0);
    assert_eq!(plain.view_to_unit_point(ViewPoint(p(9, 0))), None);
    assert_eq!(plain.view_to_unit_point(ViewPoint(p(10, 0))), Some(UnitPoint(p(1, 0))));
    assert_eq!(plain.nearest_unit_point(ViewPoint(p(9, 0))), Some(UnitPoint(p(0, 0))));
}

#[test]
fn every_view_point_has_a_nearest_unit_point() {
    let t = view();
    assert_eq!(t.nearest_unit_point(ViewPoint(p(460, 420))), Some(UnitPoint(p(0, 0))));
    assert_eq!(t.nearest_unit_point(ViewPoint(p(465, 420))), Some(UnitPoint(p(0, 0))));
    assert_eq!(t.nearest_unit_point(ViewPoint(p(466, 420))), Some(UnitPoint(p(1, 0))));
    assert_eq!(t.nearest_unit_point(ViewPoint(p(459, 421))), Some(UnitPoint(p(-1, -1))));
    assert_eq!(t.nearest_unit_point(ViewPoint(p(490, 378))), Some(UnitPoint(p(5, 7))));
    assert_eq!(t.nearest_view_point(UnitPoint(p(5, 7))), Some(ViewPoint(p(490, 378))));
}

#[test]
fn to_the_view_and_back_and_from_the_view_and_back() {
    for t in [view(), fine()] {
        for x in [-1000, -8, -2, 0, 2, 4, 998] {
            for y in [-500, -2, 0, 6, 12346] {
                let u = UnitPoint(p(x, y));
                let v = t.unit_to_view_point(u).unwrap();
                assert_eq!(t.view_to_unit_point(v), Some(u));
                assert_eq!(t.nearest_unit_point(v), Some(u));
                assert_eq!(t.nearest_view_point(u), Some(v));
            }
        }
        for x in -30..30 {
            for y in -30..30 {
                let v = ViewPoint(p(400 + x, 300 + y));
                if let Some(u) = t.view_to_unit_point(v) {
                    assert_eq!(t.unit_to_view_point(u), Some(v));
                }
                let u = t.nearest_unit_point(v).unwrap();
                if let Some(back) = t.unit_to_view_point(u) {
                    assert!(back.0.x <= v.0.x && back.0.y >= v.0.y);
                }
            }
        }
    }
    let canvas = Canvas::new(view());
    let u = UnitPoint(p(12, 34));
    let v = canvas.unit_to_view_point(u).unwrap();
    assert_eq!(canvas.view_to_unit_point(v), Some(u));
}

#[test]
fn a_magnification_that_is_no_whole_number() {
    let t = fine();
    assert_eq!(t.magnification(), Some(ratio(6, 4)));
    assert_eq!(t.unit_to_view_point(UnitPoint(p(0, 0))), Some(ViewPoint(p(415, 330))));
    assert_eq!(t.unit_to_view_point(UnitPoint(p(2, 2))), Some(ViewPoint(p(418, 327))));
    assert_eq!(t.unit_to_view_point(UnitPoint(p(1, 0))), None);
    assert_eq!(t.nearest_view_point(UnitPoint(p(1, 0))), Some(ViewPoint(p(416, 330))));
    assert_eq!(t.view_to_unit_point(ViewPoint(p(418, 327))), Some(UnitPoint(p(2, 2))));
    assert_eq!(t.view_to_unit_point(ViewPoint(p(416, 330))), None);
    assert_eq!(t.nearest_unit_point(ViewPoint(p(416, 330))), Some(UnitPoint(p(0, 0))));
    assert_eq!(t.nearest_unit_point(ViewPoint(p(417, 330))), Some(UnitPoint(p(1, 0))));
    assert_eq!(t.matrix(), None);
    let small = Transformation::new(ratio(1, 4), ratio(1, 1), 0, 0);
    assert_eq!(small.unit_to_view_point(UnitPoint(p(8, -4))), Some(ViewPoint(p(2, 1))));
    assert_eq!(small.view_to_unit_point(ViewPoint(p(2, 1))), Some(UnitPoint(p(8, -4))));
    assert_eq!(small.view_to_unit_point(ViewPoint(p(i32::MAX, 0))), None);
}

#[test]
fn a_transformation_that_is_not_well_formed_has_no_points() {
    for t in [
        Transformation::new(ratio(0, 1), ratio(2, 1), 800, 600),
        Transformation::new(ratio(1, 0), ratio(2, 1), 800, 600),
        Transformation::new(ratio(1, 1), ratio(1 << 32, 1), 800, 600),
    ] {
        assert_eq!(t.view_to_unit_point(ViewPoint(p(400, 300))), None);
        assert_eq!(t.unit_to_view_point(UnitPoint(p(0, 0))), None);
        assert_eq!(t.nearest_unit_point(ViewPoint(p(400, 300))), None);
        assert_eq!(t.nearest_view_point(UnitPoint(p(0, 0))), None);
        assert_eq!(t.magnification(), None);
        assert_eq!(t.matrix(), None);
        let mut t = t;
        assert!(!t.move_camera_by_delta(ViewPoint(p(5, 5))));
    }
}

#[test]
fn points_off_the_lattice_are_refused() {
    let t = Transformation::new(ratio(1000, 1), ratio(1000, 1), 800, 600);
    assert_eq!(t.unit_to_view_point(UnitPoint(p(1_000_000, 0))), None);
    assert_eq!(t.nearest_view_point(UnitPoint(p(1_000_000, 0))), None);
    let mut t = Transformation::new(ratio(1, 1), ratio(1, 1), 0, 0);
    t.camera = UnitPoint(p(i32::MIN, 0));
    assert_eq!(t.view_to_unit_point(ViewPoint(p(1, 0))), None);
    assert_eq!(t.view_to_unit_point(ViewPoint(p(-1, 0))), Some(UnitPoint(p(i32::MAX, 0))));
}

#[test]
fn the_matrix_lays_out_as_the_transformation_does() {
    let t = view();
    let m = t.matrix().unwrap();
    assert_eq!(m, Matrix::new(6, 0, 0, -6, 460, 420));
    for q in [p(0, 0), p(5, 7), p(-100, 33)] {
        assert_eq!(m.transform_point(q).map(ViewPoint), t.unit_to_view_point(UnitPoint(q)));
    }
    let mut far = Transformation::new(ratio(1000, 1), ratio(1000, 1), 0, 0);
    far.camera = UnitPoint(p(1_000_000, 0));
    assert_eq!(far.matrix(), None);
    let even = Transformation::new(ratio(3, 2), ratio(4, 3), 0, 0);
    assert_eq!(even.matrix(), Some(Matrix::new(2, 0, 0, -2, 0, 0)));
}

#[test]
fn dragging_the_view_moves_the_camera() {
    let mut t = view();
    assert!(t.move_camera_by_delta(ViewPoint(p(12, 13))));
    assert_eq!(t.camera(), UnitPoint(p(12, -23)));
    assert!(t.move_camera_by_delta(ViewPoint(p(-1, -1))));
    assert_eq!(t.camera(), UnitPoint(p(11, -23)));
    let mut f = fine();
    assert!(f.move_camera_by_delta(ViewPoint(p(3, -4))));
    assert_eq!(f.camera(), UnitPoint(p(12, -18)));
    let mut edge = Transformation::new(ratio(1, 1), ratio(1, 1), 0, 0);
    edge.camera = UnitPoint(p(i32::MAX, 0));
    assert!(!edge.move_camera_by_delta(ViewPoint(p(1, 0))));
    assert_eq!(edge.camera(), UnitPoint(p(i32::MAX, 0)));
}

#[test]
fn the_canvas_remembers_the_pointer() {
    let mut canvas = Canvas::new(view());
    assert_eq!(canvas.get_mouse(), ViewPoint(p(0, 0)));
    canvas.set_mouse(ViewPoint(p(3, 4)));
    assert_eq!(canvas.get_mouse(), ViewPoint(p(3, 4)));
    assert_eq!(canvas.transformation, view());
}
