use gerb::contours::Contour;
use gerb::curves::Bezier;
use gerb::errors::EditError;
use gerb::glyphs::{Component, Glyph, GlyphKind, GlyphPointIndex};
use gerb::matrix::Matrix;
use gerb::outline::{HandleMark, PathCommand};
use gerb::points::{CurvePoint, Point};

fn p(x: i32, y: i32) -> Point {
    Point { x, y }
}

fn seg(smooth: bool, first: u128, points: &[(i32, i32)]) -> Bezier {
    let pts = points
        .iter()
        .enumerate()
        .map(|(i, &(x, y))| CurvePoint::with_uuid(p(x, y), first + i as u128))
        .collect();
    Bezier::from_curve_points(smooth, pts).unwrap()
}

/// A glyph of two contours: an open one of a line, a quadratic and a cubic
/// curve, and a closed triangle.
fn glyph() -> Glyph {
    let mut g = Glyph::new(
        "a",
        'a',
        vec![
            seg(false, 10, &[(0, 0), (100, 0)]),
            seg(false, 20, &[(100, 0), (130, 60), (190, 0)]),
            seg(false, 30, &[(190, 0), (200, 50), (250, 50), (260, 0)]),
        ],
    )
    .unwrap();
    let triangle = Contour::ring(&vec![
        seg(false, 40, &[(0, 500), (10, 500)]),
        seg(false, 50, &[(10, 500), (0, 510)]),
        seg(false, 60, &[(0, 510), (0, 500)]),
    ])
    .unwrap();
    g.contours.push(triangle);
    g
}

#[test]
fn a_new_glyph_has_one_contour() {
    let g = glyph();
    assert_eq!(g.name, "a");
    assert_eq!(g.kind, GlyphKind::Char('a'));
    assert_eq!(g.width, None);
    assert!(g.components.is_empty());
    assert!(g.guidelines.is_empty());
    assert_eq!(g.glif_source, "");
    assert_eq!(g.contours[0].curves().len(), 3);
    assert!(g.contours[0].is_open());
    assert_eq!(g.contours[0].continuities().len(), 2);
    assert!(!g.is_empty());
}

#[test]
fn a_glyph_of_segments_that_do_not_meet_is_rejected() {
    let apart = vec![seg(false, 10, &[(0, 0), (100, 0)]), seg(false, 20, &[(99, 0), (130, 60)])];
    assert_eq!(Glyph::new("a", 'a', apart).err(), Some(EditError::JoinMismatch));
}

#[test]
fn emptiness() {
    let empty = Glyph::new_empty("space", ' ');
    assert!(empty.is_empty());
    assert_eq!(empty.contours.len(), 1);
    assert_eq!(empty.kind, GlyphKind::Char(' '));
    assert_eq!(empty.name, "space");
    assert!(Glyph::new("space", ' ', vec![]).unwrap().is_empty());
    let mut parts = Glyph::new_empty("aacute", 'á');
    parts.components.push(Component { base_name: "a".to_string(), transform: Matrix::identity() });
    assert!(!parts.is_empty());
    let mut bare = Glyph::new_empty("x", 'x');
    bare.contours.clear();
    assert!(bare.is_empty());
}

#[test]
fn the_outline_is_made_of_lines_and_cubic_curves() {
    assert_eq!(
        glyph().outline(),
        vec![
            PathCommand::MoveTo(p(0, 0)),
            PathCommand::LineTo(p(100, 0)),
            PathCommand::CurveTo(p(120, 40), p(150, 40), p(190, 0)),
            PathCommand::CurveTo(p(200, 50), p(250, 50), p(260, 0)),
            PathCommand::MoveTo(p(0, 500)),
            PathCommand::LineTo(p(10, 500)),
            PathCommand::LineTo(p(0, 510)),
            PathCommand::LineTo(p(0, 500)),
        ]
    );
    assert_eq!(Glyph::new_empty("space", ' ').outline(), vec![]);
    assert_eq!(Contour::new().path(), vec![]);
}

#[test]
fn one_segment_by_itself() {
    let g = glyph();
    assert_eq!(
        g.highlight(0, 1),
        Some(vec![
            PathCommand::MoveTo(p(100, 0)),
            PathCommand::CurveTo(p(120, 40), p(150, 40), p(190, 0))
        ])
    );
    assert_eq!(
        g.highlight(1, 2),
        Some(vec![PathCommand::MoveTo(p(0, 510)), PathCommand::LineTo(p(0, 500))])
    );
    assert_eq!(g.highlight(0, 3), None);
    assert_eq!(g.highlight(2, 0), None);
}

#[test]
fn the_marks_of_the_control_points() {
    let g = glyph();
    let marks = g.handle_marks();
    assert_eq!(
        marks[..13],
        [
            HandleMark::OnCurve(p(0, 0)),
            HandleMark::OnCurve(p(100, 0)),
            HandleMark::Connection(p(130, 60), p(100, 0)),
            HandleMark::Connection(p(130, 60), p(190, 0)),
            HandleMark::Handle(p(130, 60)),
            HandleMark::OnCurve(p(100, 0)),
            HandleMark::OnCurve(p(190, 0)),
            HandleMark::Connection(p(200, 50), p(190, 0)),
            HandleMark::Connection(p(250, 50), p(260, 0)),
            HandleMark::Handle(p(200, 50)),
            HandleMark::Handle(p(250, 50)),
            HandleMark::OnCurve(p(190, 0)),
            HandleMark::OnCurve(p(260, 0)),
        ]
    );
    assert_eq!(marks.len(), 19);
    assert_eq!(g.contours[1].handle_marks().len(), 6);
}

#[test]
fn into_cubic_of_a_glyph_keeps_its_outline() {
    let mut g = glyph();
    let outline = g.outline();
    g.into_cubic();
    let second: Vec<Point> = g.contours[0].curves()[1].points().iter().map(|c| c.position).collect();
    assert_eq!(second, vec![p(100, 0), p(120, 40), p(150, 40), p(190, 0)]);
    assert_eq!(g.contours[0].curves()[0].point(0).uuid, 10);
    assert_eq!(g.contours[0].curves()[2].point(3).uuid, 33);
    assert_eq!(g.outline(), outline);
    assert_eq!(g.name, "a");
}

#[test]
fn the_first_segment_under_a_position() {
    let g = glyph();
    let found = g.on_curve_query(p(50, 3), &[]).unwrap();
    assert_eq!(found.0, (0, 0));
    assert_eq!(found.1.point(1).uuid, 11);
    assert_eq!(g.on_curve_query(p(100, 0), &[]).unwrap().0, (0, 0));
    assert_eq!(g.on_curve_query(p(145, 30), &[]).unwrap().0, (0, 1));
    assert_eq!(g.on_curve_query(p(6, 506), &[]).unwrap().0, (1, 1));
    assert!(g.on_curve_query(p(50, 300), &[]).is_none());
}

#[test]
fn the_first_segment_of_a_named_point() {
    let g = glyph();
    let at = |contour_index, curve_index, uuid| {
        (GlyphPointIndex { contour_index, curve_index, uuid }, p(0, 0))
    };
    assert_eq!(g.on_curve_query(p(50, 300), &[at(1, 2, 60)]).unwrap().0, (1, 2));
    assert_eq!(g.on_curve_query(p(50, 300), &[at(1, 2, 60), at(0, 2, 31)]).unwrap().0, (0, 2));
    assert_eq!(g.on_curve_query(p(6, 506), &[at(1, 2, 60)]).unwrap().0, (1, 1));
    assert!(g.on_curve_query(p(50, 300), &[at(1, 2, 10), at(5, 0, 10)]).is_none());
}

fn part(name: &str) -> Glyph {
    let mut g = Glyph::new_empty(name, ' ');
    g.kind = GlyphKind::Component;
    g
}

#[test]
fn characters_come_first_and_parts_go_by_name() {
    let a = Glyph::new_empty("a", 'a');
    let b = Glyph::new_empty("b", 'b');
    let e = Glyph::new_empty("eacute", 'é');
    assert!(a.precedes(&b) && !b.precedes(&a) && !a.precedes(&a));
    assert!(b.precedes(&e) && !e.precedes(&b));
    assert!(e.precedes(&part("a")) && !part("a").precedes(&e));
    assert!(part("acute").precedes(&part("grave")) && !part("grave").precedes(&part("acute")));
    assert!(part("a").precedes(&part("ab")) && !part("ab").precedes(&part("a")));
    assert!(part("").precedes(&part("a")) && !part("").precedes(&part("")));
    assert!(part("Z").precedes(&part("a")) && part("z").precedes(&part("é")));
    assert!(!part("same").precedes(&part("same")));
}

#[test]
fn glyphs_are_the_same_by_character_or_by_name() {
    assert!(Glyph::new_empty("a", 'a') == Glyph::new_empty("other", 'a'));
    assert!(Glyph::new_empty("a", 'a') != Glyph::new_empty("a", 'b'));
    assert!(part("a") == part("a"));
    assert!(part("a") != part("b"));
    assert!(part("a") != Glyph::new_empty("a", ' '));
    assert!(Glyph::new_empty("a", ' ') != part("a"));
}
