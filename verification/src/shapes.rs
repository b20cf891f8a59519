//! Shapes to start a contour from: the quadrilateral and the circle.

use vstd::prelude::*;
use crate::arith::round_div;
use crate::arith::rounded_div;
use crate::curves::positions;
use crate::curves::Bezier;
use crate::errors::EditError;
use crate::matrix::Matrix;
use crate::points::lattice;
use crate::points::lattice_point;
use crate::points::lemma_product_bound;
use crate::points::Point;

verus! {

/// The denominator of the three numbers that lay out a quarter of a circle.
pub const CIRCLE_UNIT: u64 = 100_000_000;

/// How far the ends of a quarter of a circle lie from the centre, for the
/// radius `CIRCLE_UNIT`.
pub const CIRCLE_END: u64 = 100_005_519;

/// The lesser coordinate of a handle of a quarter of a circle, for the radius
/// `CIRCLE_UNIT`.
pub const CIRCLE_NEAR: u64 = 55_342_686;

/// The greater coordinate of a handle of a quarter of a circle, for the
/// radius `CIRCLE_UNIT`.
pub const CIRCLE_FAR: u64 = 99_873_585;

/// The length `factor * radius / CIRCLE_UNIT`, rounded to the lattice.
pub open spec fn circle_length(factor: int, radius: int) -> int {
    round_div(factor * radius, CIRCLE_UNIT as int)
}

/// The `k`-th control point of the first quarter of the circle of the given
/// radius about the origin: from the first axis to the second.
pub open spec fn quarter_point(radius: int, k: int) -> (int, int) {
    if k == 0 {
        (circle_length(CIRCLE_END as int, radius), 0)
    } else if k == 1 {
        (circle_length(CIRCLE_FAR as int, radius), circle_length(CIRCLE_NEAR as int, radius))
    } else if k == 2 {
        (circle_length(CIRCLE_NEAR as int, radius), circle_length(CIRCLE_FAR as int, radius))
    } else {
        (0, circle_length(CIRCLE_END as int, radius))
    }
}

/// The point `(x, y)` after `turns` quarter turns about the origin, from the
/// first axis towards the second.
pub open spec fn turned(p: (int, int), turns: int) -> (int, int) {
    if turns % 4 == 0 {
        p
    } else if turns % 4 == 1 {
        (-p.1, p.0)
    } else if turns % 4 == 2 {
        (-p.0, -p.1)
    } else {
        (p.1, -p.0)
    }
}

/// The `k`-th control point of the `i`-th quarter of the circle about
/// `center`, where it lies on the lattice.
#[verifier::opaque]
pub open spec fn circle_point(center: Point, radius: int, i: int, k: int) -> Option<Point> {
    let p = turned(quarter_point(radius, k), i);
    lattice(center.x + p.0, center.y + p.1)
}

/// The four segments of a circle, where every point lies on the lattice.
pub open spec fn circle_fits(center: Point, radius: int) -> bool {
    forall|i: int, k: int| 0 <= i < 4 && 0 <= k < 4 ==> #[trigger] circle_point(
        center,
        radius,
        i,
        k,
    ) is Some
}

/// The positions of the `i`-th quarter of the circle.
pub open spec fn quarter_positions(center: Point, radius: int, i: int) -> Seq<Point> {
    Seq::new(4, |k: int| circle_point(center, radius, i, k).unwrap())
}

/// Lays out the four sides of the quadrilateral with the corners `a`, `b`,
/// `c`, `d`: from each corner to the next, and from the last to the first.
/// Every point is a new point; the smooth flags stay.
pub fn make_quadrilateral_bezier_curves(
    curves: &mut [Bezier; 4],
    corners: (Point, Point, Point, Point),
)
    ensures
        forall|k: int| 0 <= k < 4 ==> (#[trigger] final(curves)[k]).wf() && final(curves)[k]@.smooth
            == old(curves)[k]@.smooth,
        positions(final(curves)[0]@.points) == seq![corners.0, corners.1],
        positions(final(curves)[1]@.points) == seq![corners.1, corners.2],
        positions(final(curves)[2]@.points) == seq![corners.2, corners.3],
        positions(final(curves)[3]@.points) == seq![corners.3, corners.0],
{
    let (a, b, c, d) = corners;
    let mut k: usize = 0;
    while k < 4
        invariant
            k <= 4,
            corners == (a, b, c, d),
            forall|j: int| k <= j < 4 ==> #[trigger] curves[j] == old(curves)[j],
            forall|j: int| 0 <= j < k ==> (#[trigger] curves[j]).wf() && curves[j]@.smooth == old(
                curves,
            )[j]@.smooth,
            k > 0 ==> positions(curves[0]@.points) == seq![a, b],
            k > 1 ==> positions(curves[1]@.points) == seq![b, c],
            k > 2 ==> positions(curves[2]@.points) == seq![c, d],
            k > 3 ==> positions(curves[3]@.points) == seq![d, a],
        decreases 4 - k,
    {
        let mut side: Vec<Point> = Vec::new();
        if k == 0 {
            side.push(a);
            side.push(b);
        } else if k == 1 {
            side.push(b);
            side.push(c);
        } else if k == 2 {
            side.push(c);
            side.push(d);
        } else {
            side.push(d);
            side.push(a);
        }
        let mut curve: Bezier = curves[k].clone();
        let _laid = curve.reset(&side);
        proof {
            assert(side@ =~= if k == 0 {
                seq![a, b]
            } else if k == 1 {
                seq![b, c]
            } else if k == 2 {
                seq![c, d]
            } else {
                seq![d, a]
            });
        }
        curves[k] = curve;
        k += 1;
    }
}

/// The length `factor * radius / CIRCLE_UNIT`, rounded to the lattice.
fn scaled_length(factor: u64, radius: u64) -> (r: i128)
    requires
        factor <= 200_000_000,
    ensures
        r == circle_length(factor as int, radius as int),
        0 <= r <= 0x2_0000_0000_0000_0000,
{
    proof {
        lemma_product_bound(factor as int, radius as int, 200_000_000, 0xffff_ffff_ffff_ffff);
        assert(0 <= factor * radius) by (nonlinear_arith);
        crate::arith::lemma_round_div_between(
            factor * radius,
            CIRCLE_UNIT as int,
            0,
            0x2_0000_0000_0000_0000,
        );
    }
    rounded_div((factor as i128) * (radius as i128), CIRCLE_UNIT as i128)
}

/// The `k`-th control point of the `i`-th quarter of the circle about
/// `center`, or `None` where it lies off the lattice.
fn circle_corner(center: Point, radius: u64, i: u8, k: u8) -> (r: Option<Point>)
    requires
        i < 4,
        k < 4,
    ensures
        r == circle_point(center, radius as int, i as int, k as int),
{
    reveal(circle_point);
    let end: i128 = scaled_length(CIRCLE_END, radius);
    let near: i128 = scaled_length(CIRCLE_NEAR, radius);
    let far: i128 = scaled_length(CIRCLE_FAR, radius);
    let (x, y): (i128, i128) = if k == 0 {
        (end, 0)
    } else if k == 1 {
        (far, near)
    } else if k == 2 {
        (near, far)
    } else {
        (0, end)
    };
    let (tx, ty): (i128, i128) = if i == 0 {
        (x, y)
    } else if i == 1 {
        (-y, x)
    } else if i == 2 {
        (-x, -y)
    } else {
        (y, -x)
    };
    lattice_point(center.x as i128 + tx, center.y as i128 + ty)
}

/// A circle without radius lies on its centre, every point of it.
pub proof fn lemma_circle_without_radius(center: Point, i: int, k: int)
    requires
        0 <= i < 4,
        0 <= k < 4,
    ensures
        circle_point(center, 0, i, k) == Some(center),
{
    crate::arith::lemma_floor_div_unique(100_000_000, 200_000_000, 0);
    assert(round_div(0, CIRCLE_UNIT as int) == 0);
    assert(circle_length(CIRCLE_END as int, 0) == 0);
    assert(circle_length(CIRCLE_NEAR as int, 0) == 0);
    assert(circle_length(CIRCLE_FAR as int, 0) == 0);
    reveal(circle_point);
}

/// Each quarter of a circle starts where the quarter before it ends.
pub proof fn lemma_quarters_meet(center: Point, radius: int, i: int)
    requires
        0 <= i < 4,
    ensures
        circle_point(center, radius, i, 3) == circle_point(center, radius, (i + 1) % 4, 0),
{
    reveal(circle_point);
}

/// Lays out the circle about `center` with the given radius as four cubic
/// curves, a quarter each, the first from the first axis to the second.
/// Every point is a new point; the smooth flags stay. Where a point would
/// lie off the lattice, the segments stay as they are.
pub fn make_circle_bezier_curves(curves: &mut [Bezier; 4], circle: (Point, u64)) -> (r: Result<
    (),
    EditError,
>)
    ensures
        circle_fits(circle.0, circle.1 as int) <==> r is Ok,
        r is Ok ==> forall|i: int|
            0 <= i < 4 ==> (#[trigger] final(curves)[i]).wf() && final(curves)[i]@.smooth == old(
                curves,
            )[i]@.smooth && positions(final(curves)[i]@.points) == quarter_positions(
                circle.0,
                circle.1 as int,
                i,
            ),
        r matches Err(e) ==> e == EditError::OutOfRange && *final(curves) == *old(curves),
{
    let (center, radius) = circle;
    let mut quarters: Vec<Vec<Point>> = Vec::new();
    let mut i: u8 = 0;
    while i < 4
        invariant
            i <= 4,
            circle == (center, radius),
            quarters@.len() == i,
            forall|j: int|
                0 <= j < i ==> (#[trigger] quarters@[j])@ == quarter_positions(
                    center,
                    radius as int,
                    j,
                ),
            forall|j: int, k: int|
                0 <= j < i && 0 <= k < 4 ==> #[trigger] circle_point(center, radius as int, j, k) is Some,
        decreases 4 - i,
    {
        let mut quarter: Vec<Point> = Vec::new();
        let mut k: u8 = 0;
        while k < 4
            invariant
                i < 4,
                k <= 4,
                circle == (center, radius),
                quarter@.len() == k,
                forall|l: int|
                    0 <= l < k ==> circle_point(center, radius as int, i as int, l) == Some(
                        #[trigger] quarter@[l],
                    ),
            decreases 4 - k,
        {
            match circle_corner(center, radius, i, k) {
                Some(p) => {
                    quarter.push(p);
                },
                None => {
                    return Err(EditError::OutOfRange);
                },
            }
            k += 1;
        }
        proof {
            assert forall|l: int| 0 <= l < 4 implies #[trigger] circle_point(
                center,
                radius as int,
                i as int,
                l,
            ) is Some by {
                assert(circle_point(center, radius as int, i as int, l) == Some(quarter@[l]));
            }
            assert(quarter@ =~= quarter_positions(center, radius as int, i as int));
        }
        quarters.push(quarter);
        i += 1;
    }
    let mut c: usize = 0;
    while c < 4
        invariant
            c <= 4,
            circle == (center, radius),
            circle_fits(center, radius as int),
            quarters@.len() == 4,
            forall|j: int|
                0 <= j < 4 ==> (#[trigger] quarters@[j])@ == quarter_positions(
                    center,
                    radius as int,
                    j,
                ),
            forall|j: int| c <= j < 4 ==> #[trigger] curves[j] == old(curves)[j],
            forall|j: int|
                0 <= j < c ==> (#[trigger] curves[j]).wf() && curves[j]@.smooth == old(
                    curves,
                )[j]@.smooth && positions(curves[j]@.points) == quarter_positions(
                    center,
                    radius as int,
                    j,
                ),
        decreases 4 - c,
    {
        let mut curve: Bezier = curves[c].clone();
        let _laid = curve.reset(&quarters[c]);
        curves[c] = curve;
        c += 1;
    }
    Ok(())
}

} // verus!
