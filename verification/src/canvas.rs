//! The canvas: how the unit space of a glyph is laid out on the view.
//!
//! The view shows the unit space moved by the camera, magnified by the scale
//! times the pixels per unit, with the second axis turned over and the origin
//! in the middle of the view. The scale and the pixels per unit are ratios of
//! whole numbers. A unit point has a view point where the magnified point
//! falls on the lattice of the view, and a view point falls on a unit point
//! where it is the view point of one: between these the two ways are each
//! other's inverse, exactly. Every other point has a nearest one.

use vstd::prelude::*;
use vstd::arithmetic::div_mod::lemma_fundamental_div_mod;
use vstd::arithmetic::div_mod::lemma_mod_multiples_basic;
use crate::arith::floor_div;
use crate::arith::lemma_floor_div_between;
use crate::arith::lemma_floor_div_bounds;
use crate::arith::lemma_floor_div_unique;
use crate::continuity::Ratio;
use crate::matrix::Matrix;
use crate::points::lattice;
use crate::points::lattice_point;
use crate::points::lemma_product_bound;
use crate::points::Point;

verus! {

/// The greatest number that a part of the scale, or of the pixels per unit,
/// may be.
pub const PART_LIMIT: u64 = 0xffff_ffff;

/// A point of the unit space of a glyph.
#[derive(Clone, Copy, Debug, PartialEq, Eq, Structural, Hash)]
pub struct UnitPoint(pub Point);

/// A point of the view.
#[derive(Clone, Copy, Debug, PartialEq, Eq, Structural, Hash)]
pub struct ViewPoint(pub Point);

/// The camera and the magnification of a view.
#[derive(Clone, Copy, Debug, PartialEq, Eq, Structural, Hash)]
pub struct Transformation {
    pub scale: Ratio,
    pub pixels_per_unit: Ratio,
    pub view_width: u32,
    pub view_height: u32,
    pub camera: UnitPoint,
}

/// A canvas: a transformation, and where the pointer was seen last.
#[derive(Clone, Copy, Debug, PartialEq, Eq, Structural, Hash)]
pub struct Canvas {
    pub transformation: Transformation,
    pub mouse: ViewPoint,
}

/// The quotient of `n` by `d`, where `d` divides `n`.
pub open spec fn exact_quotient(n: int, d: int) -> Option<int> {
    if d > 0 && n % d == 0 {
        Some(n / d)
    } else {
        None
    }
}

/// Whether a part of a ratio is a number that the view can magnify by.
pub open spec fn is_part(v: u64) -> bool {
    0 < v <= PART_LIMIT
}

impl Transformation {
    /// Whether the scale and the pixels per unit are ratios of numbers that
    /// are not zero and not above the limit.
    pub open spec fn wf(self) -> bool {
        &&& is_part(self.scale.num)
        &&& is_part(self.scale.den)
        &&& is_part(self.pixels_per_unit.num)
        &&& is_part(self.pixels_per_unit.den)
    }

    /// The magnification is the ratio of this number to `shrinks`.
    pub open spec fn grows(self) -> int {
        self.scale.num * self.pixels_per_unit.num
    }

    /// The magnification is the ratio of `grows` to this number.
    pub open spec fn shrinks(self) -> int {
        self.scale.den * self.pixels_per_unit.den
    }

    /// The view point of the unit point `p`, where the magnified point falls
    /// on the lattice of the view.
    pub open spec fn to_view(self, p: Point) -> Option<Point> {
        if !self.wf() {
            None
        } else {
            match (
                exact_quotient((p.x + self.camera.0.x) * self.grows(), self.shrinks()),
                exact_quotient((p.y + self.camera.0.y) * self.grows(), self.shrinks()),
            ) {
                (Some(a), Some(b)) => lattice(
                    a + self.view_width / 2,
                    -b + self.view_height / 2,
                ),
                _ => None,
            }
        }
    }

    /// The unit point of which the view point `p` is the view point, where
    /// there is one.
    pub open spec fn to_unit(self, p: Point) -> Option<Point> {
        if !self.wf() {
            None
        } else {
            match (
                exact_quotient((p.x - self.view_width / 2) * self.shrinks(), self.grows()),
                exact_quotient((self.view_height / 2 - p.y) * self.shrinks(), self.grows()),
            ) {
                (Some(a), Some(b)) => lattice(a - self.camera.0.x, b - self.camera.0.y),
                _ => None,
            }
        }
    }

    /// The view point on or next below the magnified unit point `p`.
    pub open spec fn to_view_rounded(self, p: Point) -> Option<Point> {
        if !self.wf() {
            None
        } else {
            lattice(
                ((p.x + self.camera.0.x) * self.grows()) / self.shrinks() + self.view_width / 2,
                -(((p.y + self.camera.0.y) * self.grows()) / self.shrinks()) + self.view_height
                    / 2,
            )
        }
    }

    /// The unit point in whose cell the view point `p` falls: the cell of a
    /// unit point reaches from its view point up to that of the next.
    pub open spec fn to_unit_rounded(self, p: Point) -> Option<Point> {
        if !self.wf() {
            None
        } else {
            lattice(
                ((p.x - self.view_width / 2) * self.shrinks()) / self.grows() - self.camera.0.x,
                ((self.view_height / 2 - p.y) * self.shrinks()) / self.grows() - self.camera.0.y,
            )
        }
    }

    /// The entries of the affine map from the unit space to the view, where
    /// the magnification is a whole number and they fit.
    pub open spec fn to_matrix(self) -> Option<Matrix> {
        if !self.wf() || self.grows() % self.shrinks() != 0 {
            None
        } else {
            let k = self.grows() / self.shrinks();
            match lattice(k, -k) {
                Some(d) => match lattice(
                    self.camera.0.x * k + self.view_width / 2,
                    -(self.camera.0.y * k) + self.view_height / 2,
                ) {
                    Some(o) => Some(Matrix { xx: d.x, yx: 0, xy: 0, yy: d.y, x0: o.x, y0: o.y }),
                    None => None,
                },
                None => None,
            }
        }
    }

    /// The camera after the view was dragged by `delta`, where it stays on
    /// the lattice.
    pub open spec fn dragged(self, delta: Point) -> Option<Point> {
        if !self.wf() {
            None
        } else {
            lattice(
                self.camera.0.x + (delta.x * self.shrinks()) / self.grows(),
                self.camera.0.y + ((-delta.y) * self.shrinks()) / self.grows(),
            )
        }
    }

    /// The transformation of a view of the given size, with the camera on the
    /// origin.
    pub fn new(scale: Ratio, pixels_per_unit: Ratio, view_width: u32, view_height: u32) -> (r:
        Transformation)
        ensures
            r == (Transformation {
                scale,
                pixels_per_unit,
                view_width,
                view_height,
                camera: UnitPoint(Point { x: 0, y: 0 }),
            }),
    {
        Transformation {
            scale,
            pixels_per_unit,
            view_width,
            view_height,
            camera: UnitPoint(Point { x: 0, y: 0 }),
        }
    }

    /// The two numbers whose ratio is the magnification, or `None` where the
    /// transformation is not well formed.
    fn parts(&self) -> (r: Option<(i128, i128)>)
        ensures
            self.wf() <==> r is Some,
            r matches Some((m, d)) ==> m == self.grows() && d == self.shrinks() && 0 < m
                <= 0xffff_fffe_0000_0001 && 0 < d <= 0xffff_fffe_0000_0001,
    {
        let a: u64 = self.scale.num;
        let b: u64 = self.scale.den;
        let c: u64 = self.pixels_per_unit.num;
        let d: u64 = self.pixels_per_unit.den;
        if a == 0 || a > PART_LIMIT || b == 0 || b > PART_LIMIT || c == 0 || c > PART_LIMIT || d
            == 0 || d > PART_LIMIT {
            return None;
        }
        proof {
            lemma_product_bound(a as int, c as int, 0xffff_ffff, 0xffff_ffff);
            lemma_product_bound(b as int, d as int, 0xffff_ffff, 0xffff_ffff);
            assert(0 < a * c) by (nonlinear_arith)
                requires
                    0 < a,
                    0 < c,
            ;
            assert(0 < b * d) by (nonlinear_arith)
                requires
                    0 < b,
                    0 < d,
            ;
        }
        Some(((a as i128) * (c as i128), (b as i128) * (d as i128)))
    }

    /// The magnification, or `None` where the transformation is not well
    /// formed.
    pub fn magnification(&self) -> (r: Option<Ratio>)
        ensures
            self.wf() <==> r is Some,
            r matches Some(k) ==> k.num == self.grows() && k.den == self.shrinks(),
    {
        match self.parts() {
            Some((m, d)) => Some(Ratio { num: m as u64, den: d as u64 }),
            None => None,
        }
    }

    /// Where the camera stands.
    pub fn camera(&self) -> (r: UnitPoint)
        ensures
            r == self.camera,
    {
        self.camera
    }

    /// The view point of a unit point, or `None` where the magnified point
    /// does not fall on the lattice of the view. From the view point the way
    /// back leads to the unit point.
    pub fn unit_to_view_point(&self, unitpoint: UnitPoint) -> (r: Option<ViewPoint>)
        ensures
            r == match self.to_view(unitpoint.0) {
                Some(p) => Some(ViewPoint(p)),
                None => None,
            },
            r matches Some(v) ==> self.to_unit(v.0) == Some(unitpoint.0),
    {
        proof {
            if self.to_view(unitpoint.0) is Some {
                lemma_unit_view_round_trip(*self, unitpoint.0);
            }
        }
        let (m, d) = match self.parts() {
            Some(parts) => parts,
            None => {
                return None;
            },
        };
        let x: i128 = unitpoint.0.x as i128 + self.camera.0.x as i128;
        let y: i128 = unitpoint.0.y as i128 + self.camera.0.y as i128;
        proof {
            lemma_product_bound(x as int, m as int, 0x1_0000_0000, 0xffff_fffe_0000_0001);
            lemma_product_bound(y as int, m as int, 0x1_0000_0000, 0xffff_fffe_0000_0001);
        }
        match (exact_div(x * m, d), exact_div(y * m, d)) {
            (Some(a), Some(b)) => match lattice_point(
                a + (self.view_width / 2) as i128,
                -b + (self.view_height / 2) as i128,
            ) {
                Some(p) => Some(ViewPoint(p)),
                None => None,
            },
            _ => None,
        }
    }

    /// The unit point of which a view point is the view point, or `None`
    /// where there is none. From the unit point the way back leads to the
    /// view point.
    pub fn view_to_unit_point(&self, viewpoint: ViewPoint) -> (r: Option<UnitPoint>)
        ensures
            r == match self.to_unit(viewpoint.0) {
                Some(p) => Some(UnitPoint(p)),
                None => None,
            },
            r matches Some(u) ==> self.to_view(u.0) == Some(viewpoint.0),
    {
        proof {
            if self.to_unit(viewpoint.0) is Some {
                lemma_view_unit_round_trip(*self, viewpoint.0);
            }
        }
        let (m, d) = match self.parts() {
            Some(parts) => parts,
            None => {
                return None;
            },
        };
        let x: i128 = viewpoint.0.x as i128 - (self.view_width / 2) as i128;
        let y: i128 = (self.view_height / 2) as i128 - viewpoint.0.y as i128;
        proof {
            lemma_product_bound(x as int, d as int, 0x1_0000_0000, 0xffff_fffe_0000_0001);
            lemma_product_bound(y as int, d as int, 0x1_0000_0000, 0xffff_fffe_0000_0001);
        }
        match (exact_div(x * d, m), exact_div(y * d, m)) {
            (Some(a), Some(b)) => match lattice_point(
                a - self.camera.0.x as i128,
                b - self.camera.0.y as i128,
            ) {
                Some(p) => Some(UnitPoint(p)),
                None => None,
            },
            _ => None,
        }
    }

    /// The view point on or next below the magnified unit point, or `None`
    /// where the transformation is not well formed or the point lies off the
    /// lattice. Where the unit point has a view point, this is it.
    pub fn nearest_view_point(&self, unitpoint: UnitPoint) -> (r: Option<ViewPoint>)
        ensures
            r == match self.to_view_rounded(unitpoint.0) {
                Some(p) => Some(ViewPoint(p)),
                None => None,
            },
            self.to_view(unitpoint.0) matches Some(p) ==> r == Some(ViewPoint(p)),
    {
        let (m, d) = match self.parts() {
            Some(parts) => parts,
            None => {
                return None;
            },
        };
        let x: i128 = unitpoint.0.x as i128 + self.camera.0.x as i128;
        let y: i128 = unitpoint.0.y as i128 + self.camera.0.y as i128;
        proof {
            lemma_product_bound(x as int, m as int, 0x1_0000_0000, 0xffff_fffe_0000_0001);
            lemma_product_bound(y as int, m as int, 0x1_0000_0000, 0xffff_fffe_0000_0001);
            lemma_floor_div_between(
                x * m,
                d as int,
                -0x1_0000_0000_0000_0000_0000_0000,
                0x1_0000_0000_0000_0000_0000_0000,
            );
            lemma_floor_div_between(
                y * m,
                d as int,
                -0x1_0000_0000_0000_0000_0000_0000,
                0x1_0000_0000_0000_0000_0000_0000,
            );
        }
        match lattice_point(
            floor_div(x * m, d) + (self.view_width / 2) as i128,
            -floor_div(y * m, d) + (self.view_height / 2) as i128,
        ) {
            Some(p) => Some(ViewPoint(p)),
            None => None,
        }
    }

    /// The unit point in whose cell a view point falls, or `None` where the
    /// transformation is not well formed or the point lies off the lattice.
    /// The view point lies at or past the place of that unit point and before
    /// the place of the next, along both axes of the unit space. Where the
    /// view point is the view point of a unit point, this is it.
    pub fn nearest_unit_point(&self, viewpoint: ViewPoint) -> (r: Option<UnitPoint>)
        ensures
            r == match self.to_unit_rounded(viewpoint.0) {
                Some(p) => Some(UnitPoint(p)),
                None => None,
            },
            self.to_unit(viewpoint.0) matches Some(p) ==> r == Some(UnitPoint(p)),
            r matches Some(u) ==> {
                &&& (u.0.x + self.camera.0.x) * self.grows() <= (viewpoint.0.x - self.view_width
                    / 2) * self.shrinks() < (u.0.x + self.camera.0.x + 1) * self.grows()
                &&& (u.0.y + self.camera.0.y) * self.grows() <= (self.view_height / 2
                    - viewpoint.0.y) * self.shrinks() < (u.0.y + self.camera.0.y + 1)
                    * self.grows()
            },
    {
        let (m, d) = match self.parts() {
            Some(parts) => parts,
            None => {
                return None;
            },
        };
        let x: i128 = viewpoint.0.x as i128 - (self.view_width / 2) as i128;
        let y: i128 = (self.view_height / 2) as i128 - viewpoint.0.y as i128;
        proof {
            lemma_product_bound(x as int, d as int, 0x1_0000_0000, 0xffff_fffe_0000_0001);
            lemma_product_bound(y as int, d as int, 0x1_0000_0000, 0xffff_fffe_0000_0001);
            lemma_floor_div_between(
                x * d,
                m as int,
                -0x1_0000_0000_0000_0000_0000_0000,
                0x1_0000_0000_0000_0000_0000_0000,
            );
            lemma_floor_div_between(
                y * d,
                m as int,
                -0x1_0000_0000_0000_0000_0000_0000,
                0x1_0000_0000_0000_0000_0000_0000,
            );
            lemma_floor_div_bounds(x * d, m as int);
            lemma_floor_div_bounds(y * d, m as int);
            let qx = (x * d) / (m as int);
            let qy = (y * d) / (m as int);
            assert((qx + 1) * m == qx * m + m) by (nonlinear_arith);
            assert((qy + 1) * m == qy * m + m) by (nonlinear_arith);
        }
        match lattice_point(
            floor_div(x * d, m) - self.camera.0.x as i128,
            floor_div(y * d, m) - self.camera.0.y as i128,
        ) {
            Some(p) => Some(UnitPoint(p)),
            None => None,
        }
    }

    /// The affine map from the unit space to the view, or `None` where the
    /// magnification is no whole number or the entries do not fit.
    pub fn matrix(&self) -> (r: Option<Matrix>)
        ensures
            r == self.to_matrix(),
    {
        let (m, d) = match self.parts() {
            Some(parts) => parts,
            None => {
                return None;
            },
        };
        let k: i128 = match exact_div(m, d) {
            Some(k) => k,
            None => {
                return None;
            },
        };
        proof {
            lemma_floor_div_between(m as int, d as int, 0, 0xffff_fffe_0000_0001);
            lemma_product_bound(
                self.camera.0.x as int,
                k as int,
                0x8000_0000,
                0xffff_fffe_0000_0001,
            );
            lemma_product_bound(
                self.camera.0.y as int,
                k as int,
                0x8000_0000,
                0xffff_fffe_0000_0001,
            );
        }
        match lattice_point(k, -k) {
            Some(e) => match lattice_point(
                (self.camera.0.x as i128) * k + (self.view_width / 2) as i128,
                -((self.camera.0.y as i128) * k) + (self.view_height / 2) as i128,
            ) {
                Some(o) => Some(Matrix { xx: e.x, yx: 0, xy: 0, yy: e.y, x0: o.x, y0: o.y }),
                None => None,
            },
            None => None,
        }
    }

    /// Moves the camera as far as the view was dragged: by `delta` brought
    /// down to the unit space and rounded down, the second axis turned over.
    /// Tells whether the camera was moved; it stays where it is where the
    /// transformation is not well formed or the camera would leave the
    /// lattice.
    pub fn move_camera_by_delta(&mut self, delta: ViewPoint) -> (r: bool)
        ensures
            r == old(self).dragged(delta.0).is_some(),
            r ==> *final(self) == (Transformation {
                camera: UnitPoint(old(self).dragged(delta.0).unwrap()),
                ..*old(self)
            }),
            !r ==> *final(self) == *old(self),
    {
        let (m, d) = match self.parts() {
            Some(parts) => parts,
            None => {
                return false;
            },
        };
        let x: i128 = delta.0.x as i128;
        let y: i128 = -(delta.0.y as i128);
        proof {
            lemma_product_bound(x as int, d as int, 0x1_0000_0000, 0xffff_fffe_0000_0001);
            lemma_product_bound(y as int, d as int, 0x1_0000_0000, 0xffff_fffe_0000_0001);
            lemma_floor_div_between(
                x * d,
                m as int,
                -0x1_0000_0000_0000_0000_0000_0000,
                0x1_0000_0000_0000_0000_0000_0000,
            );
            lemma_floor_div_between(
                y * d,
                m as int,
                -0x1_0000_0000_0000_0000_0000_0000,
                0x1_0000_0000_0000_0000_0000_0000,
            );
        }
        match lattice_point(
            self.camera.0.x as i128 + floor_div(x * d, m),
            self.camera.0.y as i128 + floor_div(y * d, m),
        ) {
            Some(p) => {
                self.camera = UnitPoint(p);
                true
            },
            None => false,
        }
    }
}

/// The quotient of `n` by `d`, or `None` where `d` does not divide `n`.
fn exact_div(n: i128, d: i128) -> (r: Option<i128>)
    requires
        0 < d <= 0x1_0000_0000_0000_0000,
        -0x1_0000_0000_0000_0000_0000_0000 <= n <= 0x1_0000_0000_0000_0000_0000_0000,
    ensures
        r is Some <==> exact_quotient(n as int, d as int) is Some,
        r matches Some(q) ==> exact_quotient(n as int, d as int) == Some(q as int),
        r matches Some(q) ==> -0x1_0000_0000_0000_0000_0000_0000 <= q
            <= 0x1_0000_0000_0000_0000_0000_0000,
{
    let q: i128 = floor_div(n, d);
    proof {
        lemma_floor_div_between(
            n as int,
            d as int,
            -0x1_0000_0000_0000_0000_0000_0000,
            0x1_0000_0000_0000_0000_0000_0000,
        );
        lemma_product_bound(
            q as int,
            d as int,
            0x1_0000_0000_0000_0000_0000_0000,
            0x1_0000_0000_0000_0000,
        );
        lemma_fundamental_div_mod(n as int, d as int);
        lemma_floor_div_bounds(n as int, d as int);
        assert(d * (n / d) == (n / d) * d) by (nonlinear_arith);
    }
    if q * d == n {
        Some(q)
    } else {
        None
    }
}

/// A number that was multiplied by `m` and divided by `d` without remainder
/// is had back by multiplying by `d` and dividing by `m`, without remainder.
pub proof fn lemma_quotient_round_trip(a: int, m: int, d: int)
    requires
        0 < m,
        0 < d,
        exact_quotient(a * m, d) is Some,
    ensures
        exact_quotient(exact_quotient(a * m, d).unwrap() * d, m) == Some(a),
{
    let b = (a * m) / d;
    lemma_fundamental_div_mod(a * m, d);
    assert(b * d == a * m) by (nonlinear_arith)
        requires
            a * m == d * b + 0,
    ;
    lemma_mod_multiples_basic(a, m);
    lemma_floor_div_unique(a * m, m, a);
}

/// From a unit point to the view and back is the way to where one started.
pub proof fn lemma_unit_view_round_trip(t: Transformation, p: Point)
    requires
        t.to_view(p) is Some,
    ensures
        t.to_unit(t.to_view(p).unwrap()) == Some(p),
{
    let m = t.grows();
    let d = t.shrinks();
    lemma_parts_positive(t);
    lemma_quotient_round_trip(p.x + t.camera.0.x, m, d);
    lemma_quotient_round_trip(p.y + t.camera.0.y, m, d);
}

/// From a view point to the unit space and back is the way to where one
/// started.
pub proof fn lemma_view_unit_round_trip(t: Transformation, p: Point)
    requires
        t.to_unit(p) is Some,
    ensures
        t.to_view(t.to_unit(p).unwrap()) == Some(p),
{
    let m = t.grows();
    let d = t.shrinks();
    lemma_parts_positive(t);
    lemma_quotient_round_trip(p.x - t.view_width / 2, d, m);
    lemma_quotient_round_trip(t.view_height / 2 - p.y, d, m);
}

/// The parts of the magnification of a well-formed transformation are not
/// zero.
proof fn lemma_parts_positive(t: Transformation)
    requires
        t.wf(),
    ensures
        0 < t.grows(),
        0 < t.shrinks(),
{
    assert(0 < t.scale.num * t.pixels_per_unit.num) by (nonlinear_arith)
        requires
            0 < t.scale.num,
            0 < t.pixels_per_unit.num,
    ;
    assert(0 < t.scale.den * t.pixels_per_unit.den) by (nonlinear_arith)
        requires
            0 < t.scale.den,
            0 < t.pixels_per_unit.den,
    ;
}

/// The matrix of a transformation sends every unit point to its view point.
pub proof fn lemma_matrix_is_to_view(t: Transformation, p: Point)
    requires
        t.to_matrix() is Some,
    ensures
        t.to_matrix().unwrap().apply(p) == t.to_view(p),
{
    let m = t.grows();
    let d = t.shrinks();
    let k = m / d;
    lemma_parts_positive(t);
    lemma_fundamental_div_mod(m, d);
    let mat = t.to_matrix().unwrap();
    let a = p.x + t.camera.0.x;
    let b = p.y + t.camera.0.y;
    assert(a * m == (a * k) * d) by (nonlinear_arith)
        requires
            m == d * k,
    ;
    assert(b * m == (b * k) * d) by (nonlinear_arith)
        requires
            m == d * k,
    ;
    lemma_mod_multiples_basic(a * k, d);
    lemma_mod_multiples_basic(b * k, d);
    lemma_floor_div_unique(a * m, d, a * k);
    lemma_floor_div_unique(b * m, d, b * k);
    assert(mat.image_x(p) == a * k + t.view_width / 2) by (nonlinear_arith)
        requires
            mat.image_x(p) == k * p.x + 0 * p.y + (t.camera.0.x * k + t.view_width / 2),
            a == p.x + t.camera.0.x,
    ;
    assert(mat.image_y(p) == -(b * k) + t.view_height / 2) by (nonlinear_arith)
        requires
            mat.image_y(p) == 0 * p.x + (-k) * p.y + (-(t.camera.0.y * k) + t.view_height / 2),
            b == p.y + t.camera.0.y,
    ;
}

impl Canvas {
    /// A canvas with the given transformation and the pointer on the origin.
    pub fn new(transformation: Transformation) -> (r: Canvas)
        ensures
            r == (Canvas { transformation, mouse: ViewPoint(Point { x: 0, y: 0 }) }),
    {
        Canvas { transformation, mouse: ViewPoint(Point { x: 0, y: 0 }) }
    }

    /// The unit point of which a view point is the view point; see
    /// `Transformation::view_to_unit_point`.
    pub fn view_to_unit_point(&self, viewpoint: ViewPoint) -> (r: Option<UnitPoint>)
        ensures
            r == match self.transformation.to_unit(viewpoint.0) {
                Some(p) => Some(UnitPoint(p)),
                None => None,
            },
            r matches Some(u) ==> self.transformation.to_view(u.0) == Some(viewpoint.0),
    {
        self.transformation.view_to_unit_point(viewpoint)
    }

    /// The view point of a unit point; see
    /// `Transformation::unit_to_view_point`.
    pub fn unit_to_view_point(&self, unitpoint: UnitPoint) -> (r: Option<ViewPoint>)
        ensures
            r == match self.transformation.to_view(unitpoint.0) {
                Some(p) => Some(ViewPoint(p)),
                None => None,
            },
            r matches Some(v) ==> self.transformation.to_unit(v.0) == Some(unitpoint.0),
    {
        self.transformation.unit_to_view_point(unitpoint)
    }

    /// Notes where the pointer was seen.
    pub fn set_mouse(&mut self, new_value: ViewPoint)
        ensures
            *final(self) == (Canvas { mouse: new_value, ..*old(self) }),
    {
        self.mouse = new_value;
    }

    /// Where the pointer was seen last.
    pub fn get_mouse(&self) -> (r: ViewPoint)
        ensures
            r == self.mouse,
    {
        self.mouse
    }
}

} // verus!
