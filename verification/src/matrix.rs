//! Affine maps of the lattice with whole-number entries.

use vstd::prelude::*;
use crate::points::Point;
use crate::points::lattice;
use crate::points::lattice_point;
use crate::points::lemma_product_bound;

verus! {

/// The affine map that sends `(x, y)` to
/// `(xx * x + xy * y + x0, yx * x + yy * y + y0)`.
#[derive(Clone, Copy, Debug, PartialEq, Eq, Structural, Hash)]
pub struct Matrix {
    pub xx: i32,
    pub yx: i32,
    pub xy: i32,
    pub yy: i32,
    pub x0: i32,
    pub y0: i32,
}

impl Matrix {
    /// The first coordinate of the image of `p`.
    pub open spec fn image_x(self, p: Point) -> int {
        self.xx * p.x + self.xy * p.y + self.x0
    }

    /// The second coordinate of the image of `p`.
    pub open spec fn image_y(self, p: Point) -> int {
        self.yx * p.x + self.yy * p.y + self.y0
    }

    /// The image of `p`, where it is a lattice point.
    pub open spec fn apply(self, p: Point) -> Option<Point> {
        lattice(self.image_x(p), self.image_y(p))
    }

    /// The entries of the map "first `self`, then `other`", where they fit.
    pub open spec fn compose(self, other: Matrix) -> Option<Matrix> {
        let xx = self.xx * other.xx + self.yx * other.xy;
        let yx = self.xx * other.yx + self.yx * other.yy;
        let xy = self.xy * other.xx + self.yy * other.xy;
        let yy = self.xy * other.yx + self.yy * other.yy;
        let x0 = self.x0 * other.xx + self.y0 * other.xy + other.x0;
        let y0 = self.x0 * other.yx + self.y0 * other.yy + other.y0;
        match (lattice(xx, yx), lattice(xy, yy), lattice(x0, y0)) {
            (Some(a), Some(b), Some(c)) => Some(
                Matrix { xx: a.x, yx: a.y, xy: b.x, yy: b.y, x0: c.x, y0: c.y },
            ),
            _ => None,
        }
    }

    /// The map with the given entries.
    pub fn new(xx: i32, yx: i32, xy: i32, yy: i32, x0: i32, y0: i32) -> (m: Matrix)
        ensures
            m == (Matrix { xx, yx, xy, yy, x0, y0 }),
    {
        Matrix { xx, yx, xy, yy, x0, y0 }
    }

    /// The map that leaves every point where it is.
    pub fn identity() -> (m: Matrix)
        ensures
            m == (Matrix { xx: 1, yx: 0, xy: 0, yy: 1, x0: 0, y0: 0 }),
            forall|p: Point| m.apply(p) == Some(p),
    {
        Matrix { xx: 1, yx: 0, xy: 0, yy: 1, x0: 0, y0: 0 }
    }

    /// The map that moves every point by `(dx, dy)`.
    pub fn translation(dx: i32, dy: i32) -> (m: Matrix)
        ensures
            m == (Matrix { xx: 1, yx: 0, xy: 0, yy: 1, x0: dx, y0: dy }),
            forall|p: Point| #[trigger] m.apply(p) == lattice(p.x + dx, p.y + dy),
    {
        Matrix { xx: 1, yx: 0, xy: 0, yy: 1, x0: dx, y0: dy }
    }

    /// The rotation about the origin by `turns` quarter turns, from the first
    /// axis towards the second.
    pub fn quarter_turns(turns: u8) -> (m: Matrix)
        ensures
            m.x0 == 0 && m.y0 == 0,
            turns % 4 == 0 ==> m.xx == 1 && m.yx == 0 && m.xy == 0 && m.yy == 1,
            turns % 4 == 1 ==> m.xx == 0 && m.yx == 1 && m.xy == -1 && m.yy == 0,
            turns % 4 == 2 ==> m.xx == -1 && m.yx == 0 && m.xy == 0 && m.yy == -1,
            turns % 4 == 3 ==> m.xx == 0 && m.yx == -1 && m.xy == 1 && m.yy == 0,
    {
        let k: u8 = turns % 4;
        if k == 0 {
            Matrix { xx: 1, yx: 0, xy: 0, yy: 1, x0: 0, y0: 0 }
        } else if k == 1 {
            Matrix { xx: 0, yx: 1, xy: -1, yy: 0, x0: 0, y0: 0 }
        } else if k == 2 {
            Matrix { xx: -1, yx: 0, xy: 0, yy: -1, x0: 0, y0: 0 }
        } else {
            Matrix { xx: 0, yx: -1, xy: 1, yy: 0, x0: 0, y0: 0 }
        }
    }

    /// The image of `p`, or `None` where it falls off the lattice.
    pub fn transform_point(&self, p: Point) -> (r: Option<Point>)
        ensures
            r == self.apply(p),
    {
        proof {
            lemma_product_bound(self.xx as int, p.x as int, 0x8000_0000, 0x8000_0000);
            lemma_product_bound(self.xy as int, p.y as int, 0x8000_0000, 0x8000_0000);
            lemma_product_bound(self.yx as int, p.x as int, 0x8000_0000, 0x8000_0000);
            lemma_product_bound(self.yy as int, p.y as int, 0x8000_0000, 0x8000_0000);
        }
        let x: i128 = (self.xx as i128) * (p.x as i128) + (self.xy as i128) * (p.y as i128)
            + self.x0 as i128;
        let y: i128 = (self.yx as i128) * (p.x as i128) + (self.yy as i128) * (p.y as i128)
            + self.y0 as i128;
        lattice_point(x, y)
    }

    /// The map "first `self`, then `other`", or `None` where an entry does
    /// not fit.
    pub fn multiply(&self, other: &Matrix) -> (r: Option<Matrix>)
        ensures
            r == self.compose(*other),
    {
        proof {
            lemma_product_bound(self.xx as int, other.xx as int, 0x8000_0000, 0x8000_0000);
            lemma_product_bound(self.yx as int, other.xy as int, 0x8000_0000, 0x8000_0000);
            lemma_product_bound(self.xx as int, other.yx as int, 0x8000_0000, 0x8000_0000);
            lemma_product_bound(self.yx as int, other.yy as int, 0x8000_0000, 0x8000_0000);
            lemma_product_bound(self.xy as int, other.xx as int, 0x8000_0000, 0x8000_0000);
            lemma_product_bound(self.yy as int, other.xy as int, 0x8000_0000, 0x8000_0000);
            lemma_product_bound(self.xy as int, other.yx as int, 0x8000_0000, 0x8000_0000);
            lemma_product_bound(self.yy as int, other.yy as int, 0x8000_0000, 0x8000_0000);
            lemma_product_bound(self.x0 as int, other.xx as int, 0x8000_0000, 0x8000_0000);
            lemma_product_bound(self.y0 as int, other.xy as int, 0x8000_0000, 0x8000_0000);
            lemma_product_bound(self.x0 as int, other.yx as int, 0x8000_0000, 0x8000_0000);
            lemma_product_bound(self.y0 as int, other.yy as int, 0x8000_0000, 0x8000_0000);
        }
        let a: i128 = self.xx as i128;
        let b: i128 = self.yx as i128;
        let c: i128 = self.xy as i128;
        let d: i128 = self.yy as i128;
        let e: i128 = self.x0 as i128;
        let f: i128 = self.y0 as i128;
        let oa: i128 = other.xx as i128;
        let ob: i128 = other.yx as i128;
        let oc: i128 = other.xy as i128;
        let od: i128 = other.yy as i128;
        let first = lattice_point(a * oa + b * oc, a * ob + b * od);
        let second = lattice_point(c * oa + d * oc, c * ob + d * od);
        let third = lattice_point(
            e * oa + f * oc + other.x0 as i128,
            e * ob + f * od + other.y0 as i128,
        );
        match (first, second, third) {
            (Some(p), Some(q), Some(s)) => Some(
                Matrix { xx: p.x, yx: p.y, xy: q.x, yy: q.y, x0: s.x, y0: s.y },
            ),
            _ => None,
        }
    }
}

/// `k * (x * p + y * q + z)` multiplied out.
proof fn lemma_scale_affine(k: int, x: int, p: int, y: int, q: int, z: int)
    by (nonlinear_arith)
    ensures
        k * (x * p + y * q + z) == (x * k) * p + (y * k) * q + z * k,
{
}

/// `(u + v) * p` multiplied out.
proof fn lemma_split_sum(u: int, v: int, p: int)
    by (nonlinear_arith)
    ensures
        (u + v) * p == u * p + v * p,
{
}

/// One coordinate of a composed map: with the entries `(ax, ay, a0)` and
/// `(bx, by, b0)` of the first map and the entries `(k, l, c)` of one row of
/// the second.
proof fn lemma_compose_row(
    ax: int,
    ay: int,
    a0: int,
    bx: int,
    by: int,
    b0: int,
    k: int,
    l: int,
    c: int,
    px: int,
    py: int,
)
    ensures
        (ax * k + bx * l) * px + (ay * k + by * l) * py + (a0 * k + b0 * l + c) == k * (ax * px
            + ay * py + a0) + l * (bx * px + by * py + b0) + c,
{
    lemma_scale_affine(k, ax, px, ay, py, a0);
    lemma_scale_affine(l, bx, px, by, py, b0);
    lemma_split_sum(ax * k, bx * l, px);
    lemma_split_sum(ay * k, by * l, py);
}

/// The product of two maps acts as the first map followed by the second.
pub proof fn lemma_compose_applies_in_turn(a: Matrix, b: Matrix, p: Point)
    requires
        a.compose(b) is Some,
        a.apply(p) is Some,
    ensures
        a.compose(b).unwrap().image_x(p) == b.image_x(a.apply(p).unwrap()),
        a.compose(b).unwrap().image_y(p) == b.image_y(a.apply(p).unwrap()),
        a.compose(b).unwrap().apply(p) == b.apply(a.apply(p).unwrap()),
{
    lemma_compose_row(
        a.xx as int,
        a.xy as int,
        a.x0 as int,
        a.yx as int,
        a.yy as int,
        a.y0 as int,
        b.xx as int,
        b.xy as int,
        b.x0 as int,
        p.x as int,
        p.y as int,
    );
    lemma_compose_row(
        a.xx as int,
        a.xy as int,
        a.x0 as int,
        a.yx as int,
        a.yy as int,
        a.y0 as int,
        b.yx as int,
        b.yy as int,
        b.y0 as int,
        p.x as int,
        p.y as int,
    );
}

} // verus!
