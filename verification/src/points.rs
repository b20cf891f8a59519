//! Points of the integer lattice, and the vector arithmetic on them.
//!
//! Every coordinate of the engine is an `i32` lattice coordinate; how many
//! lattice steps make one drawing unit is the caller's choice. Arithmetic is
//! exact: an operation whose result would leave the lattice returns `None`
//! instead of wrapping or rounding.

use vstd::prelude::*;

verus! {

/// A point (or vector) of the lattice.
#[derive(Clone, Copy, Debug, PartialEq, Eq, Structural, Hash)]
pub struct Point {
    pub x: i32,
    pub y: i32,
}

/// A control point of a curve: a position together with the identifier that
/// names the point across edits. Moving the point never changes the identifier.
#[derive(Clone, Copy, Debug, PartialEq, Eq, Structural, Hash)]
pub struct CurvePoint {
    pub position: Point,
    pub uuid: u128,
}

/// Whether `v` is a coordinate of the lattice.
pub open spec fn fits(v: int) -> bool {
    -0x8000_0000 <= v <= 0x7fff_ffff
}

/// The lattice point with the coordinates `(x, y)`, where there is one.
pub open spec fn lattice(x: int, y: int) -> Option<Point> {
    if fits(x) && fits(y) {
        Some(Point { x: x as i32, y: y as i32 })
    } else {
        None
    }
}

/// Twice the signed area of the triangle `a`, `b`, `c`: the cross product of
/// `b - a` and `c - a`.
pub open spec fn cross(a: Point, b: Point, c: Point) -> int {
    (b.x - a.x) * (c.y - a.y) - (b.y - a.y) * (c.x - a.x)
}

/// The dot product of `b - a` and `c - a`.
pub open spec fn dot(a: Point, b: Point, c: Point) -> int {
    (b.x - a.x) * (c.x - a.x) + (b.y - a.y) * (c.y - a.y)
}

/// The squared Euclidean distance between `a` and `b`.
pub open spec fn dist2(a: Point, b: Point) -> int {
    (b.x - a.x) * (b.x - a.x) + (b.y - a.y) * (b.y - a.y)
}

/// The absolute value of `v`.
pub open spec fn abs(v: int) -> int {
    if v < 0 {
        -v
    } else {
        v
    }
}

/// The taxicab distance between `a` and `b`. Along one line, taxicab lengths
/// stand in the same ratio as Euclidean ones.
pub open spec fn taxicab(a: Point, b: Point) -> int {
    abs(b.x - a.x) + abs(b.y - a.y)
}

/// Whether `r` is the integer square root of `n`.
pub open spec fn is_floor_sqrt(r: int, n: int) -> bool {
    0 <= r && r * r <= n < (r + 1) * (r + 1)
}

/// Whether `v` carries the version and variant marks of a random identifier:
/// version nibble 4, variant bits `10`.
pub open spec fn is_random_uuid(v: u128) -> bool {
    v & 0x0000_0000_0000_f000_c000_0000_0000_0000 == 0x0000_0000_0000_4000_8000_0000_0000_0000
}

/// The bound of a product from the bounds of its factors.
pub proof fn lemma_product_bound(a: int, b: int, m: int, n: int)
    by (nonlinear_arith)
    requires
        -m <= a <= m,
        -n <= b <= n,
    ensures
        -(m * n) <= a * b <= m * n,
{
}

/// A square is never negative.
pub proof fn lemma_square_nonnegative(a: int)
    by (nonlinear_arith)
    ensures
        0 <= a * a,
{
}

/// Squaring keeps the order of non-negative numbers.
pub proof fn lemma_square_monotonic(a: int, b: int)
    by (nonlinear_arith)
    requires
        0 <= a <= b,
    ensures
        a * a <= b * b,
{
}

/// Draws a fresh identifier with `uuid::Uuid::new_v4` and returns it packed
/// into a `u128` by `Uuid::as_u128`. The value is random; all that is claimed
/// is that the version and variant marks which `new_v4` sets are present.
#[verifier::external_body]
fn new_v4_u128() -> (r: u128)
    ensures
        is_random_uuid(r),
{
    uuid::Uuid::new_v4().as_u128()
}

/// The lattice point with the coordinates `(x, y)`, or `None` where a
/// coordinate does not fit.
pub fn lattice_point(x: i128, y: i128) -> (r: Option<Point>)
    ensures
        r == lattice(x as int, y as int),
{
    if x < -0x8000_0000 || x > 0x7fff_ffff || y < -0x8000_0000 || y > 0x7fff_ffff {
        None
    } else {
        Some(Point { x: x as i32, y: y as i32 })
    }
}

/// The integer square root: the largest `r` with `r * r <= n`.
pub fn integer_sqrt(n: u128) -> (r: u64)
    ensures
        is_floor_sqrt(r as int, n as int),
{
    let mut lo: u128 = 0;
    let mut hi: u128 = 0x1_0000_0000_0000_0000;
    assert(n < 0x1_0000_0000_0000_0000 * 0x1_0000_0000_0000_0000);
    while hi - lo > 1
        invariant
            lo < hi <= 0x1_0000_0000_0000_0000,
            lo * lo <= n < hi * hi,
        decreases hi - lo,
    {
        let mid: u128 = lo + (hi - lo) / 2;
        proof {
            lemma_square_monotonic(mid as int, 0xffff_ffff_ffff_ffff);
        }
        if mid * mid <= n {
            lo = mid;
        } else {
            hi = mid;
        }
    }
    lo as u64
}

/// The Euclidean distance between two points, rounded down to the lattice.
pub fn distance_between_two_points(p_k: Point, p_l: Point) -> (r: u64)
    ensures
        is_floor_sqrt(r as int, dist2(p_k, p_l)),
{
    let d: u128 = p_k.distance_squared(p_l);
    integer_sqrt(d)
}

impl Point {
    /// The origin.
    pub fn zero() -> (r: Point)
        ensures
            r == (Point { x: 0, y: 0 }),
    {
        Point { x: 0, y: 0 }
    }

    /// The sum of two vectors.
    pub fn checked_add(self, other: Point) -> (r: Option<Point>)
        ensures
            r == lattice(self.x + other.x, self.y + other.y),
    {
        lattice_point(self.x as i128 + other.x as i128, self.y as i128 + other.y as i128)
    }

    /// The difference `self - other`.
    pub fn checked_sub(self, other: Point) -> (r: Option<Point>)
        ensures
            r == lattice(self.x - other.x, self.y - other.y),
    {
        lattice_point(self.x as i128 - other.x as i128, self.y as i128 - other.y as i128)
    }

    /// The vector scaled by the integer `factor`.
    pub fn checked_scale(self, factor: i32) -> (r: Option<Point>)
        ensures
            r == lattice(self.x * factor, self.y * factor),
    {
        proof {
            lemma_product_bound(self.x as int, factor as int, 0x8000_0000, 0x8000_0000);
            lemma_product_bound(self.y as int, factor as int, 0x8000_0000, 0x8000_0000);
        }
        lattice_point(
            (self.x as i128) * (factor as i128),
            (self.y as i128) * (factor as i128),
        )
    }

    /// The mirror image of `self` about `center`: the point `q` with
    /// `q - center == center - self`.
    pub fn mirror(self, center: Point) -> (r: Option<Point>)
        ensures
            r == lattice(2 * center.x - self.x, 2 * center.y - self.y),
    {
        lattice_point(
            2 * (center.x as i128) - self.x as i128,
            2 * (center.y as i128) - self.y as i128,
        )
    }

    /// The cross product of `b - self` and `c - self`.
    pub fn cross_product(self, b: Point, c: Point) -> (r: i128)
        ensures
            r == cross(self, b, c),
            -0x2_0000_0000_0000_0000 <= r <= 0x2_0000_0000_0000_0000,
    {
        let bx: i128 = b.x as i128 - self.x as i128;
        let by: i128 = b.y as i128 - self.y as i128;
        let cx: i128 = c.x as i128 - self.x as i128;
        let cy: i128 = c.y as i128 - self.y as i128;
        proof {
            lemma_product_bound(bx as int, cy as int, 0x1_0000_0000, 0x1_0000_0000);
            lemma_product_bound(by as int, cx as int, 0x1_0000_0000, 0x1_0000_0000);
        }
        bx * cy - by * cx
    }

    /// The dot product of `b - self` and `c - self`.
    pub fn dot_product(self, b: Point, c: Point) -> (r: i128)
        ensures
            r == dot(self, b, c),
            -0x2_0000_0000_0000_0000 <= r <= 0x2_0000_0000_0000_0000,
    {
        let bx: i128 = b.x as i128 - self.x as i128;
        let by: i128 = b.y as i128 - self.y as i128;
        let cx: i128 = c.x as i128 - self.x as i128;
        let cy: i128 = c.y as i128 - self.y as i128;
        proof {
            lemma_product_bound(bx as int, cx as int, 0x1_0000_0000, 0x1_0000_0000);
            lemma_product_bound(by as int, cy as int, 0x1_0000_0000, 0x1_0000_0000);
        }
        bx * cx + by * cy
    }

    /// Whether `self`, `b` and `c` lie on one line.
    pub fn collinear(self, b: Point, c: Point) -> (r: bool)
        ensures
            r == (cross(self, b, c) == 0),
    {
        self.cross_product(b, c) == 0
    }

    /// The squared length of the vector.
    pub fn norm_squared(self) -> (r: u64)
        ensures
            r == self.x * self.x + self.y * self.y,
    {
        let x: i128 = self.x as i128;
        let y: i128 = self.y as i128;
        proof {
            lemma_product_bound(x as int, x as int, 0x8000_0000, 0x8000_0000);
            lemma_product_bound(y as int, y as int, 0x8000_0000, 0x8000_0000);
            lemma_square_nonnegative(x as int);
            lemma_square_nonnegative(y as int);
        }
        (x * x + y * y) as u64
    }

    /// The squared Euclidean distance to `other`.
    pub fn distance_squared(self, other: Point) -> (r: u128)
        ensures
            r == dist2(self, other),
            r <= 0x2_0000_0000_0000_0000,
    {
        let dx: i128 = other.x as i128 - self.x as i128;
        let dy: i128 = other.y as i128 - self.y as i128;
        proof {
            lemma_product_bound(dx as int, dx as int, 0x1_0000_0000, 0x1_0000_0000);
            lemma_product_bound(dy as int, dy as int, 0x1_0000_0000, 0x1_0000_0000);
            lemma_square_nonnegative(dx as int);
            lemma_square_nonnegative(dy as int);
        }
        (dx * dx + dy * dy) as u128
    }

    /// The taxicab distance to `other`.
    pub fn taxicab_distance(self, other: Point) -> (r: u64)
        ensures
            r == taxicab(self, other),
            r <= 0x1_ffff_fffe,
    {
        let dx: i64 = other.x as i64 - self.x as i64;
        let dy: i64 = other.y as i64 - self.y as i64;
        let ax: i64 = if dx < 0 { -dx } else { dx };
        let ay: i64 = if dy < 0 { -dy } else { dy };
        (ax + ay) as u64
    }
}

impl CurvePoint {
    /// A control point at `position` under a fresh random identifier.
    pub fn new(position: Point) -> (r: CurvePoint)
        ensures
            r.position == position,
            is_random_uuid(r.uuid),
    {
        CurvePoint { position, uuid: new_v4_u128() }
    }

    /// A control point at `position` under the identifier `uuid`.
    pub fn with_uuid(position: Point, uuid: u128) -> (r: CurvePoint)
        ensures
            r == (CurvePoint { position, uuid }),
    {
        CurvePoint { position, uuid }
    }

    /// The same control point at another position.
    pub fn moved_to(self, position: Point) -> (r: CurvePoint)
        ensures
            r == (CurvePoint { position, uuid: self.uuid }),
    {
        CurvePoint { position, uuid: self.uuid }
    }
}

} // verus!
