//! How smoothly two segments meet at a join.

use vstd::prelude::*;
use crate::points::abs;
use crate::points::cross;
use crate::points::lemma_product_bound;
use crate::points::taxicab;
use crate::points::Point;

verus! {

/// How far the ratio of the handle lengths may lie from one, in thousandths,
/// for the handles still to count as mirror images.
pub const VELOCITY_TOLERANCE_PER_MILLE: u64 = 5;

/// The ratio `num / den` of two lengths.
#[derive(Clone, Copy, Debug, PartialEq, Eq, Structural, Hash)]
pub struct Ratio {
    pub num: u64,
    pub den: u64,
}

/// The continuity of a contour at a join.
#[derive(Clone, Copy, Debug, PartialEq, Eq, Structural, Hash)]
pub enum Continuity {
    /// The segments meet, and nothing more is asked.
    Positional,
    /// The handles on the two sides of the join are mirror images of each
    /// other about the join.
    Velocity,
    /// The handles and the join lie on one line, and the handle after the
    /// join is `beta` times as long as the handle before it.
    Tangent { beta: Ratio },
}

impl Ratio {
    /// Whether the ratio is one of two lengths that are not zero.
    pub open spec fn wf(self) -> bool {
        self.num > 0 && self.den > 0
    }

    /// Whether the ratio lies within the velocity tolerance of one.
    pub open spec fn near_one(self) -> bool {
        abs(self.num - self.den) * 1000 < VELOCITY_TOLERANCE_PER_MILLE * self.den
    }
}

impl Continuity {
    /// Whether the ratio of a tangent continuity is one of two lengths that
    /// are not zero.
    pub open spec fn wf(self) -> bool {
        self matches Continuity::Tangent { beta } ==> beta.wf()
    }
}

/// The continuity at a join `joint` with the handle `before` on the one side
/// and the handle `after` on the other.
///
/// Three points on one line give a velocity continuity where the two handles
/// are of one length within the tolerance, and a tangent continuity with the
/// ratio of their lengths otherwise. Points that do not lie on one line, and
/// a handle that lies on the join, give a positional continuity.
pub open spec fn classify(before: Point, joint: Point, after: Point) -> Continuity {
    let beta = Ratio { num: taxicab(joint, after) as u64, den: taxicab(before, joint) as u64 };
    if cross(before, joint, after) != 0 {
        Continuity::Positional
    } else if taxicab(before, joint) == 0 || taxicab(joint, after) == 0 {
        Continuity::Positional
    } else if beta.near_one() {
        Continuity::Velocity
    } else {
        Continuity::Tangent { beta }
    }
}

/// Handles that are mirror images about the join, and do not lie on it, give
/// a velocity continuity.
pub proof fn lemma_mirrored_handles_give_velocity(before: Point, joint: Point, after: Point)
    requires
        after.x - joint.x == joint.x - before.x,
        after.y - joint.y == joint.y - before.y,
        before != joint,
    ensures
        classify(before, joint, after) == Continuity::Velocity,
{
    let dx = joint.x - before.x;
    let dy = joint.y - before.y;
    assert(cross(before, joint, after) == 0) by (nonlinear_arith)
        requires
            cross(before, joint, after) == dx * (after.y - before.y) - dy * (after.x - before.x),
            after.y - before.y == 2 * dy,
            after.x - before.x == 2 * dx,
    ;
}

/// The continuity at a join, from the three points that decide it.
pub fn classify_points(before: Point, joint: Point, after: Point) -> (r: Continuity)
    ensures
        r == classify(before, joint, after),
        r.wf(),
{
    if !before.collinear(joint, after) {
        return Continuity::Positional;
    }
    let den: u64 = before.taxicab_distance(joint);
    let num: u64 = joint.taxicab_distance(after);
    if den == 0 || num == 0 {
        return Continuity::Positional;
    }
    let gap: u64 = if num < den {
        den - num
    } else {
        num - den
    };
    proof {
        lemma_product_bound(gap as int, 1000, 0x1_ffff_fffe, 1000);
        lemma_product_bound(VELOCITY_TOLERANCE_PER_MILLE as int, den as int, 5, 0x1_ffff_fffe);
    }
    if gap * 1000 < VELOCITY_TOLERANCE_PER_MILLE * den {
        Continuity::Velocity
    } else {
        Continuity::Tangent { beta: Ratio { num, den } }
    }
}

} // verus!
