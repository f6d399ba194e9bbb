//! Directions and the cone classifier.

use vstd::prelude::*;

verus! {

/// Slope of the boundary of the vertical cones (Up and Down).
pub const VSLOPE: i128 = 1;

/// Slope of the boundary of the horizontal cones (Left and Right); the
/// reciprocal of [`VSLOPE`].
pub const HSLOPE: i128 = 1;

/// The value that stands for a scale of exactly one: scales are fixed-point
/// numbers in thousandths.
pub const SCALE_UNIT: u32 = 1000;

#[derive(Clone, Copy, PartialEq, Eq, Structural, Debug)]
pub enum Direction {
    Up,
    Down,
    Left,
    Right,
}

#[derive(Clone, Copy, PartialEq, Eq, Structural, Debug)]
pub enum PinchDirection {
    In,
    Out,
}

/// Absolute value of an integer.
pub open spec fn magnitude(v: int) -> int {
    if v < 0 {
        -v
    } else {
        v
    }
}

impl Direction {
    /// Whether the displacement `(dx, dy)` lies in this direction's cone,
    /// boundary included. Up is towards negative `dy`, right towards positive
    /// `dx`.
    pub open spec fn accepts(self, dx: int, dy: int) -> bool {
        match self {
            Direction::Up => dy <= VSLOPE * dx && dy <= -VSLOPE * dx,
            Direction::Down => dy >= VSLOPE * dx && dy >= -VSLOPE * dx,
            Direction::Right => dx >= HSLOPE * dy && dx >= -HSLOPE * dy,
            Direction::Left => dx <= HSLOPE * dy && dx <= -HSLOPE * dy,
        }
    }

    /// The direction whose cone is this one's mirror image.
    pub open spec fn opposite(self) -> Direction {
        match self {
            Direction::Up => Direction::Down,
            Direction::Down => Direction::Up,
            Direction::Right => Direction::Left,
            Direction::Left => Direction::Right,
        }
    }

    /// Whether `(dx, dy)` lies strictly inside this direction's cone, that is
    /// off both of its boundary lines.
    pub open spec fn strictly_inside(self, dx: int, dy: int) -> bool {
        match self {
            Direction::Up => dy < -magnitude(dx),
            Direction::Down => dy > magnitude(dx),
            Direction::Right => dx > magnitude(dy),
            Direction::Left => dx < -magnitude(dy),
        }
    }

    /// Decides whether the displacement `(dx, dy)` falls inside this
    /// direction's cone.
    pub fn matches(&self, dx: i64, dy: i64) -> (inside: bool)
        ensures
            inside == self.accepts(dx as int, dy as int),
    {
        let x: i128 = dx as i128;
        let y: i128 = dy as i128;
        match self {
            Direction::Up => y <= VSLOPE * x && y <= -(VSLOPE * x),
            Direction::Down => y >= VSLOPE * x && y >= -(VSLOPE * x),
            Direction::Right => x >= HSLOPE * y && x >= -(HSLOPE * y),
            Direction::Left => x <= HSLOPE * y && x <= -(HSLOPE * y),
        }
    }
}

/// A displacement strictly inside a cone is accepted by that cone's direction
/// and refused by the opposite one.
pub proof fn strict_cone_is_exclusive(d: Direction, dx: int, dy: int)
    requires
        d.strictly_inside(dx, dy),
    ensures
        d.accepts(dx, dy),
        !d.opposite().accepts(dx, dy),
{
}

/// The cones are closed, so neighbouring cones share their boundary: on the
/// diagonal `dx == dy` Up and Left both accept below the centre and Down and
/// Right both accept above it; on the anti-diagonal `dx == -dy` Up and Right
/// share the upper half and Down and Left the lower one. At the centre all
/// four accept.
pub proof fn diagonal_belongs_to_both_neighbours(dx: int, dy: int)
    ensures
        dx == dy && dy <= 0 ==> Direction::Up.accepts(dx, dy) && Direction::Left.accepts(dx, dy),
        dx == dy && dy >= 0 ==> Direction::Down.accepts(dx, dy) && Direction::Right.accepts(
            dx,
            dy,
        ),
        dx == -dy && dy <= 0 ==> Direction::Up.accepts(dx, dy) && Direction::Right.accepts(
            dx,
            dy,
        ),
        dx == -dy && dy >= 0 ==> Direction::Down.accepts(dx, dy) && Direction::Left.accepts(
            dx,
            dy,
        ),
{
}

/// Every displacement is accepted by at least one direction.
pub proof fn cones_cover_the_plane(dx: int, dy: int)
    ensures
        Direction::Up.accepts(dx, dy) || Direction::Down.accepts(dx, dy) || Direction::Left.accepts(
            dx,
            dy,
        ) || Direction::Right.accepts(dx, dy),
{
}

} // verus!
