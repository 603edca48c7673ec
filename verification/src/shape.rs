//! What may stand in a tile: its outline and the number of its faces.

use vstd::prelude::*;
use crate::scalar::{Scalar, Vector2};

verus! {

/// A rectangle with sides parallel to the axes, in the tile's own frame.
#[derive(Clone, Copy, Debug, PartialEq, Eq)]
pub struct AxisAlignedBox {
    pub min: Vector2,
    pub max: Vector2,
}

/// A circle, in the tile's own frame.
#[derive(Clone, Copy, Debug, PartialEq, Eq)]
pub struct Circle {
    pub pos: Vector2,
    pub radius: Scalar,
}

/// A thin wall between two points of the tile, seen from both sides.
#[derive(Clone, Copy, Debug, PartialEq, Eq)]
pub struct Line {
    pub start: Vector2,
    pub end: Vector2,
}

impl AxisAlignedBox {
    /// See [`AxisAlignedBox::side`].
    pub open spec fn spec_side(x_rising: bool, y_rising: bool, meets_x: bool, meets_y: bool) -> Option<
        u32,
    > {
        if meets_x {
            Some(
                if x_rising {
                    0u32
                } else {
                    1u32
                },
            )
        } else if meets_y {
            Some(
                if y_rising {
                    2u32
                } else {
                    3u32
                },
            )
        } else {
            None
        }
    }

    /// The face of a rectangle that a ray meets first. A ray whose x rises
    /// can come upon the face at `min.x` alone (face 0), any other ray upon
    /// the face at `max.x` alone (face 1); likewise in y, with the faces at
    /// `min.y` (face 2) and `max.y` (face 3). `meets_x` and `meets_y` say
    /// whether the ray meets that face between the rectangle's corners and
    /// not behind its own origin. Where it meets both, the face across x
    /// counts.
    pub fn side(x_rising: bool, y_rising: bool, meets_x: bool, meets_y: bool) -> (side: Option<u32>)
        ensures
            side == AxisAlignedBox::spec_side(x_rising, y_rising, meets_x, meets_y),
            side.is_some() <==> meets_x || meets_y,
            side.is_some() ==> side.unwrap() < MAX_SIDES,
    {
        if meets_x {
            Some(
                if x_rising {
                    0
                } else {
                    1
                },
            )
        } else if meets_y {
            Some(
                if y_rising {
                    2
                } else {
                    3
                },
            )
        } else {
            None
        }
    }
}

impl Line {
    /// The wall from `start` to `end`.
    pub fn new(start: Vector2, end: Vector2) -> (line: Line)
        ensures
            line.start == start,
            line.end == end,
    {
        Line { start, end }
    }

    /// The face of a thin wall that a ray meets: the front (face 0) where
    /// the ray travels along the wall's own direction, from `start` to
    /// `end`, rather than against it, else the back (face 1).
    pub fn side(along: bool) -> (side: u32)
        ensures
            side == if along {
                0u32
            } else {
                1u32
            },
            side < 2,
    {
        if along {
            0
        } else {
            1
        }
    }
}

/// The outline that fills a tile.
#[derive(Clone, Copy, Debug, PartialEq, Eq)]
pub enum Shape {
    /// Nothing: every ray passes.
    Void,
    /// The whole unit square.
    Box,
    AxisAlignedBox(AxisAlignedBox),
    Circle(Circle),
    Line(Line),
}

/// Where a ray met a shape: how far along the ray, where along the face, and
/// on which face.
#[derive(Clone, Copy, Debug, PartialEq, Eq)]
pub struct ShapeHitInfo {
    pub length: Scalar,
    pub x: Scalar,
    pub side: u32,
}

/// The greatest number of faces that a shape can have.
pub const MAX_SIDES: usize = 4;

impl Shape {
    /// The number of faces that carry a surface of their own.
    pub open spec fn spec_sides(self) -> nat {
        match self {
            Shape::Void => 0,
            Shape::Box => 4,
            Shape::AxisAlignedBox(_) => 4,
            Shape::Circle(_) => 1,
            Shape::Line(_) => 2,
        }
    }

    /// The number of faces that carry a surface of their own.
    pub fn sides(&self) -> (n: u32)
        ensures
            n == self.spec_sides(),
            n <= MAX_SIDES,
    {
        match self {
            Shape::Void => 0,
            Shape::Box => 4,
            Shape::AxisAlignedBox(_) => 4,
            Shape::Circle(_) => 1,
            Shape::Line(_) => 2,
        }
    }

    /// Whether no ray can meet the shape.
    pub fn is_void(&self) -> (b: bool)
        ensures
            b == (*self == Shape::Void),
    {
        match self {
            Shape::Void => true,
            _ => false,
        }
    }

    /// The rectangle whose faces a ray is tested against: the unit square
    /// for `Box`, its own rectangle for `AxisAlignedBox`, none for the
    /// shapes that are no rectangle.
    pub fn bounds(&self) -> (b: Option<AxisAlignedBox>)
        ensures
            b == self.spec_bounds(),
    {
        match self {
            Shape::Box => Some(
                AxisAlignedBox {
                    min: Vector2 { x: Scalar::zero(), y: Scalar::zero() },
                    max: Vector2 { x: Scalar::one(), y: Scalar::one() },
                },
            ),
            Shape::AxisAlignedBox(b) => Some(*b),
            _ => None,
        }
    }

    /// See [`Shape::bounds`].
    pub open spec fn spec_bounds(self) -> Option<AxisAlignedBox> {
        match self {
            Shape::Box => Some(unit_square()),
            Shape::AxisAlignedBox(b) => Some(b),
            _ => None,
        }
    }
}

/// The rectangle from (0, 0) to (1, 1).
pub open spec fn unit_square() -> AxisAlignedBox {
    AxisAlignedBox {
        min: Vector2 {
            x: Scalar { bits: crate::scalar::ZERO_BITS },
            y: Scalar { bits: crate::scalar::ZERO_BITS },
        },
        max: Vector2 {
            x: Scalar { bits: crate::scalar::ONE_BITS },
            y: Scalar { bits: crate::scalar::ONE_BITS },
        },
    }
}

} // verus!
