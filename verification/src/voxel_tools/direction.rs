//! The six axis-aligned directions a face can look in.

use vstd::prelude::*;

verus! {

/// A face direction. `Left`, `Down` and `Back` look along the negative x, y
/// and z axes; `Right`, `Up` and `Forward` along the positive ones.
#[derive(Clone, Copy, Debug, PartialEq, Eq, Structural)]
pub enum Direction {
    Left,
    Right,
    Down,
    Up,
    Back,
    Forward,
}

/// A unit vector along one axis.
#[derive(Clone, Copy, Debug, PartialEq, Eq, Structural)]
pub struct Normal {
    pub x: i32,
    pub y: i32,
    pub z: i32,
}

/// The three axes of the grid.
#[derive(Clone, Copy, Debug, PartialEq, Eq, Structural)]
pub enum Axis {
    X,
    Y,
    Z,
}

impl Direction {
    /// The outward unit normal of a face that looks in this direction.
    pub open spec fn normal(self) -> Normal {
        match self {
            Direction::Left => Normal { x: -1i32, y: 0, z: 0 },
            Direction::Right => Normal { x: 1, y: 0, z: 0 },
            Direction::Down => Normal { x: 0, y: -1i32, z: 0 },
            Direction::Up => Normal { x: 0, y: 1, z: 0 },
            Direction::Back => Normal { x: 0, y: 0, z: -1i32 },
            Direction::Forward => Normal { x: 0, y: 0, z: 1 },
        }
    }

    /// The axis this direction runs along.
    pub open spec fn axis(self) -> Axis {
        match self {
            Direction::Left | Direction::Right => Axis::X,
            Direction::Down | Direction::Up => Axis::Y,
            Direction::Back | Direction::Forward => Axis::Z,
        }
    }

    /// Whether the direction looks along the negative half of its axis.
    pub open spec fn is_negative(self) -> bool {
        self == Direction::Left || self == Direction::Down || self == Direction::Back
    }

    pub fn get_normal(&self) -> (n: Normal)
        ensures
            n == self.normal(),
    {
        match self {
            Direction::Left => Normal { x: -1, y: 0, z: 0 },
            Direction::Right => Normal { x: 1, y: 0, z: 0 },
            Direction::Down => Normal { x: 0, y: -1, z: 0 },
            Direction::Up => Normal { x: 0, y: 1, z: 0 },
            Direction::Back => Normal { x: 0, y: 0, z: -1 },
            Direction::Forward => Normal { x: 0, y: 0, z: 1 },
        }
    }
}

} // verus!
