use vstd::prelude::*;

verus! {

/// A zero-based grid coordinate.
#[derive(Clone, Copy, Debug, PartialEq, Eq, Structural)]
pub struct Point {
    pub x: usize,
    pub y: usize,
}

/// One of the four cardinal directions the agent can move in.
#[derive(Clone, Copy, Debug, PartialEq, Eq, Structural)]
pub enum Direction {
    Backward,
    Forward,
    Up,
    Down,
}

/// Width and height of a grid.
#[derive(Clone, Copy, Debug, PartialEq, Eq, Structural)]
pub struct Size {
    pub width: usize,
    pub height: usize,
}

/// Point reached from `p` by one step in direction `d`, if it is representable.
pub open spec fn point_in_direction(p: Point, d: Direction) -> Option<Point> {
    match d {
        Direction::Backward => if p.x > 0 { Some(Point { x: (p.x - 1) as usize, y: p.y }) } else { None },
        Direction::Forward => if p.x < usize::MAX { Some(Point { x: (p.x + 1) as usize, y: p.y }) } else { None },
        Direction::Up => if p.y > 0 { Some(Point { x: p.x, y: (p.y - 1) as usize }) } else { None },
        Direction::Down => if p.y < usize::MAX { Some(Point { x: p.x, y: (p.y + 1) as usize }) } else { None },
    }
}

impl Point {
    /// The neighbouring point in `direction`; `None` where the coordinate would
    /// leave the range of `usize` (below zero in particular).
    pub fn get_point_in_direction(&self, direction: Direction) -> (r: Option<Point>)
        ensures
            r == point_in_direction(*self, direction),
    {
        match direction {
            Direction::Backward => {
                if self.x != 0 {
                    Some(Point { x: self.x - 1, y: self.y })
                } else {
                    None
                }
            },
            Direction::Forward => {
                if self.x != usize::MAX {
                    Some(Point { x: self.x + 1, y: self.y })
                } else {
                    None
                }
            },
            Direction::Up => {
                if self.y != 0 {
                    Some(Point { x: self.x, y: self.y - 1 })
                } else {
                    None
                }
            },
            Direction::Down => {
                if self.y != usize::MAX {
                    Some(Point { x: self.x, y: self.y + 1 })
                } else {
                    None
                }
            },
        }
    }
}

/// Result of an operation as reported to a caller.
#[derive(Clone, Copy, Debug, PartialEq, Eq, Structural)]
pub enum Outcome {
    Success,
    Failure,
}

} // verus!
