//! Headings, bend kinds and body segments, with the grid geometry
//! that movement is defined over.

use vstd::prelude::*;
use crate::GRID_SIZE;

verus! {

/// A movement heading on the grid. `Up` decreases `y`, `Down` increases
/// `y`, `Left` decreases `x`, `Right` increases `x`.
#[derive(Clone, Copy, PartialEq, Eq, Structural, Debug)]
pub enum Direction {
    Left,
    Right,
    Up,
    Down,
}

/// Two headings that undo one another; a snake may never reverse onto
/// itself, so such a pair is rejected by the input queue.
pub open spec fn opposite(a: Direction, b: Direction) -> bool {
    ||| (a == Direction::Left && b == Direction::Right)
    ||| (a == Direction::Right && b == Direction::Left)
    ||| (a == Direction::Up && b == Direction::Down)
    ||| (a == Direction::Down && b == Direction::Up)
}

impl Direction {
    /// Whether this heading moves along the vertical axis.
    pub fn is_vertical(self) -> (r: bool)
        ensures
            r == (self == Direction::Up || self == Direction::Down),
    {
        self == Direction::Down || self == Direction::Up
    }

    /// Whether this heading moves along the horizontal axis.
    pub fn is_horizontal(self) -> (r: bool)
        ensures
            r == (self == Direction::Left || self == Direction::Right),
    {
        self == Direction::Left || self == Direction::Right
    }

    /// Whether `self` and `other` are opposite headings.
    pub fn is_opposite(self, other: Direction) -> (r: bool)
        ensures
            r == opposite(self, other),
    {
        match (self, other) {
            (Direction::Left, Direction::Right) => true,
            (Direction::Right, Direction::Left) => true,
            (Direction::Up, Direction::Down) => true,
            (Direction::Down, Direction::Up) => true,
            _ => false,
        }
    }
}

/// The corner a segment turns around when the path bends at it;
/// `Straight` marks a segment where the path does not bend.
#[derive(Clone, Copy, PartialEq, Eq, Structural, Debug)]
pub enum Bend {
    Straight,
    TopLeft,
    TopRight,
    BottomLeft,
    BottomRight,
}

/// The bend kind a segment takes on when a snake that was heading
/// `prev` adopts the heading `next` at that segment. Same-axis pairs
/// produce no bend.
pub open spec fn bend_of(prev: Direction, next: Direction) -> Bend {
    match (prev, next) {
        (Direction::Up, Direction::Left) => Bend::TopRight,
        (Direction::Up, Direction::Right) => Bend::TopLeft,
        (Direction::Down, Direction::Right) => Bend::BottomLeft,
        (Direction::Down, Direction::Left) => Bend::BottomRight,
        (Direction::Left, Direction::Down) => Bend::TopLeft,
        (Direction::Left, Direction::Up) => Bend::BottomLeft,
        (Direction::Right, Direction::Down) => Bend::TopRight,
        (Direction::Right, Direction::Up) => Bend::BottomRight,
        _ => Bend::Straight,
    }
}

/// The executable form of the heading-transition table.
pub fn bend_for(prev: Direction, next: Direction) -> (r: Bend)
    ensures
        r == bend_of(prev, next),
{
    match (prev, next) {
        (Direction::Up, Direction::Left) => Bend::TopRight,
        (Direction::Up, Direction::Right) => Bend::TopLeft,
        (Direction::Down, Direction::Right) => Bend::BottomLeft,
        (Direction::Down, Direction::Left) => Bend::BottomRight,
        (Direction::Left, Direction::Down) => Bend::TopLeft,
        (Direction::Left, Direction::Up) => Bend::BottomLeft,
        (Direction::Right, Direction::Down) => Bend::TopRight,
        (Direction::Right, Direction::Up) => Bend::BottomRight,
        _ => Bend::Straight,
    }
}

/// One cell of the snake's body: its position, the heading the snake
/// had when this segment was the head, and its bend kind.
#[derive(Clone, Copy, PartialEq, Eq, Structural, Debug)]
pub struct BodyPart {
    pub x: u32,
    pub y: u32,
    pub direction: Direction,
    pub bend: Bend,
}

impl BodyPart {
    /// A fresh segment at `(x, y)` heading `direction`, with no bend.
    pub fn new(x: u32, y: u32, direction: Direction) -> (r: BodyPart)
        ensures
            r == (BodyPart { x, y, direction, bend: Bend::Straight }),
    {
        BodyPart { x, y, direction, bend: Bend::Straight }
    }

    /// The cell this segment occupies.
    pub fn position(&self) -> (r: (u32, u32))
        ensures
            r == (self.x, self.y),
    {
        (self.x, self.y)
    }

    /// Whether two segments occupy the same cell.
    pub fn position_eq(&self, other: &BodyPart) -> (r: bool)
        ensures
            r == (self.x == other.x && self.y == other.y),
    {
        self.x == other.x && self.y == other.y
    }

    /// Whether the path bends at this segment.
    pub fn is_bend(&self) -> (r: bool)
        ensures
            r == (self.bend != Bend::Straight),
    {
        self.bend != Bend::Straight
    }
}

/// Whether `(x, y)` lies on the playing grid.
pub open spec fn in_grid(x: u32, y: u32) -> bool {
    x < GRID_SIZE && y < GRID_SIZE
}

/// Whether a step from `(x, y)` in heading `d` stays on the grid.
pub open spec fn can_move(x: u32, y: u32, d: Direction) -> bool {
    match d {
        Direction::Left => x > 0,
        Direction::Right => x + 1 < GRID_SIZE,
        Direction::Up => y > 0,
        Direction::Down => y + 1 < GRID_SIZE,
    }
}

/// The cell one step from `(x, y)` in heading `d`.
pub open spec fn step_pos(x: u32, y: u32, d: Direction) -> (u32, u32)
    recommends
        can_move(x, y, d),
{
    match d {
        Direction::Left => ((x - 1) as u32, y),
        Direction::Right => ((x + 1) as u32, y),
        Direction::Up => (x, (y - 1) as u32),
        Direction::Down => (x, (y + 1) as u32),
    }
}

} // verus!
