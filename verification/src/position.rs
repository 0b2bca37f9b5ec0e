use vstd::prelude::*;

verus! {

/// A grid coordinate. The `y` axis follows the screen convention and grows
/// downward: moving `Down` adds one to `y`, moving `Up` subtracts one.
#[derive(PartialEq, Eq, Structural, Clone, Copy, Debug)]
pub struct Position {
    pub x: i16,
    pub y: i16,
}

/// One of the four movement directions; there is no diagonal or idle variant.
#[derive(PartialEq, Eq, Structural, Clone, Copy, Debug)]
pub enum Direction {
    Up,
    Down,
    Left,
    Right,
}

impl Position {
    pub fn new(x: i16, y: i16) -> (p: Position)
        ensures
            p == (Position { x, y }),
    {
        Position { x, y }
    }

    /// The cell one step away from `self` in direction `d`, under the
    /// inverted-y convention (`Down` increases `y`, `Up` decreases it).
    pub open spec fn spec_moved(self, d: Direction) -> Position {
        match d {
            Direction::Up => Position { x: self.x, y: (self.y - 1) as i16 },
            Direction::Down => Position { x: self.x, y: (self.y + 1) as i16 },
            Direction::Left => Position { x: (self.x - 1) as i16, y: self.y },
            Direction::Right => Position { x: (self.x + 1) as i16, y: self.y },
        }
    }

    /// Executable counterpart of [`Self::spec_moved`]; the bounds only rule
    /// out wraparound at the extremes of `i16`.
    pub fn moved(self, d: Direction) -> (q: Position)
        requires
            i16::MIN < self.x < i16::MAX,
            i16::MIN < self.y < i16::MAX,
        ensures
            q == self.spec_moved(d),
    {
        match d {
            Direction::Up => Position { x: self.x, y: self.y - 1 },
            Direction::Down => Position { x: self.x, y: self.y + 1 },
            Direction::Left => Position { x: self.x - 1, y: self.y },
            Direction::Right => Position { x: self.x + 1, y: self.y },
        }
    }
}

} // verus!
