use vstd::prelude::*;

use crate::position::Position;

verus! {

/// The static playing field: positive dimensions and a set of wall cells,
/// all fixed at construction.
pub struct Board {
    pub width: i16,
    pub height: i16,
    pub walls: Vec<Position>,
}

impl Board {
    /// A board is well formed when both dimensions are positive.
    pub open spec fn wf(self) -> bool {
        1 <= self.width && 1 <= self.height
    }

    /// The cell `p` lies inside `[0, width) x [0, height)`.
    pub open spec fn in_bounds(self, p: Position) -> bool {
        0 <= p.x < self.width && 0 <= p.y < self.height
    }

    pub fn new(width: i16, height: i16, walls: Vec<Position>) -> (b: Board)
        requires
            1 <= width,
            1 <= height,
        ensures
            b.wf(),
            b.width == width,
            b.height == height,
            b.walls@ == walls@,
    {
        Board { width, height, walls }
    }

    /// Membership query: is `p` one of the wall cells?
    pub fn contains(&self, p: Position) -> (r: bool)
        ensures
            r == self.walls@.contains(p),
    {
        let mut i: usize = 0;
        while i < self.walls.len()
            invariant
                i <= self.walls@.len(),
                forall|k: int| 0 <= k < i ==> self.walls@[k] != p,
            decreases self.walls@.len() - i,
        {
            if self.walls[i] == p {
                return true;
            }
            i = i + 1;
        }
        false
    }
}

} // verus!
