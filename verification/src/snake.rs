use vstd::prelude::*;

use std::collections::VecDeque;

use crate::board::Board;
use crate::position::Position;

verus! {

/// Two segments of the sequence `s` occupy the same cell.
pub open spec fn has_duplicate(s: Seq<Position>) -> bool {
    exists|i: int, j: int|
        0 <= i < s.len() && 0 <= j < s.len() && i != j && s[i] == s[j]
}

/// Some element of `s` also occurs in `w`.
pub open spec fn seqs_intersect(s: Seq<Position>, w: Seq<Position>) -> bool {
    exists|i: int, j: int| 0 <= i < s.len() && 0 <= j < w.len() && s[i] == w[j]
}

/// The ordered body of the snake: the head is at index 0, the tail at the
/// last index. Normal play keeps the length at 1 or more; a self-collision
/// is detected by query, not prevented structurally.
pub struct Snake {
    pub positions: VecDeque<Position>,
}

impl View for Snake {
    type V = Seq<Position>;

    open spec fn view(&self) -> Seq<Position> {
        self.positions@
    }
}

impl Snake {
    /// A fresh snake: a single segment on the origin cell.
    pub fn new() -> (s: Snake)
        ensures
            s@.len() == 1,
            s@[0] == (Position { x: 0, y: 0 }),
    {
        let mut vec: VecDeque<Position> = VecDeque::new();
        vec.push_back(Position::new(0, 0));
        Snake { positions: vec }
    }

    /// Membership query: does some segment occupy the cell `p`?
    pub fn occupies(&self, p: Position) -> (r: bool)
        ensures
            r == self@.contains(p),
    {
        let mut i: usize = 0;
        while i < self.positions.len()
            invariant
                i <= self@.len(),
                forall|k: int| 0 <= k < i ==> self@[k] != p,
            decreases self@.len() - i,
        {
            if self.positions[i] == p {
                return true;
            }
            i = i + 1;
        }
        false
    }

    /// True iff two segments occupy the same cell, found by full pairwise
    /// comparison.
    pub fn has_self_collision(&self) -> (r: bool)
        ensures
            r == has_duplicate(self@),
    {
        let n: usize = self.positions.len();
        let mut i: usize = 0;
        while i < n
            invariant
                i <= n,
                n == self@.len(),
                forall|a: int, b: int|
                    0 <= a < i && 0 <= b < n && a != b ==> self@[a] != self@[b],
            decreases n - i,
        {
            let mut j: usize = 0;
            while j < n
                invariant
                    j <= n,
                    i < n,
                    n == self@.len(),
                    forall|a: int, b: int|
                        0 <= a < i && 0 <= b < n && a != b ==> self@[a] != self@[b],
                    forall|b: int| 0 <= b < j && i != b ==> self@[i as int] != self@[b],
                decreases n - j,
            {
                if i != j {
                    if self.positions[i] == self.positions[j] {
                        return true;
                    }
                }
                j = j + 1;
            }
            i = i + 1;
        }
        false
    }

    /// True iff some segment coincides with some wall cell of `b`; every
    /// segment is checked against every wall.
    pub fn has_wall_collision(&self, b: &Board) -> (r: bool)
        ensures
            r == seqs_intersect(self@, b.walls@),
    {
        let n: usize = self.positions.len();
        let m: usize = b.walls.len();
        let mut i: usize = 0;
        while i < n
            invariant
                i <= n,
                n == self@.len(),
                m == b.walls@.len(),
                forall|a: int, w: int|
                    0 <= a < i && 0 <= w < m ==> self@[a] != b.walls@[w],
            decreases n - i,
        {
            let mut j: usize = 0;
            while j < m
                invariant
                    j <= m,
                    i < n,
                    n == self@.len(),
                    m == b.walls@.len(),
                    forall|a: int, w: int|
                        0 <= a < i && 0 <= w < m ==> self@[a] != b.walls@[w],
                    forall|w: int| 0 <= w < j ==> self@[i as int] != b.walls@[w],
                decreases m - j,
            {
                if self.positions[i] == b.walls[j] {
                    return true;
                }
                j = j + 1;
            }
            i = i + 1;
        }
        false
    }

    /// True iff the snake collides with itself, with a wall of `b`, or the
    /// head has left the board.
    pub fn has_collision(&self, b: &Board) -> (r: bool)
        requires
            self@.len() >= 1,
        ensures
            r == (has_duplicate(self@) || seqs_intersect(self@, b.walls@)
                || !b.in_bounds(self@[0])),
    {
        let head: Position = self.positions[0];
        let mut collision: bool = self.has_self_collision();
        collision = collision || self.has_wall_collision(b);
        collision = collision || head.x < 0 || head.y < 0 || head.x >= b.width
            || head.y >= b.height;
        collision
    }
}

} // verus!
