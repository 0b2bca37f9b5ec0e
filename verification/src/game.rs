use vstd::prelude::*;

use rand::Rng;

use crate::board::Board;
use crate::position::{Direction, Position};
use crate::snake::{has_duplicate, seqs_intersect, Snake};

verus! {

/// `rand::rngs::ThreadRng` declared for Verus; its values are opaque here.
#[verifier::external_type_specification]
#[verifier::external_body]
pub struct ExThreadRng(rand::rngs::ThreadRng);

/// Relies on `rand::thread_rng`: returns a handle to the thread-local
/// random-number generator. Nothing is assumed of the handle.
#[verifier::external_body]
fn fresh_rng() -> rand::rngs::ThreadRng {
    rand::thread_rng()
}

/// Relies on `rand::Rng::gen_range` over `0..n`: the sample lies in the
/// range. `gen_range` panics on an empty range, so `n` must be positive;
/// nothing more is assumed of which value comes back.
#[verifier::external_body]
fn sample_below(rng: &mut rand::rngs::ThreadRng, n: usize) -> (r: usize)
    requires
        n >= 1,
    ensures
        r < n,
{
    rng.gen_range(0..n)
}

/// The cell `p` is on `board`, is not a wall, and is not occupied by a
/// segment of `snake`.
pub open spec fn cell_free_in(board: Board, snake: Snake, p: Position) -> bool {
    board.in_bounds(p) && !board.walls@.contains(p) && !snake@.contains(p)
}

/// Every free cell of `board`, enumerated column by column: the cells inside
/// the bounds that neither a wall nor a snake segment occupies.
fn free_positions(board: &Board, snake: &Snake) -> (r: Vec<Position>)
    requires
        board.wf(),
    ensures
        forall|k: int| 0 <= k < r@.len() ==> cell_free_in(*board, *snake, #[trigger] r@[k]),
        forall|p: Position| #[trigger] cell_free_in(*board, *snake, p) ==> r@.contains(p),
{
    let mut r: Vec<Position> = Vec::new();
    let mut i: i16 = 0;
    while i < board.width
        invariant
            0 <= i <= board.width,
            board.wf(),
            forall|k: int| 0 <= k < r@.len() ==> cell_free_in(*board, *snake, #[trigger] r@[k]),
            forall|p: Position|
                #[trigger] cell_free_in(*board, *snake, p) && p.x < i ==> r@.contains(p),
        decreases board.width - i,
    {
        let mut j: i16 = 0;
        while j < board.height
            invariant
                0 <= j <= board.height,
                0 <= i < board.width,
                board.wf(),
                forall|k: int| 0 <= k < r@.len() ==> cell_free_in(*board, *snake, #[trigger] r@[k]),
                forall|p: Position|
                    #[trigger] cell_free_in(*board, *snake, p) && (p.x < i || (p.x == i && p.y < j))
                        ==> r@.contains(p),
            decreases board.height - j,
        {
            let pos = Position::new(i, j);
            let ghost r0 = r@;
            let wall = board.contains(pos);
            let occupied = snake.occupies(pos);
            if !wall && !occupied {
                r.push(pos);
            }
            proof {
                assert forall|p: Position|
                    cell_free_in(*board, *snake, p) && (p.x < i || (p.x == i && p.y < j + 1))
                    implies r@.contains(p) by {
                    if p.x < i || (p.x == i && p.y < j) {
                        let k = choose|k: int| 0 <= k < r0.len() && r0[k] == p;
                        assert(r@[k] == p);
                    } else {
                        assert(p == pos);
                        assert(!wall && !occupied);
                        assert(r@[r0.len() as int] == pos);
                    }
                }
            }
            j = j + 1;
        }
        proof {
            assert forall|p: Position|
                cell_free_in(*board, *snake, p) && p.x < i + 1 implies r@.contains(p) by {
                if p.x == i {
                    assert(p.y < board.height);
                }
            }
        }
        i = i + 1;
    }
    r
}

/// How one tick relates the state before (`pre`) and after (`post`): the new
/// head lies one cell from the old head in the pending direction; landing on
/// the reward grows the body by one, raises the score by one and moves the
/// reward to a free cell when one exists; any other landing shifts the body
/// by one cell and leaves reward, score and flag untouched.
pub open spec fn step_relation(pre: Game, post: Game) -> bool {
    let new_head = pre.head().spec_moved(pre.direction);
    &&& post.board == pre.board
    &&& post.direction == pre.direction
    &&& if new_head == pre.reward {
        &&& post.snake@ == seq![new_head] + pre.snake@
        &&& post.score == pre.score + 1
        &&& ((exists|p: Position| post.cell_free(p)) ==> !post.board_full && post.cell_free(
            post.reward,
        ))
        &&& (!(exists|p: Position| post.cell_free(p)) ==> post.board_full && post.reward
            == pre.reward)
    } else {
        &&& post.snake@ == seq![new_head] + pre.snake@.drop_last()
        &&& post.score == pre.score
        &&& post.reward == pre.reward
        &&& post.board_full == pre.board_full
    }
}

/// The whole game state: board, snake, current reward cell, pending
/// direction, score, and a flag recording that the last reward placement
/// found no free cell (the board is full, a win condition).
pub struct Game {
    pub board: Board,
    pub snake: Snake,
    pub reward: Position,
    pub direction: Direction,
    pub score: u32,
    pub board_full: bool,
    pub rng: rand::rngs::ThreadRng,
}

impl Game {
    /// Well-formed game state: a well-formed board and at least one segment.
    pub open spec fn wf(self) -> bool {
        self.board.wf() && self.snake@.len() >= 1
    }

    /// The head segment.
    pub open spec fn head(self) -> Position {
        self.snake@[0]
    }

    /// The cell `p` is free: on the board, not a wall, and not occupied by
    /// the snake.
    pub open spec fn cell_free(self, p: Position) -> bool {
        cell_free_in(self.board, self.snake, p)
    }

    /// Terminal test: a self-collision, a wall collision, or a head outside
    /// the board.
    pub open spec fn spec_is_over(self) -> bool {
        has_duplicate(self.snake@) || seqs_intersect(self.snake@, self.board.walls@)
            || !self.board.in_bounds(self.head())
    }

    /// A fresh game on a wall-less `width` by `height` board: one snake
    /// segment on the origin, direction `Right`, score zero, and the reward
    /// placed on a free cell (on a one-cell board no cell is free, and the
    /// full-board flag is set instead).
    pub fn new(width: i16, height: i16) -> (g: Game)
        requires
            1 <= width,
            1 <= height,
        ensures
            g.wf(),
            g.board.width == width,
            g.board.height == height,
            g.board.walls@ == Seq::<Position>::empty(),
            g.snake@.len() == 1,
            g.snake@[0] == (Position { x: 0, y: 0 }),
            g.direction == Direction::Right,
            g.score == 0,
            width * height >= 2 ==> !g.board_full && g.cell_free(g.reward),
            width == 1 && height == 1 ==> g.board_full,
    {
        let board = Board::new(width, height, Vec::new());
        let snake = Snake::new();
        let mut game = Game {
            board,
            snake,
            reward: Position::new(width, height),
            direction: Direction::Right,
            score: 0,
            board_full: false,
            rng: fresh_rng(),
        };
        proof {
            if width >= 2 {
                assert(game.cell_free(Position { x: 1, y: 0 }));
            } else if height >= 2 {
                assert(game.cell_free(Position { x: 0, y: 1 }));
            } else {
                assert forall|p: Position| !game.cell_free(p) by {
                    if game.board.in_bounds(p) {
                        assert(p == (Position { x: 0, y: 0 }));
                        assert(game.snake@[0] == p);
                        assert(game.snake@.contains(p));
                    }
                }
            }
        }
        game.position_new_reward();
        proof {
            assert(width * height >= 2 ==> width >= 2 || height >= 2) by (nonlinear_arith)
                requires
                    1 <= width,
                    1 <= height,
            ;
        }
        game
    }

    /// Builds a game from an explicit board, snake, reward and direction,
    /// for example to restore a position or drive a fixed scenario. The
    /// reward cell is taken as given; `position_new_reward` reassigns it.
    pub fn from_parts(board: Board, snake: Snake, reward: Position, direction: Direction) -> (g:
        Game)
        requires
            board.wf(),
            snake@.len() >= 1,
        ensures
            g.wf(),
            g.board == board,
            g.snake == snake,
            g.reward == reward,
            g.direction == direction,
            g.score == 0,
            !g.board_full,
    {
        Game { board, snake, reward, direction, score: 0, board_full: false, rng: fresh_rng() }
    }

    /// Moves the reward to a cell chosen uniformly at random among the free
    /// cells: never onto a wall, a snake segment, or outside the board. When
    /// no cell is free the reward stays and the full-board flag is set.
    pub fn position_new_reward(&mut self)
        requires
            old(self).wf(),
        ensures
            final(self).wf(),
            final(self).board == old(self).board,
            final(self).snake == old(self).snake,
            final(self).direction == old(self).direction,
            final(self).score == old(self).score,
            (exists|p: Position| old(self).cell_free(p)) ==> !final(self).board_full
                && final(self).cell_free(final(self).reward),
            !(exists|p: Position| old(self).cell_free(p)) ==> final(self).board_full
                && final(self).reward == old(self).reward,
    {
        let free = free_positions(&self.board, &self.snake);
        if free.len() >= 1 {
            let k = sample_below(&mut self.rng, free.len());
            self.reward = free[k];
            self.board_full = false;
            proof {
                assert(cell_free_in(self.board, self.snake, free@[k as int]));
                assert(self.cell_free(self.reward));
                assert(old(self).cell_free(free@[0]));
            }
        } else {
            self.board_full = true;
            proof {
                assert forall|p: Position| !old(self).cell_free(p) by {
                    if cell_free_in(old(self).board, old(self).snake, p) {
                        assert(free@.contains(p));
                    }
                }
            }
        }
    }

    /// One discrete tick. The head advances one cell in the pending
    /// direction; eating the reward keeps the tail (the body grows) and
    /// relocates the reward, any other move drops the tail. No collision is
    /// checked here: the driver queries `is_over` after each tick.
    pub fn move_snake(&mut self)
        requires
            old(self).wf(),
            old(self).board.in_bounds(old(self).head()),
            old(self).score < u32::MAX,
        ensures
            final(self).wf(),
            step_relation(*old(self), *final(self)),
    {
        let head_pos: Position = self.snake.positions[0];
        let new_head_pos = head_pos.moved(self.direction);
        if new_head_pos == self.reward {
            self.score = self.score + 1;
            self.snake.positions.push_front(new_head_pos);
            let ghost mid = *self;
            self.position_new_reward();
            proof {
                if exists|p: Position| mid.cell_free(p) {
                    let p = choose|p: Position| mid.cell_free(p);
                    assert(self.cell_free(p));
                }
                if exists|p: Position| self.cell_free(p) {
                    let p = choose|p: Position| self.cell_free(p);
                    assert(mid.cell_free(p));
                }
            }
        } else {
            let _tail = self.snake.positions.pop_back();
            self.snake.positions.push_front(new_head_pos);
            proof {
                assert(self.snake@ =~= seq![new_head_pos] + old(self).snake@.drop_last());
            }
        }
    }

    /// Overwrites the pending direction unconditionally; between two ticks
    /// the last write wins. Nothing else changes.
    pub fn update_direction(&mut self, dir: Direction)
        ensures
            final(self).direction == dir,
            final(self).board == old(self).board,
            final(self).snake == old(self).snake,
            final(self).reward == old(self).reward,
            final(self).score == old(self).score,
            final(self).board_full == old(self).board_full,
    {
        self.direction = dir;
    }

    /// True iff the game has reached a terminal collision state.
    pub fn is_over(&self) -> (r: bool)
        requires
            self.wf(),
        ensures
            r == self.spec_is_over(),
    {
        self.snake.has_collision(&self.board)
    }
}

/// For any non-terminal state whose pending direction is `d` — as
/// `update_direction(d)` leaves it — one tick moves the head exactly one
/// cell in direction `d`, under the inverted-y convention: `Up` decreases
/// `y`, `Down` increases it, `Left` decreases `x`, `Right` increases it.
pub proof fn lemma_step_moves_head_one_cell(pre: Game, post: Game, d: Direction)
    requires
        pre.wf(),
        !pre.spec_is_over(),
        pre.direction == d,
        step_relation(pre, post),
    ensures
        post.head() == pre.head().spec_moved(d),
        d == Direction::Up ==> post.head().x == pre.head().x && post.head().y == pre.head().y
            - 1,
        d == Direction::Down ==> post.head().x == pre.head().x && post.head().y == pre.head().y
            + 1,
        d == Direction::Left ==> post.head().x == pre.head().x - 1 && post.head().y
            == pre.head().y,
        d == Direction::Right ==> post.head().x == pre.head().x + 1 && post.head().y
            == pre.head().y,
{
    let new_head = pre.head().spec_moved(pre.direction);
    assert(post.snake@[0] == new_head);
}

/// Eating: when the cell ahead of the head holds the reward, one tick grows
/// the body by exactly one segment, raises the score by one, and — whenever
/// any free cell remains — puts the reward on a free cell: on the board, on
/// no wall, and on no segment of the grown snake.
pub proof fn lemma_eating_step(pre: Game, post: Game)
    requires
        pre.wf(),
        pre.head().spec_moved(pre.direction) == pre.reward,
        step_relation(pre, post),
        exists|p: Position| post.cell_free(p),
    ensures
        post.snake@.len() == pre.snake@.len() + 1,
        post.score == pre.score + 1,
        post.board.in_bounds(post.reward),
        !post.board.walls@.contains(post.reward),
        !post.snake@.contains(post.reward),
{
}

/// A tick that does not eat keeps the body length, and the new tail is the
/// old second-to-last segment: the occupied cells shift by one cell at the
/// head end while reward and score stay as they were.
pub proof fn lemma_plain_step(pre: Game, post: Game)
    requires
        pre.wf(),
        pre.head().spec_moved(pre.direction) != pre.reward,
        step_relation(pre, post),
    ensures
        post.snake@.len() == pre.snake@.len(),
        post.head() == pre.head().spec_moved(pre.direction),
        pre.snake@.len() >= 2 ==> post.snake@.last() == pre.snake@[pre.snake@.len() - 2],
        post.reward == pre.reward,
        post.score == pre.score,
{
    let new_head = pre.head().spec_moved(pre.direction);
    assert(post.snake@ == seq![new_head] + pre.snake@.drop_last());
    if pre.snake@.len() >= 2 {
        assert(post.snake@.last() == pre.snake@.drop_last().last());
    }
}

/// A snake with two segments on the same cell is in a terminal state.
pub proof fn lemma_self_collision_is_over(g: Game, i: int, j: int)
    requires
        g.wf(),
        0 <= i < g.snake@.len(),
        0 <= j < g.snake@.len(),
        i != j,
        g.snake@[i] == g.snake@[j],
    ensures
        g.spec_is_over(),
{
    assert(has_duplicate(g.snake@));
}

/// A head on a wall cell is a terminal state.
pub proof fn lemma_wall_collision_is_over(g: Game)
    requires
        g.wf(),
        g.board.walls@.contains(g.head()),
    ensures
        g.spec_is_over(),
{
    let j = choose|j: int| 0 <= j < g.board.walls@.len() && g.board.walls@[j] == g.head();
    assert(g.snake@[0] == g.board.walls@[j]);
    assert(seqs_intersect(g.snake@, g.board.walls@));
}

/// A head outside `[0, width) x [0, height)` is a terminal state.
pub proof fn lemma_out_of_bounds_is_over(g: Game)
    requires
        g.wf(),
        g.head().x < 0 || g.head().x >= g.board.width || g.head().y < 0 || g.head().y
            >= g.board.height,
    ensures
        g.spec_is_over(),
{
}

} // verus!
