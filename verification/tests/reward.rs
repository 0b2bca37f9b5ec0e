use std::collections::VecDeque;

use snake_game::board::Board;
use snake_game::game::Game;
use snake_game::position::{Direction, Position};
use snake_game::snake::Snake;

fn snake_of(cells: &[(i16, i16)]) -> Snake {
    let mut positions: VecDeque<Position> = VecDeque::new();
    for &(x, y) in cells {
        positions.push_back(Position::new(x, y));
    }
    Snake { positions }
}

#[test]
fn repeated_placements_never_pick_a_wall_or_the_snake() {
    let walls = vec![Position::new(0, 0), Position::new(5, 5), Position::new(15, 15)];
    let body = [(3, 3), (3, 4), (4, 4), (5, 4)];
    let board = Board::new(16, 16, walls.clone());
    let mut g =
        Game::from_parts(board, snake_of(&body), Position::new(9, 9), Direction::Right);
    for _ in 0..500 {
        g.position_new_reward();
        assert!(!g.board_full);
        let r = (g.reward.x, g.reward.y);
        assert!(r.0 >= 0 && r.0 < 16 && r.1 >= 0 && r.1 < 16);
        assert!(!walls.iter().any(|w| (w.x, w.y) == r));
        assert!(!body.contains(&r));
    }
}

#[test]
fn placement_on_a_full_board_sets_the_flag_and_keeps_the_reward() {
    let board = Board::new(2, 1, vec![Position::new(1, 0)]);
    let mut g = Game::from_parts(board, snake_of(&[(0, 0)]), Position::new(1, 0), Direction::Right);
    g.position_new_reward();
    assert!(g.board_full);
    assert_eq!((g.reward.x, g.reward.y), (1, 0));
}

#[test]
fn placement_with_one_free_cell_always_picks_it() {
    let board = Board::new(2, 2, vec![Position::new(1, 1)]);
    let mut g = Game::from_parts(
        board,
        snake_of(&[(0, 0), (0, 1)]),
        Position::new(0, 0),
        Direction::Right,
    );
    for _ in 0..10 {
        g.position_new_reward();
        assert!(!g.board_full);
        assert_eq!((g.reward.x, g.reward.y), (1, 0));
    }
}
