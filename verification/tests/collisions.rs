use std::collections::VecDeque;

use snake_game::board::Board;
use snake_game::game::Game;
use snake_game::position::{Direction, Position};
use snake_game::snake::Snake;

fn snake_of(cells: &[(i16, i16)]) -> Snake {
    let mut positions: VecDeque<Position> = VecDeque::new();
    for &(x, y) in cells {
        positions.push_back(Position::new(x, y));
    }
    Snake { positions }
}

#[test]
fn two_segments_on_one_cell_end_the_game() {
    let board = Board::new(4, 4, vec![]);
    let g = Game::from_parts(
        board,
        snake_of(&[(2, 2), (2, 3), (2, 2)]),
        Position::new(0, 0),
        Direction::Right,
    );
    assert!(g.snake.has_self_collision());
    assert!(g.is_over());
}

#[test]
fn distinct_segments_do_not_collide() {
    let snake = snake_of(&[(1, 1), (1, 2), (2, 2)]);
    assert!(!snake.has_self_collision());
}

#[test]
fn head_on_a_wall_ends_the_game() {
    let board = Board::new(4, 4, vec![Position::new(1, 1)]);
    let g = Game::from_parts(board, snake_of(&[(1, 1)]), Position::new(0, 0), Direction::Right);
    assert!(g.is_over());
}

#[test]
fn any_segment_on_a_wall_counts_as_a_collision() {
    let board = Board::new(4, 4, vec![Position::new(2, 1)]);
    let snake = snake_of(&[(1, 1), (2, 1)]);
    assert!(snake.has_wall_collision(&board));
    // The same pair of cells with no wall on either: no collision.
    let open_board = Board::new(4, 4, vec![Position::new(3, 3)]);
    assert!(!snake.has_wall_collision(&open_board));
}

#[test]
fn wall_and_segment_sharing_an_index_still_collide() {
    // First wall and first segment coincide: the check must not skip
    // matching indices.
    let board = Board::new(4, 4, vec![Position::new(1, 1), Position::new(3, 3)]);
    let snake = snake_of(&[(1, 1), (1, 2)]);
    assert!(snake.has_wall_collision(&board));
}

#[test]
fn each_board_edge_ends_the_game() {
    let heads = [(-1, 1), (4, 1), (1, -1), (1, 4)];
    for (x, y) in heads {
        let board = Board::new(4, 4, vec![]);
        let g = Game::from_parts(board, snake_of(&[(x, y)]), Position::new(0, 0), Direction::Right);
        assert!(g.is_over(), "head at ({x}, {y}) should end the game");
    }
    let board = Board::new(4, 4, vec![]);
    let g = Game::from_parts(board, snake_of(&[(3, 3)]), Position::new(0, 0), Direction::Right);
    assert!(!g.is_over());
}

#[test]
fn board_membership_query() {
    let board = Board::new(8, 8, vec![Position::new(2, 5), Position::new(7, 0)]);
    assert!(board.contains(Position::new(2, 5)));
    assert!(board.contains(Position::new(7, 0)));
    assert!(!board.contains(Position::new(5, 2)));
}

#[test]
fn snake_occupancy_query() {
    let snake = snake_of(&[(0, 0), (0, 1)]);
    assert!(snake.occupies(Position::new(0, 1)));
    assert!(!snake.occupies(Position::new(1, 0)));
}

#[test]
fn fresh_snake_is_a_single_origin_segment() {
    let snake = Snake::new();
    let cells: Vec<(i16, i16)> = snake.positions.iter().map(|p| (p.x, p.y)).collect();
    assert_eq!(cells, vec![(0, 0)]);
}
