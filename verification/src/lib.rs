//! A grid-based snake game engine: a board with optional wall cells, an
//! ordered chain of snake segments, a randomly placed reward, and a game
//! state machine stepped once per tick by an external driver.

pub mod board;
pub mod game;
pub mod position;
pub mod snake;
