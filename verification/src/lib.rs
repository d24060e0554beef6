//! Verified core of a grid snake game: the snake body, the world state,
//! movement, collision, food placement, and the tick scheduler.

pub mod draw;
pub mod game;
pub mod snake;
