//! A terminal snake game: a character-cell grid with text overlays, and the
//! snake rules that move, grow and respawn a snake on that grid.

pub mod screen_buffer;
pub mod game;
pub mod paint;
pub mod snake;
pub mod text_layout;

pub use game::{new_game, SnakeGame};
pub use screen_buffer::{Coordinate, GameContent, ScreenBuffer};
pub use snake::{
    add_snake_to_buffer, check_border_and_ego_collision, find_matches, move_snake,
    snake_item_collision, Direction, KeyCode, KeyEvent, Player, Snake,
};
