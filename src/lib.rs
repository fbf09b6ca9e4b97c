//! Board and piece model of a falling-block puzzle: the seven piece shapes,
//! their clockwise rotation, and the moves of the active piece within the
//! board's bounds.

pub mod block;
pub mod game;
pub mod palette;

pub use block::{BlockShape, BlockType, Cell};
pub use game::Game;
pub use palette::color_name;
