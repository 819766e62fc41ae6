//! Rules engine of a falling-block grid puzzle: the playfield, the active
//! piece, movement and rotation resolution, collision correction, locking,
//! line clearing, scoring and game-over detection.
//!
//! Rendering, raw input and tick scheduling are external collaborators and
//! live outside this crate; they drive the engine through the public methods
//! of [`Game`] and read it back through [`Game::snapshot`].

pub mod game;
pub mod laws;
pub mod model;
mod rng;
pub mod rows;

pub use game::Game;

pub use model::Block;
pub use model::Direction;
pub use model::Point;
pub use model::HEIGHT;
pub use model::MAX_HEIGTH;
pub use model::MAX_WIDTH;
pub use model::WIDTH;
