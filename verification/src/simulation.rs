//! The grid, its mathematical model, and the single-step transition.

pub mod game_of_life;
pub mod grid;
pub mod laws;
pub mod model;

pub use self::game_of_life::GameOfLife;
pub use self::grid::Grid;
pub use self::grid::GridError;
pub use self::model::GridView;
