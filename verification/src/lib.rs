pub mod cell;
pub mod grid;

pub use cell::next_cell;
pub use cell::Cell;
pub use grid::Universe;
