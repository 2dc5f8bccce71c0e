pub mod brians_brain;
pub mod cell;
pub mod config;
pub mod example_worlds;
pub mod game_of_life;
pub mod grid;
pub mod neighbours;
pub mod seeding;
pub mod world;

use cell::Cell;
use grid::Grid;
use vstd::prelude::*;

verus! {

/// Builds an empty grid and a lone cell.
pub fn test() {
    let _grid = Grid::new(0, 0);
    let _cell = Cell::new(0, 0);
}

} // verus!
