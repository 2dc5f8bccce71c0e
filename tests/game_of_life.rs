use gol::cell::Cell;
use gol::game_of_life::GameOfLife;
use gol::grid::Grid;
use gol::world::Generation;

#[test]
fn game_of_life_world_preserves_seed() {
    let grid = Grid::new(1, 1);
    let mut world = GameOfLife { grid, seed: 55 };

    world.next();

    assert_eq!(world.seed, 55);
}

/*

   .  ->  .

*/
#[test]
fn game_of_life_update_empty_world() {
    let grid = Grid::new(1, 1);
    let mut world = GameOfLife {
        grid: grid.clone(),
        seed: 0,
    };

    world.next();

    let expected_world = GameOfLife {
        grid: grid.clone(),
        seed: 0,
    };

    assert_eq!(world, expected_world);
}

/*

   . . . . .      . . . . .
   . . * * .      . . * * .
   . * . * .  ->  . * . * .
   . . * . .      . . * . .
   . . . . .      . . . . .

*/
#[test]
fn update_static_world() {
    let grid = Grid::new_alive_grid(
    	5, 5,
        String::new(), String::new(), String::new(),
    	vec![
    		(2, 1), (3, 1),
    		(1, 2),  (3, 2),
    		(2, 3),
    	],
        vec![],
	);

    let mut world = GameOfLife { grid, seed: 0 };

    let expected_grid = Grid::new_alive_grid(
    	5, 5,
        String::new(), String::new(), String::new(),
    	vec![
    		(2, 1), (3, 1),
    		(1, 2),  (3, 2),
    		(2, 3),
    	],
        vec![],
	);
    let expected_world = GameOfLife { grid: expected_grid, seed: 0 };

    world.next();

    assert_eq!(expected_world, world);
}

/*

   . . . .      . . . .
   . * * .      . * * .
   . * . .  ->  . * * .
   . . . .      . . . .

*/
#[test]
fn update_world_one_dead_cell_to_set_alive() {
    let grid = Grid::new_alive_grid(
    	4, 4,
        String::new(), String::new(), String::new(),
    	vec![
    		(1, 1), (2, 1),
    		(1, 2),
    	],
        vec![],
	);
    let mut world = GameOfLife { grid, seed: 0 };

    let expected_grid = Grid::new_alive_grid(
    	4, 4,
        String::new(), String::new(), String::new(),
    	vec![
    		(1, 1), (2, 1),
    		(1, 2), (2, 2),
    	],
        vec![],
	);
    let expected_world = GameOfLife { grid: expected_grid, seed: 0 };

    world.next();

    assert_eq!(expected_world, world);
}

/*

   . * . .      * * * .
   * * * .      * . . .
   . * * .  ->  * . * .
   . . . .      . . . .

*/
#[test]
fn update_world_one_alive_cell_to_set_dead() {
    let grid = Grid::new_alive_grid(
    	4, 4,
        String::new(), String::new(), String::new(),
    	vec![
    		        (1, 0),
    		(0, 1), (1, 1), (2, 1),
    		        (1, 2), (2, 2),
    	],
        vec![],
	);
    let mut world = GameOfLife { grid, seed: 0 };

    let expected_grid = Grid::new_alive_grid(
    	4, 4,
        String::new(), String::new(), String::new(),
    	vec![
    		(0, 0), (1, 0), (2, 0),
    		(0, 1),
    		(0, 2),         (2, 2),
    	],
        vec![],
	);
    let expected_world = GameOfLife { grid: expected_grid, seed: 0 };

    world.next();

    assert_eq!(expected_world, world);
}

#[test]
fn alive_cell_no_longer_alive_for_all_dead_neighbours() {
    let alive_cell = Cell::new(0, 0).set_alive();

    let cell_one = &Cell::new(0, 1);
    let cell_two = &Cell::new(1, 0);
    let cell_three = &Cell::new(1, 1);

    let neighbours = vec![cell_one, cell_two, cell_three];

    let is_alive = GameOfLife::is_alive(&alive_cell, neighbours);

    assert_eq!(is_alive, false);
}

#[test]
fn alive_cell_no_longer_alive_for_one_alive_neighbour() {
    let alive_cell = Cell::new(0, 0).set_alive();

    let cell_one = &Cell::new(0, 1).set_alive();
    let cell_two = &Cell::new(1, 0);
    let cell_three = &Cell::new(1, 1);

    let neighbours = vec![cell_one, cell_two, cell_three];

    let is_alive = GameOfLife::is_alive(&alive_cell, neighbours);

    assert_eq!(is_alive, false);
}

#[test]
fn alive_cell_no_longer_alive_for_more_thhan_three_alive_neighbours() {
    let alive_cell = Cell::new(0, 0).set_alive();

    let cell_one = &Cell::new(0, 1).set_alive();
    let cell_two = &Cell::new(1, 0).set_alive();
    let cell_three = &Cell::new(1, 1).set_alive();
    let cell_four = &Cell::new(1, 2).set_alive();

    let neighbours = vec![cell_one, cell_two, cell_three, cell_four];

    let is_alive = GameOfLife::is_alive(&alive_cell, neighbours);

    assert_eq!(is_alive, false);
}

#[test]
fn alive_cell_stays_alive_for_two_alive_neighbours() {
    let alive_cell = Cell::new(0, 0).set_alive();

    let cell_one = &Cell::new(0, 1).set_alive();
    let cell_two = &Cell::new(1, 0).set_alive();
    let cell_three = &Cell::new(1, 1);

    let neighbours = vec![cell_one, cell_two, cell_three];

    let is_alive = GameOfLife::is_alive(&alive_cell, neighbours);

    assert_eq!(is_alive, true);
}

#[test]
fn alive_cell_stays_alive_for_three_alive_neighbours() {
    let alive_cell = Cell::new(0, 0).set_alive();

    let cell_one = &Cell::new(0, 1).set_alive();
    let cell_two = &Cell::new(1, 0).set_alive();
    let cell_three = &Cell::new(1, 1).set_alive();

    let neighbours = vec![cell_one, cell_two, cell_three];

    let is_alive = GameOfLife::is_alive(&alive_cell, neighbours);

    assert_eq!(is_alive, true);
}

#[test]
fn dead_cell_becomes_alive_for_three_alive_neighbours() {
    let alive_cell = Cell::new(0, 0);

    let cell_one = &Cell::new(0, 1).set_alive();
    let cell_two = &Cell::new(1, 0).set_alive();
    let cell_three = &Cell::new(1, 1).set_alive();

    let neighbours = vec![cell_one, cell_two, cell_three];

    let is_alive = GameOfLife::is_alive(&alive_cell, neighbours);

    assert_eq!(is_alive, true);
}

#[test]
fn dead_cell_stays_dead_for_fewer_than_three_alive_neighbours() {
    let alive_cell = Cell::new(0, 0).set_dead();

    let cell_one = &Cell::new(0, 1).set_alive();
    let cell_two = &Cell::new(1, 0).set_alive();
    let cell_three = &Cell::new(1, 1);

    let neighbours = vec![cell_one, cell_two, cell_three];

    let is_alive = GameOfLife::is_alive(&alive_cell, neighbours);

    assert_eq!(is_alive, false);
}

#[test]
fn dead_cell_stays_dead_for_more_than_three_alive_neighbours() {
    let alive_cell = Cell::new(0, 0).set_dead();

    let cell_one = &Cell::new(0, 1).set_alive();
    let cell_two = &Cell::new(1, 0).set_alive();
    let cell_three = &Cell::new(1, 1).set_alive();
    let cell_four = &Cell::new(1, 2).set_alive();

    let neighbours = vec![cell_one, cell_two, cell_three, cell_four];

    let is_alive = GameOfLife::is_alive(&alive_cell, neighbours);

    assert_eq!(is_alive, false);
}
