use crate::cell::Cell;
use crate::grid::{all_dead, board_wf, board_width, Grid};
use crate::neighbours::{
    alive_around_upto, alive_count, alive_neighbours, count_alive, find_neighbours,
    lemma_alive_neighbours_by_offsets, lemma_no_alive_neighbours,
};
use crate::world::Generation;
use vstd::prelude::*;

verus! {

/// Conway's rule: an alive cell stays alive with 2 or 3 alive neighbours, a
/// dead cell comes alive with exactly 3.
pub open spec fn life_rule(alive: bool, alive_neighbours: nat) -> bool {
    if alive {
        alive_neighbours == 2 || alive_neighbours == 3
    } else {
        alive_neighbours == 3
    }
}

/// The next generation of a board under Conway's rule: every cell is decided
/// from the current board alone.
pub open spec fn life_step(b: Seq<Seq<Cell>>) -> Seq<Seq<Cell>> {
    Seq::new(
        b.len(),
        |y: int|
            Seq::new(
                b[y].len(),
                |x: int| b[y][x].with_state(life_rule(b[y][x].alive, alive_neighbours(b, x, y)), false),
            ),
    )
}

/// A grid run under Conway's Game of Life.
#[derive(Clone, Debug, PartialEq)]
pub struct GameOfLife {
    pub grid: Grid,
    pub seed: u32,
}

impl GameOfLife {
    /// Whether `cell`, with the given neighbours, is alive in the next
    /// generation.
    pub fn is_alive(cell: &Cell, neighbours: Vec<&Cell>) -> (r: bool)
        ensures
            r == life_rule(cell.alive, alive_count(neighbours@)),
    {
        let alive_neighbours_count = count_alive(&neighbours);
        if cell.alive {
            alive_neighbours_count == 2 || alive_neighbours_count == 3
        } else {
            alive_neighbours_count == 3
        }
    }

    /// The next generation of `grid`, built as a new grid.
    pub fn advance(grid: &Grid) -> (r: Grid)
        requires
            grid.wf(),
        ensures
            r.wf(),
            r@ == life_step(grid@),
    {
        let ghost b = grid@;
        let mut cells: Vec<Vec<Cell>> = Vec::new();
        let mut y: usize = 0;
        while y < grid.cells.len()
            invariant
                grid.wf(),
                b == grid@,
                y <= b.len(),
                cells@.len() == y,
                forall|j: int| 0 <= j < y ==> #[trigger] cells@[j]@ == life_step(b)[j],
            decreases b.len() - y,
        {
            let mut row: Vec<Cell> = Vec::new();
            let mut x: usize = 0;
            assert(b[y as int] == grid.cells@[y as int]@);
            while x < grid.cells[y].len()
                invariant
                    grid.wf(),
                    b == grid@,
                    y < b.len(),
                    b[y as int] == grid.cells@[y as int]@,
                    x <= b[y as int].len(),
                    row@.len() == x,
                    forall|i: int| 0 <= i < x ==> #[trigger] row@[i] == life_step(b)[y as int][i],
                decreases b[y as int].len() - x,
            {
                let cell = &grid.cells[y][x];
                let neighbours = find_neighbours(grid, cell);
                let next = Cell::new_with_characters(
                    x as u32,
                    y as u32,
                    cell.dead_character.clone(),
                    cell.dying_character.clone(),
                    cell.alive_character.clone(),
                );
                if GameOfLife::is_alive(cell, neighbours) {
                    row.push(next.set_alive());
                } else {
                    row.push(next);
                }
                x += 1;
            }
            assert(row@ =~= life_step(b)[y as int]);
            cells.push(row);
            y += 1;
        }
        let r = Grid { cells };
        assert(r@ =~= life_step(b));
        r
    }
}

impl Generation for GameOfLife {
    open spec fn seed_view(&self) -> u32 {
        self.seed
    }

    open spec fn grid_view(&self) -> Grid {
        self.grid
    }

    open spec fn successor(&self, b: Seq<Seq<Cell>>) -> Seq<Seq<Cell>> {
        life_step(b)
    }

    fn seed(&self) -> (r: &u32) {
        &self.seed
    }

    fn grid(&self) -> (r: &Grid) {
        &self.grid
    }

    fn next(&mut self) {
        self.grid = GameOfLife::advance(&self.grid);
    }
}

/// A board with no alive or dying cell is its own next generation.
pub proof fn lemma_life_dead_board_is_fixed(b: Seq<Seq<Cell>>)
    requires
        board_wf(b),
        all_dead(b),
    ensures
        life_step(b) == b,
{
    assert forall|y: int| 0 <= y < b.len() implies #[trigger] life_step(b)[y] == b[y] by {
        assert forall|x: int| 0 <= x < b[y].len() implies #[trigger] life_step(b)[y][x] == b[y][x] by {
            lemma_no_alive_neighbours(b, x, y);
        }
        assert(life_step(b)[y] =~= b[y]);
    }
    assert(life_step(b) =~= b);
}

/// Whether `(x, y)` is one of the four cells of the 2 by 2 block whose
/// top-left cell is `(left, top)`.
pub open spec fn in_block(left: int, top: int, x: int, y: int) -> bool {
    left <= x <= left + 1 && top <= y <= top + 1
}

/// A 2 by 2 block of alive cells, with every other cell dead, is its own
/// next generation under Conway's rule.
pub proof fn lemma_block_is_still(b: Seq<Seq<Cell>>, left: int, top: int)
    requires
        board_wf(b),
        0 <= left,
        left + 1 < board_width(b),
        0 <= top,
        top + 1 < b.len(),
        forall|x: int, y: int|
            0 <= y < b.len() && 0 <= x < b[y].len() ==> (#[trigger] b[y][x]).alive == in_block(
                left,
                top,
                x,
                y,
            ) && !b[y][x].dying,
    ensures
        life_step(b) == b,
{
    assert forall|y: int| 0 <= y < b.len() implies #[trigger] life_step(b)[y] == b[y] by {
        assert forall|x: int| 0 <= x < b[y].len() implies #[trigger] life_step(b)[y][x] == b[y][x] by {
            lemma_alive_neighbours_by_offsets(b, x, y);
            reveal_with_fuel(alive_around_upto, 9);
            assert(b[y].len() == board_width(b));
            if in_block(left, top, x, y) {
                assert(alive_neighbours(b, x, y) == 3);
            } else {
                assert(alive_neighbours(b, x, y) <= 2);
            }
        }
        assert(life_step(b)[y] =~= b[y]);
    }
    assert(life_step(b) =~= b);
}

} // verus!
