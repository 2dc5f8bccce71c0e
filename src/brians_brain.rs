use crate::cell::Cell;
use crate::grid::{all_dead, board_wf, Grid};
use crate::neighbours::{
    alive_count, alive_neighbours, count_alive, find_neighbours, lemma_no_alive_neighbours,
};
use crate::world::Generation;
use vstd::prelude::*;

verus! {

/// Brian's Brain: a cell that is neither alive nor dying comes alive with
/// exactly 2 alive neighbours.
pub open spec fn brain_comes_alive(alive: bool, dying: bool, alive_neighbours: nat) -> bool {
    !alive && !dying && alive_neighbours == 2
}

/// The next state of a cell under Brian's Brain: alive as above, else an
/// alive cell starts dying, and everything else is dead.
pub open spec fn brain_next(c: Cell, alive_neighbours: nat) -> Cell {
    if brain_comes_alive(c.alive, c.dying, alive_neighbours) {
        c.with_state(true, false)
    } else if c.alive {
        c.with_state(false, true)
    } else {
        c.with_state(false, false)
    }
}

/// The next generation of a board under Brian's Brain: every cell is decided
/// from the current board alone.
pub open spec fn brain_step(b: Seq<Seq<Cell>>) -> Seq<Seq<Cell>> {
    Seq::new(
        b.len(),
        |y: int| Seq::new(b[y].len(), |x: int| brain_next(b[y][x], alive_neighbours(b, x, y))),
    )
}

/// A grid run under Brian's Brain.
#[derive(Clone, Debug, PartialEq)]
pub struct BriansBrain {
    pub grid: Grid,
    pub seed: u32,
}

impl BriansBrain {
    /// Whether `cell` is dying in the next generation: every alive cell is.
    pub fn is_dying(cell: &Cell) -> (r: bool)
        ensures
            r == cell.alive,
    {
        cell.alive
    }

    /// Whether `cell`, with the given neighbours, is alive in the next
    /// generation.
    pub fn is_alive(cell: &Cell, neighbours: Vec<&Cell>) -> (r: bool)
        ensures
            r == brain_comes_alive(cell.alive, cell.dying, alive_count(neighbours@)),
    {
        let alive_neighbours_count = count_alive(&neighbours);
        !cell.alive && !cell.dying && alive_neighbours_count == 2
    }

    /// The next generation of `grid`, built as a new grid.
    pub fn advance(grid: &Grid) -> (r: Grid)
        requires
            grid.wf(),
        ensures
            r.wf(),
            r@ == brain_step(grid@),
    {
        let ghost b = grid@;
        let mut cells: Vec<Vec<Cell>> = Vec::new();
        let mut y: usize = 0;
        while y < grid.cells.len()
            invariant
                grid.wf(),
                b == grid@,
                y <= b.len(),
                cells@.len() == y,
                forall|j: int| 0 <= j < y ==> #[trigger] cells@[j]@ == brain_step(b)[j],
            decreases b.len() - y,
        {
            let mut row: Vec<Cell> = Vec::new();
            let mut x: usize = 0;
            assert(b[y as int] == grid.cells@[y as int]@);
            while x < grid.cells[y].len()
                invariant
                    grid.wf(),
                    b == grid@,
                    y < b.len(),
                    b[y as int] == grid.cells@[y as int]@,
                    x <= b[y as int].len(),
                    row@.len() == x,
                    forall|i: int| 0 <= i < x ==> #[trigger] row@[i] == brain_step(b)[y as int][i],
                decreases b[y as int].len() - x,
            {
                let cell = &grid.cells[y][x];
                let neighbours = find_neighbours(grid, cell);
                let next = Cell::new_with_characters(
                    x as u32,
                    y as u32,
                    cell.dead_character.clone(),
                    cell.dying_character.clone(),
                    cell.alive_character.clone(),
                );
                if BriansBrain::is_alive(cell, neighbours) {
                    row.push(next.set_alive());
                } else if BriansBrain::is_dying(cell) {
                    row.push(next.set_dying());
                } else {
                    row.push(next);
                }
                x += 1;
            }
            assert(row@ =~= brain_step(b)[y as int]);
            cells.push(row);
            y += 1;
        }
        let r = Grid { cells };
        assert(r@ =~= brain_step(b));
        r
    }
}

impl Generation for BriansBrain {
    open spec fn seed_view(&self) -> u32 {
        self.seed
    }

    open spec fn grid_view(&self) -> Grid {
        self.grid
    }

    open spec fn successor(&self, b: Seq<Seq<Cell>>) -> Seq<Seq<Cell>> {
        brain_step(b)
    }

    fn seed(&self) -> (r: &u32) {
        &self.seed
    }

    fn grid(&self) -> (r: &Grid) {
        &self.grid
    }

    fn next(&mut self) {
        self.grid = BriansBrain::advance(&self.grid);
    }
}

/// A board with no alive or dying cell is its own next generation.
pub proof fn lemma_brain_dead_board_is_fixed(b: Seq<Seq<Cell>>)
    requires
        board_wf(b),
        all_dead(b),
    ensures
        brain_step(b) == b,
{
    assert forall|y: int| 0 <= y < b.len() implies #[trigger] brain_step(b)[y] == b[y] by {
        assert forall|x: int| 0 <= x < b[y].len() implies #[trigger] brain_step(b)[y][x] == b[y][x] by {
            lemma_no_alive_neighbours(b, x, y);
        }
        assert(brain_step(b)[y] =~= b[y]);
    }
    assert(brain_step(b) =~= b);
}

/// An alive cell is dying one generation later and dead the generation
/// after, whatever its neighbours.
pub proof fn lemma_alive_then_dying_then_dead(b: Seq<Seq<Cell>>, x: int, y: int)
    requires
        0 <= y < b.len(),
        0 <= x < b[y].len(),
        b[y][x].alive,
    ensures
        brain_step(b)[y][x] == b[y][x].with_state(false, true),
        brain_step(brain_step(b))[y][x] == b[y][x].with_state(false, false),
{
    let next = brain_step(b);
    assert(next[y].len() == b[y].len());
}

} // verus!
