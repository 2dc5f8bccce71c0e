use crate::brians_brain::{brain_step, BriansBrain};
use crate::cell::Cell;
use crate::game_of_life::{life_step, GameOfLife};
use crate::grid::Grid;
use vstd::prelude::*;
use vstd::string::*;

verus! {

/// A simulation that can be advanced one generation at a time.
pub trait Generation {
    /// The seed the simulation was started from.
    spec fn seed_view(&self) -> u32;

    /// The current grid.
    spec fn grid_view(&self) -> Grid;

    /// The board that one generation turns `b` into under this simulation's
    /// ruleset.
    spec fn successor(&self, b: Seq<Seq<Cell>>) -> Seq<Seq<Cell>>;

    fn seed(&self) -> (r: &u32)
        ensures
            *r == self.seed_view(),
    ;

    fn grid(&self) -> (r: &Grid)
        ensures
            *r == self.grid_view(),
    ;

    /// Replaces the grid by the next generation; the seed stays as it was.
    fn next(&mut self)
        requires
            old(self).grid_view().wf(),
        ensures
            final(self).seed_view() == old(self).seed_view(),
            final(self).grid_view().wf(),
            final(self).grid_view()@ == old(self).successor(old(self).grid_view()@),
            final(self).grid_view()@.len() == old(self).grid_view()@.len(),
            forall|y: int|
                0 <= y < old(self).grid_view()@.len() ==> #[trigger] final(self).grid_view()@[y].len()
                    == old(self).grid_view()@[y].len(),
    ;
}

/// A simulation under one of the two rulesets.
#[derive(Clone, Debug, PartialEq)]
pub enum Game {
    GameOfLife(GameOfLife),
    BriansBrain(BriansBrain),
}

/// Whether the text `s` begins with `prefix`.
fn starts_with(s: &str, prefix: &str) -> (r: bool)
    ensures
        r == prefix@.is_prefix_of(s@),
{
    let n = prefix.unicode_len();
    if s.unicode_len() < n {
        return false;
    }
    let mut i: usize = 0;
    while i < n
        invariant
            n == prefix@.len(),
            n <= s@.len(),
            i <= n,
            forall|j: int| 0 <= j < i ==> prefix@[j] == s@[j],
        decreases n - i,
    {
        if prefix.get_char(i) != s.get_char(i) {
            return false;
        }
        i += 1;
    }
    assert(prefix@ =~= s@.subrange(0, n as int));
    true
}

/// Whether a ruleset name selects Conway's Game of Life.
pub open spec fn names_game_of_life(name: Seq<char>) -> bool {
    "game_of"@.is_prefix_of(name) || "gameof"@.is_prefix_of(name)
}

/// Whether a ruleset name selects Brian's Brain.
pub open spec fn names_brians_brain(name: Seq<char>) -> bool {
    "brian"@.is_prefix_of(name)
}

impl Game {
    /// The simulation of `grid` and `seed` under the ruleset that `name`
    /// selects: Game of Life for a name beginning with "game_of" or "gameof",
    /// Brian's Brain for one beginning with "brian", none for any other name.
    pub fn from_ruleset(name: &str, grid: Grid, seed: u32) -> (r: Option<Game>)
        ensures
            names_game_of_life(name@) ==> r == Some(Game::GameOfLife(GameOfLife { grid, seed })),
            !names_game_of_life(name@) && names_brians_brain(name@) ==> r == Some(
                Game::BriansBrain(BriansBrain { grid, seed }),
            ),
            !names_game_of_life(name@) && !names_brians_brain(name@) ==> r is None,
    {
        if starts_with(name, "game_of") || starts_with(name, "gameof") {
            Some(Game::GameOfLife(GameOfLife { grid, seed }))
        } else if starts_with(name, "brian") {
            Some(Game::BriansBrain(BriansBrain { grid, seed }))
        } else {
            None
        }
    }
}

impl Generation for Game {
    open spec fn seed_view(&self) -> u32 {
        match self {
            Game::GameOfLife(g) => g.seed,
            Game::BriansBrain(g) => g.seed,
        }
    }

    open spec fn grid_view(&self) -> Grid {
        match self {
            Game::GameOfLife(g) => g.grid,
            Game::BriansBrain(g) => g.grid,
        }
    }

    open spec fn successor(&self, b: Seq<Seq<Cell>>) -> Seq<Seq<Cell>> {
        match self {
            Game::GameOfLife(_) => life_step(b),
            Game::BriansBrain(_) => brain_step(b),
        }
    }

    fn seed(&self) -> (r: &u32) {
        match self {
            Game::GameOfLife(g) => &g.seed,
            Game::BriansBrain(g) => &g.seed,
        }
    }

    fn grid(&self) -> (r: &Grid) {
        match self {
            Game::GameOfLife(g) => &g.grid,
            Game::BriansBrain(g) => &g.grid,
        }
    }

    fn next(&mut self)
        ensures
            *old(self) is GameOfLife ==> *final(self) is GameOfLife,
            *old(self) is BriansBrain ==> *final(self) is BriansBrain,
    {
        match self {
            Game::GameOfLife(g) => g.next(),
            Game::BriansBrain(g) => g.next(),
        }
    }
}

/// What the program runs: one simulation.
pub struct World {
    pub game: Game,
}

} // verus!
