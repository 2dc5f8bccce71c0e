use crate::game_of_life::GameOfLife;
use crate::grid::{board_built_from, Grid};
use crate::world::{Game, World};
use vstd::prelude::*;

verus! {

/// The alive cells of the "gosper" preset.
pub open spec fn gosper_cells() -> Seq<(u32, u32)> {
    seq![
        (25, 1), (23, 2), (25, 2), (13, 3), (14, 3), (21, 3), (22, 3), (35, 3), (36, 3),
        (12, 4), (16, 4), (21, 4), (22, 4), (35, 4), (36, 3), (1, 5), (2, 5), (11, 5),
        (17, 5), (21, 5), (22, 5), (1, 6), (2, 6), (11, 6), (15, 6), (17, 6), (18, 6),
        (23, 6), (25, 6), (11, 7), (17, 7), (25, 7), (12, 8), (16, 8), (13, 9), (14, 9),
    ]
}

fn gosper_coords() -> (r: Vec<(u32, u32)>)
    ensures
        r@ == gosper_cells(),
{
    let r: Vec<(u32, u32)> = vec![
        (25, 1), (23, 2), (25, 2), (13, 3), (14, 3), (21, 3), (22, 3), (35, 3), (36, 3),
        (12, 4), (16, 4), (21, 4), (22, 4), (35, 4), (36, 3), (1, 5), (2, 5), (11, 5),
        (17, 5), (21, 5), (22, 5), (1, 6), (2, 6), (11, 6), (15, 6), (17, 6), (18, 6),
        (23, 6), (25, 6), (11, 7), (17, 7), (25, 7), (12, 8), (16, 8), (13, 9), (14, 9),
    ];
    assert(r@ =~= gosper_cells());
    r
}

/// The preset world named `key`: "gosper" is a 40 by 40 Game of Life with
/// seed 0 whose alive cells are `gosper_cells()`; there is no other.
pub fn find(key: &String) -> (r: Option<World>)
    ensures
        key@ == "gosper"@ <==> r is Some,
        r matches Some(w) ==> w.game matches Game::GameOfLife(g) && g.seed == 0 && g.grid.wf()
            && board_built_from(g.grid@, 40, 40, "."@, "x"@, "#"@, gosper_cells(), seq![]),
{
    let gosper = "gosper".to_owned();
    if *key == gosper {
        let dying_cells: Vec<(u32, u32)> = Vec::new();
        let grid = Grid::new_alive_grid(
            40,
            40,
            ".".to_owned(),
            "x".to_owned(),
            "#".to_owned(),
            gosper_coords(),
            dying_cells,
        );
        assert(dying_cells@ =~= seq![]);
        Some(World { game: Game::GameOfLife(GameOfLife { grid, seed: 0 }) })
    } else {
        None
    }
}

} // verus!
