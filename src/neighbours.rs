use crate::cell::Cell;
use crate::grid::{board_width, Grid};
use vstd::prelude::*;

verus! {

/// The `k`-th relative position (column, row) looked at around a cell:
/// up-left, left, down-left, up, down, up-right, right, down-right.
pub open spec fn offset(k: int) -> (int, int) {
    if k == 0 {
        (-1, -1)
    } else if k == 1 {
        (-1, 0)
    } else if k == 2 {
        (-1, 1)
    } else if k == 3 {
        (0, -1)
    } else if k == 4 {
        (0, 1)
    } else if k == 5 {
        (1, -1)
    } else if k == 6 {
        (1, 0)
    } else {
        (1, 1)
    }
}

pub open spec fn in_bounds(width: int, height: int, p: (int, int)) -> bool {
    0 <= p.0 < width && 0 <= p.1 < height
}

/// The in-bounds positions among the first `k` offsets around `(x, y)`, in
/// offset order.
pub open spec fn neighbour_coords_upto(width: int, height: int, x: int, y: int, k: nat) -> Seq<
    (int, int),
>
    decreases k,
{
    if k == 0 {
        Seq::empty()
    } else {
        let prev = neighbour_coords_upto(width, height, x, y, (k - 1) as nat);
        let p = (x + offset(k - 1).0, y + offset(k - 1).1);
        if in_bounds(width, height, p) {
            prev.push(p)
        } else {
            prev
        }
    }
}

/// The positions of the neighbours of `(x, y)` in a `width` by `height` grid.
pub open spec fn neighbour_coords(width: int, height: int, x: int, y: int) -> Seq<(int, int)> {
    neighbour_coords_upto(width, height, x, y, 8)
}

/// The number of `true` entries.
pub open spec fn num_true(s: Seq<bool>) -> nat
    decreases s.len(),
{
    if s.len() == 0 {
        0
    } else {
        num_true(s.drop_last()) + if s.last() {
            1nat
        } else {
            0nat
        }
    }
}

/// The number of alive cells in a list of cells.
pub open spec fn alive_count(cells: Seq<&Cell>) -> nat {
    num_true(cells.map_values(|c: &Cell| c.alive))
}

/// The number of alive neighbours of `(x, y)` on a board.
pub open spec fn alive_neighbours(b: Seq<Seq<Cell>>, x: int, y: int) -> nat {
    num_true(
        neighbour_coords(board_width(b), b.len() as int, x, y).map_values(
            |p: (int, int)| b[p.1][p.0].alive,
        ),
    )
}

fn offset_of(k: usize) -> (r: (i64, i64))
    requires
        k < 8,
    ensures
        r.0 == offset(k as int).0,
        r.1 == offset(k as int).1,
{
    if k == 0 {
        (-1, -1)
    } else if k == 1 {
        (-1, 0)
    } else if k == 2 {
        (-1, 1)
    } else if k == 3 {
        (0, -1)
    } else if k == 4 {
        (0, 1)
    } else if k == 5 {
        (1, -1)
    } else if k == 6 {
        (1, 0)
    } else {
        (1, 1)
    }
}

/// The cells around `cell` in the grid, in the order up-left, left,
/// down-left, up, down, up-right, right, down-right; positions outside the
/// grid are skipped.
pub fn find_neighbours<'a>(grid: &'a Grid, cell: &'a Cell) -> (r: Vec<&'a Cell>)
    requires
        grid.wf(),
        cell.y < grid@.len(),
        cell.x < board_width(grid@),
    ensures
        ({
            let coords = neighbour_coords(board_width(grid@), grid@.len() as int, cell.x as int, cell.y as int);
            &&& r@.len() == coords.len()
            &&& forall|i: int| 0 <= i < r@.len() ==> *(#[trigger] r@[i]) == grid@[coords[i].1][coords[i].0]
        }),
        alive_count(r@) == alive_neighbours(grid@, cell.x as int, cell.y as int),
{
    let height = grid.cells.len();
    let width = grid.cells[0].len();
    let ghost (w, h, cx, cy) = (width as int, height as int, cell.x as int, cell.y as int);
    let mut neighbours: Vec<&Cell> = Vec::new();
    let mut k: usize = 0;
    while k < 8
        invariant
            k <= 8,
            grid.wf(),
            height == grid@.len(),
            width == board_width(grid@),
            cell.y < height,
            cell.x < width,
            w == width,
            h == height,
            cx == cell.x,
            cy == cell.y,
            neighbours@.len() == neighbour_coords_upto(w, h, cx, cy, k as nat).len(),
            forall|i: int| 0 <= i < neighbours@.len() ==> {
                let p = #[trigger] neighbour_coords_upto(w, h, cx, cy, k as nat)[i];
                &&& in_bounds(width as int, height as int, p)
                &&& *neighbours@[i] == grid@[p.1][p.0]
            },
        decreases 8 - k,
    {
        let (dx, dy) = offset_of(k);
        let nx: i64 = cell.x as i64 + dx;
        let ny: i64 = cell.y as i64 + dy;
        proof {
            assert(neighbour_coords_upto(w, h, cx, cy, (k + 1) as nat) == {
                let prev = neighbour_coords_upto(w, h, cx, cy, k as nat);
                let p = (cx + offset(k as int).0, cy + offset(k as int).1);
                if in_bounds(w, h, p) {
                    prev.push(p)
                } else {
                    prev
                }
            });
        }
        if 0 <= nx && nx < width as i64 && 0 <= ny && ny < height as i64 {
            assert(grid@[ny as int] == grid.cells@[ny as int]@);
            neighbours.push(&grid.cells[ny as usize][nx as usize]);
        }
        k += 1;
    }
    assert(neighbours@.map_values(|c: &Cell| c.alive) =~= neighbour_coords(w, h, cx, cy).map_values(
        |p: (int, int)| grid@[p.1][p.0].alive,
    ));
    neighbours
}

/// How many of `cells` are alive.
pub fn count_alive(cells: &Vec<&Cell>) -> (r: usize)
    ensures
        r == alive_count(cells@),
{
    let ghost flags = cells@.map_values(|c: &Cell| c.alive);
    let mut count: usize = 0;
    let mut i: usize = 0;
    while i < cells.len()
        invariant
            i <= cells@.len(),
            flags == cells@.map_values(|c: &Cell| c.alive),
            count == num_true(flags.take(i as int)),
            count <= i,
        decreases cells@.len() - i,
    {
        assert(flags.take(i + 1).drop_last() =~= flags.take(i as int));
        if cells[i].alive {
            count += 1;
        }
        i += 1;
    }
    assert(flags.take(i as int) =~= flags);
    count
}

/// Whether `p` lies on the first or last of `n` lines.
pub open spec fn on_border(p: int, n: int) -> bool {
    p == 0 || p == n - 1
}

/// In a grid of at least 2 by 2, a corner cell has 3 neighbours, any other
/// cell of the border 5, and an inner cell 8; the one cell of a 1 by 1 grid
/// has none.
pub proof fn lemma_neighbour_counts(width: int, height: int, x: int, y: int)
    requires
        0 <= x < width,
        0 <= y < height,
    ensures
        ({
            let n = neighbour_coords(width, height, x, y).len();
            &&& width >= 2 && height >= 2 && on_border(x, width) && on_border(y, height) ==> n == 3
            &&& width >= 2 && height >= 2 && on_border(x, width) != on_border(y, height) ==> n == 5
            &&& !on_border(x, width) && !on_border(y, height) ==> n == 8
            &&& width == 1 && height == 1 ==> n == 0
        }),
{
    reveal_with_fuel(neighbour_coords_upto, 9);
}

/// The number of alive cells among the first `k` offsets around `(x, y)`.
pub open spec fn alive_around_upto(b: Seq<Seq<Cell>>, x: int, y: int, k: nat) -> nat
    decreases k,
{
    if k == 0 {
        0
    } else {
        let p = (x + offset(k - 1).0, y + offset(k - 1).1);
        alive_around_upto(b, x, y, (k - 1) as nat) + if in_bounds(board_width(b), b.len() as int, p)
            && b[p.1][p.0].alive {
            1nat
        } else {
            0nat
        }
    }
}

proof fn lemma_coords_upto_in_bounds(width: int, height: int, x: int, y: int, k: nat)
    ensures
        forall|i: int|
            0 <= i < neighbour_coords_upto(width, height, x, y, k).len() ==> in_bounds(
                width,
                height,
                #[trigger] neighbour_coords_upto(width, height, x, y, k)[i],
            ),
    decreases k,
{
    if k > 0 {
        lemma_coords_upto_in_bounds(width, height, x, y, (k - 1) as nat);
        let prev = neighbour_coords_upto(width, height, x, y, (k - 1) as nat);
        let cur = neighbour_coords_upto(width, height, x, y, k);
        assert forall|i: int| 0 <= i < cur.len() implies in_bounds(width, height, #[trigger] cur[i]) by {
            if i < prev.len() {
                assert(cur[i] == prev[i]);
            }
        }
    }
}

proof fn lemma_alive_around_upto(b: Seq<Seq<Cell>>, x: int, y: int, k: nat)
    ensures
        num_true(
            neighbour_coords_upto(board_width(b), b.len() as int, x, y, k).map_values(
                |p: (int, int)| b[p.1][p.0].alive,
            ),
        ) == alive_around_upto(b, x, y, k),
    decreases k,
{
    if k > 0 {
        let (w, h) = (board_width(b), b.len() as int);
        let f = |p: (int, int)| b[p.1][p.0].alive;
        lemma_alive_around_upto(b, x, y, (k - 1) as nat);
        let prev = neighbour_coords_upto(w, h, x, y, (k - 1) as nat);
        let p = (x + offset(k - 1).0, y + offset(k - 1).1);
        if in_bounds(w, h, p) {
            assert(prev.push(p).map_values(f).drop_last() =~= prev.map_values(f));
        }
    }
}

/// The alive neighbours of `(x, y)`, counted offset by offset.
pub proof fn lemma_alive_neighbours_by_offsets(b: Seq<Seq<Cell>>, x: int, y: int)
    ensures
        alive_neighbours(b, x, y) == alive_around_upto(b, x, y, 8),
{
    lemma_alive_around_upto(b, x, y, 8);
}

proof fn lemma_num_true_none(s: Seq<bool>)
    requires
        forall|i: int| 0 <= i < s.len() ==> !s[i],
    ensures
        num_true(s) == 0,
    decreases s.len(),
{
    if s.len() > 0 {
        lemma_num_true_none(s.drop_last());
    }
}

/// A cell whose neighbours are all not alive has no alive neighbour.
pub proof fn lemma_no_alive_neighbours(b: Seq<Seq<Cell>>, x: int, y: int)
    requires
        forall|i: int, j: int|
            0 <= j < b.len() && 0 <= i < board_width(b) ==> !(#[trigger] b[j][i]).alive,
    ensures
        alive_neighbours(b, x, y) == 0,
{
    let (w, h) = (board_width(b), b.len() as int);
    let coords = neighbour_coords(w, h, x, y);
    lemma_coords_upto_in_bounds(w, h, x, y, 8);
    let flags = coords.map_values(|p: (int, int)| b[p.1][p.0].alive);
    assert forall|i: int| 0 <= i < flags.len() implies !flags[i] by {
        assert(in_bounds(w, h, coords[i]));
    }
    lemma_num_true_none(flags);
}

} // verus!
