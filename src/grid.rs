use crate::cell::Cell;
use itertools::Itertools;
use vstd::prelude::*;

verus! {

/// Rows of cells, top to bottom; each row left to right.
#[derive(Clone, Debug, PartialEq)]
pub struct Grid {
    pub cells: Vec<Vec<Cell>>,
}

/// Width of a board: the length of its first row, 0 when it has no row.
pub open spec fn board_width(b: Seq<Seq<Cell>>) -> int {
    if b.len() == 0 {
        0
    } else {
        b[0].len() as int
    }
}

/// A board is rectangular, fits `u32` coordinates, and each cell carries the
/// coordinates of the place it stands at.
pub open spec fn board_wf(b: Seq<Seq<Cell>>) -> bool {
    &&& b.len() <= u32::MAX
    &&& board_width(b) <= u32::MAX
    &&& forall|y: int| 0 <= y < b.len() ==> #[trigger] b[y].len() == board_width(b)
    &&& forall|x: int, y: int|
        0 <= y < b.len() && 0 <= x < b[y].len() ==> (#[trigger] b[y][x]).x == x && b[y][x].y == y
}

/// No cell of the board is alive or dying.
pub open spec fn all_dead(b: Seq<Seq<Cell>>) -> bool {
    forall|x: int, y: int| 0 <= y < b.len() && 0 <= x < b[y].len() ==> !(#[trigger] b[y][x]).alive && !b[y][x].dying
}

/// A `width` by `height` board with the given glyphs, where the cells at
/// `alive_cells` are alive, those at `dying_cells` (and not alive) dying, and
/// all others dead.
pub open spec fn board_built_from(
    b: Seq<Seq<Cell>>,
    width: u32,
    height: u32,
    dead: Seq<char>,
    dying: Seq<char>,
    alive: Seq<char>,
    alive_cells: Seq<(u32, u32)>,
    dying_cells: Seq<(u32, u32)>,
) -> bool {
    &&& b.len() == height
    &&& forall|y: int| 0 <= y < height ==> #[trigger] b[y].len() == width
    &&& forall|x: int, y: int|
        0 <= y < height && 0 <= x < width ==> {
            let c = #[trigger] b[y][x];
            let is_alive = alive_cells.contains((x as u32, y as u32));
            &&& c.x == x
            &&& c.y == y
            &&& c.dead_character@ == dead
            &&& c.dying_character@ == dying
            &&& c.alive_character@ == alive
            &&& c.alive == is_alive
            &&& c.dying == (!is_alive && dying_cells.contains((x as u32, y as u32)))
        }
}

/// `parts` with `sep` between each two neighbouring parts.
pub open spec fn joined(parts: Seq<Seq<char>>, sep: Seq<char>) -> Seq<char>
    decreases parts.len(),
{
    if parts.len() == 0 {
        Seq::empty()
    } else if parts.len() == 1 {
        parts[0]
    } else {
        joined(parts.drop_last(), sep) + sep + parts.last()
    }
}

/// The text of one row: its glyphs separated by single spaces.
pub open spec fn row_text(row: Seq<Cell>) -> Seq<char> {
    joined(row.map_values(|c: Cell| c.glyph()), " "@)
}

/// Whether every row of the board is empty (so is a board without rows).
pub open spec fn no_cells(b: Seq<Seq<Cell>>) -> bool {
    forall|y: int| 0 <= y < b.len() ==> #[trigger] b[y].len() == 0
}

/// The text of a board: its rows separated by newlines, no trailing newline;
/// empty when the board holds no cell.
pub open spec fn board_text(b: Seq<Seq<Cell>>) -> Seq<char> {
    if no_cells(b) {
        Seq::empty()
    } else {
        joined(b.map_values(|row: Seq<Cell>| row_text(row)), "\n"@)
    }
}

/// The pieces of `s` between occurrences of `sep`, as `str::split` gives them
/// for a `char` separator.
pub open spec fn split_on(s: Seq<char>, sep: char) -> Seq<Seq<char>>
    decreases s.len(),
{
    if s.len() == 0 {
        seq![Seq::empty()]
    } else {
        let prev = split_on(s.drop_last(), sep);
        if s.last() == sep {
            prev.push(Seq::empty())
        } else {
            prev.update(prev.len() - 1, prev.last().push(s.last()))
        }
    }
}

proof fn lemma_split_on_not_empty(s: Seq<char>, sep: char)
    ensures
        split_on(s, sep).len() >= 1,
    decreases s.len(),
{
    if s.len() > 0 {
        lemma_split_on_not_empty(s.drop_last(), sep);
    }
}

/// Text without the separator extends the last piece.
proof fn lemma_split_on_extend(a: Seq<char>, b: Seq<char>, sep: char)
    requires
        !b.contains(sep),
    ensures
        split_on(a + b, sep) == split_on(a, sep).update(
            split_on(a, sep).len() - 1,
            split_on(a, sep).last() + b,
        ),
    decreases b.len(),
{
    lemma_split_on_not_empty(a, sep);
    let pa = split_on(a, sep);
    if b.len() == 0 {
        assert(a + b =~= a);
        assert(pa.last() + b =~= pa.last());
        assert(pa.update(pa.len() - 1, pa.last() + b) =~= pa);
    } else {
        let b0 = b.drop_last();
        assert(!b0.contains(sep)) by {
            if b0.contains(sep) {
                let i = choose|i: int| 0 <= i < b0.len() && b0[i] == sep;
                assert(b[i] == sep);
            }
        }
        assert(b.last() != sep) by {
            assert(b[b.len() - 1] == b.last());
        }
        lemma_split_on_extend(a, b0, sep);
        assert((a + b).drop_last() =~= a + b0);
        assert((a + b).last() == b.last());
        assert((pa.last() + b0).push(b.last()) =~= pa.last() + b);
        assert(split_on(a + b, sep) =~= pa.update(pa.len() - 1, pa.last() + b));
    }
}

/// Splitting parts joined by a separator that none of them holds gives the
/// parts back.
pub proof fn lemma_split_joined(parts: Seq<Seq<char>>, sep: char)
    requires
        parts.len() >= 1,
        forall|i: int| 0 <= i < parts.len() ==> !(#[trigger] parts[i]).contains(sep),
    ensures
        split_on(joined(parts, seq![sep]), sep) == parts,
    decreases parts.len(),
{
    if parts.len() == 1 {
        lemma_split_on_extend(Seq::empty(), parts[0], sep);
        assert(Seq::<char>::empty() + parts[0] =~= parts[0]);
        assert(split_on(Seq::empty(), sep).last() + parts[0] =~= parts[0]);
        assert(split_on(parts[0], sep) =~= parts);
    } else {
        let init = parts.drop_last();
        lemma_split_joined(init, sep);
        let a = joined(init, seq![sep]) + seq![sep];
        lemma_split_on_extend(a, parts.last(), sep);
        assert(a.drop_last() =~= joined(init, seq![sep]));
        assert(split_on(a, sep) == init.push(Seq::empty()));
        assert(Seq::<char>::empty() + parts.last() =~= parts.last());
        assert(split_on(joined(parts, seq![sep]), sep) =~= parts);
    }
}

/// Parts and a separator that all lack `c` join into a text that lacks `c`.
proof fn lemma_joined_lacks(parts: Seq<Seq<char>>, sep: Seq<char>, c: char)
    requires
        !sep.contains(c),
        forall|i: int| 0 <= i < parts.len() ==> !(#[trigger] parts[i]).contains(c),
    ensures
        !joined(parts, sep).contains(c),
    decreases parts.len(),
{
    if parts.len() > 1 {
        lemma_joined_lacks(parts.drop_last(), sep, c);
        let j = joined(parts.drop_last(), sep) + sep + parts.last();
        if j.contains(c) {
            let i = choose|i: int| 0 <= i < j.len() && j[i] == c;
            let n1 = joined(parts.drop_last(), sep).len();
            if i < n1 {
                assert(joined(parts.drop_last(), sep)[i] == c);
            } else if i < n1 + sep.len() {
                assert(sep[i - n1] == c);
            } else {
                assert(parts[parts.len() - 1][i - n1 - sep.len()] == c);
            }
        }
    }
}

/// Read back, the text of a grid built with glyphs that hold no space and no
/// newline has one line per row and, in each line, one space-separated glyph
/// per cell: the alive glyph exactly at the alive positions, the dead glyph
/// elsewhere.
pub proof fn lemma_display_round_trip(
    b: Seq<Seq<Cell>>,
    width: u32,
    height: u32,
    dead: Seq<char>,
    dying: Seq<char>,
    alive: Seq<char>,
    alive_cells: Seq<(u32, u32)>,
)
    requires
        width >= 1,
        height >= 1,
        board_built_from(b, width, height, dead, dying, alive, alive_cells, seq![]),
        !dead.contains(' '),
        !dead.contains('\n'),
        !alive.contains(' '),
        !alive.contains('\n'),
    ensures
        split_on(board_text(b), '\n').len() == height,
        forall|y: int|
            0 <= y < height ==> #[trigger] split_on(split_on(board_text(b), '\n')[y], ' ').len()
                == width,
        forall|x: int, y: int|
            0 <= y < height && 0 <= x < width ==> #[trigger] split_on(
                split_on(board_text(b), '\n')[y],
                ' ',
            )[x] == if alive_cells.contains((x as u32, y as u32)) {
                alive
            } else {
                dead
            },
{
    reveal_strlit(" ");
    reveal_strlit("\n");
    assert(" "@ =~= seq![' ']);
    assert("\n"@ =~= seq!['\n']);
    assert(!seq![' '].contains('\n')) by {
        if seq![' '].contains('\n') {
            let i = choose|i: int| 0 <= i < 1 && seq![' '][i] == '\n';
        }
    }
    let rows = b.map_values(|row: Seq<Cell>| row_text(row));
    assert(!no_cells(b)) by {
        assert(b[0].len() == width);
    }
    assert forall|y: int| 0 <= y < height implies split_on(#[trigger] rows[y], ' ') == b[y].map_values(
        |c: Cell| c.glyph(),
    ) && !rows[y].contains('\n') by {
        let glyphs = b[y].map_values(|c: Cell| c.glyph());
        assert forall|x: int| 0 <= x < glyphs.len() implies !(#[trigger] glyphs[x]).contains(' ')
            && !glyphs[x].contains('\n') by {
            assert(b[y][x].glyph() == glyphs[x]);
        }
        lemma_split_joined(glyphs, ' ');
        lemma_joined_lacks(glyphs, " "@, '\n');
    }
    lemma_split_joined(rows, '\n');
    assert forall|x: int, y: int| 0 <= y < height && 0 <= x < width implies #[trigger] split_on(
        split_on(board_text(b), '\n')[y],
        ' ',
    )[x] == if alive_cells.contains((x as u32, y as u32)) {
        alive
    } else {
        dead
    } by {
        assert(split_on(rows[y], ' ')[x] == b[y][x].glyph());
        assert(!seq![].contains((x as u32, y as u32)));
    }
}

/// Relies on itertools' `Itertools::intersperse`, collected into a `String`:
/// the parts in order, with a copy of `sep` between each two of them.
#[verifier::external_body]
fn intersperse_strings(parts: Vec<String>, sep: &str) -> (r: String)
    ensures
        r@ == joined(parts@.map_values(|p: String| p@), sep@),
{
    Itertools::intersperse(parts.into_iter(), sep.to_owned()).collect()
}

fn contains_coord(coords: &Vec<(u32, u32)>, x: u32, y: u32) -> (r: bool)
    ensures
        r == coords@.contains((x, y)),
{
    let mut i: usize = 0;
    while i < coords.len()
        invariant
            i <= coords@.len(),
            forall|j: int| 0 <= j < i ==> coords@[j] != (x, y),
        decreases coords@.len() - i,
    {
        if coords[i].0 == x && coords[i].1 == y {
            assert(coords@[i as int] == (x, y));
            return true;
        }
        i += 1;
    }
    false
}

impl View for Grid {
    type V = Seq<Seq<Cell>>;

    open spec fn view(&self) -> Seq<Seq<Cell>> {
        self.cells@.map_values(|row: Vec<Cell>| row@)
    }
}

impl Grid {
    pub open spec fn wf(&self) -> bool {
        board_wf(self@)
    }

    /// A `width` by `height` grid of dead cells with the default glyphs.
    pub fn new(width: u32, height: u32) -> (r: Grid)
        ensures
            r.wf(),
            r@.len() == height,
            forall|y: int| 0 <= y < height ==> #[trigger] r@[y].len() == width,
            forall|x: int, y: int|
                0 <= y < height && 0 <= x < width ==> (#[trigger] r@[y][x]).is_default_dead(x, y),
    {
        let mut cells: Vec<Vec<Cell>> = Vec::new();
        let mut y: u32 = 0;
        while y < height
            invariant
                y <= height,
                cells@.len() == y,
                forall|j: int| 0 <= j < y ==> #[trigger] cells@[j]@.len() == width,
                forall|i: int, j: int|
                    0 <= j < y && 0 <= i < width ==> (#[trigger] cells@[j]@[i]).is_default_dead(i, j),
            decreases height - y,
        {
            let mut row: Vec<Cell> = Vec::new();
            let mut x: u32 = 0;
            while x < width
                invariant
                    x <= width,
                    row@.len() == x,
                    forall|i: int| 0 <= i < x ==> (#[trigger] row@[i]).is_default_dead(i, y as int),
                decreases width - x,
            {
                row.push(Cell::new(x, y));
                x += 1;
            }
            cells.push(row);
            y += 1;
        }
        Grid { cells }
    }
    /// A `width` by `height` grid with the given glyphs, where the cells at
    /// `alive_cells` are alive, those at `dying_cells` (and not alive) dying,
    /// and all others dead.
    pub fn new_alive_grid(
        width: u32,
        height: u32,
        dead_char: String,
        dying_char: String,
        alive_char: String,
        alive_cells: Vec<(u32, u32)>,
        dying_cells: Vec<(u32, u32)>,
    ) -> (r: Grid)
        ensures
            r.wf(),
            board_built_from(
                r@,
                width,
                height,
                dead_char@,
                dying_char@,
                alive_char@,
                alive_cells@,
                dying_cells@,
            ),
    {
        let mut cells: Vec<Vec<Cell>> = Vec::new();
        let mut y: u32 = 0;
        while y < height
            invariant
                y <= height,
                cells@.len() == y,
                forall|j: int| 0 <= j < y ==> #[trigger] cells@[j]@.len() == width,
                forall|i: int, j: int|
                    0 <= j < y && 0 <= i < width ==> {
                        let c = #[trigger] cells@[j]@[i];
                        let alive = alive_cells@.contains((i as u32, j as u32));
                        &&& c.x == i
                        &&& c.y == j
                        &&& c.dead_character == dead_char
                        &&& c.dying_character == dying_char
                        &&& c.alive_character == alive_char
                        &&& c.alive == alive
                        &&& c.dying == (!alive && dying_cells@.contains((i as u32, j as u32)))
                    },
            decreases height - y,
        {
            let mut row: Vec<Cell> = Vec::new();
            let mut x: u32 = 0;
            while x < width
                invariant
                    x <= width,
                    y < height,
                    row@.len() == x,
                    forall|i: int|
                        0 <= i < x ==> {
                            let c = #[trigger] row@[i];
                            let alive = alive_cells@.contains((i as u32, y));
                            &&& c.x == i
                            &&& c.y == y
                            &&& c.dead_character == dead_char
                            &&& c.dying_character == dying_char
                            &&& c.alive_character == alive_char
                            &&& c.alive == alive
                            &&& c.dying == (!alive && dying_cells@.contains((i as u32, y)))
                        },
                decreases width - x,
            {
                let cell = Cell::new_with_characters(
                    x,
                    y,
                    dead_char.clone(),
                    dying_char.clone(),
                    alive_char.clone(),
                );
                if contains_coord(&alive_cells, x, y) {
                    row.push(cell.set_alive());
                } else if contains_coord(&dying_cells, x, y) {
                    row.push(cell.set_dying());
                } else {
                    row.push(cell);
                }
                x += 1;
            }
            cells.push(row);
            y += 1;
        }
        Grid { cells }
    }

    /// The grid as text: glyphs joined by single spaces within a row, rows
    /// joined by newlines, top to bottom; a grid without cells gives the
    /// empty string.
    pub fn display(&self) -> (r: String)
        ensures
            r@ == board_text(self@),
    {
        let mut lines: Vec<String> = Vec::new();
        let mut any_cell = false;
        let mut y: usize = 0;
        while y < self.cells.len()
            invariant
                y <= self.cells@.len(),
                lines@.len() == y,
                any_cell == exists|j: int| 0 <= j < y && #[trigger] self@[j].len() > 0,
                forall|j: int| 0 <= j < y ==> (#[trigger] lines@[j])@ == row_text(self@[j]),
            decreases self.cells@.len() - y,
        {
            let row = &self.cells[y];
            assert(self@[y as int] == row@);
            if row.len() > 0 {
                any_cell = true;
            }
            let mut glyphs: Vec<String> = Vec::new();
            let mut x: usize = 0;
            while x < row.len()
                invariant
                    x <= row@.len(),
                    glyphs@.len() == x,
                    forall|i: int| 0 <= i < x ==> (#[trigger] glyphs@[i])@ == row@[i].glyph(),
                decreases row@.len() - x,
            {
                glyphs.push(row[x].display().to_owned());
                x += 1;
            }
            assert(glyphs@.map_values(|p: String| p@) =~= row@.map_values(|c: Cell| c.glyph()));
            lines.push(intersperse_strings(glyphs, " "));
            y += 1;
        }
        if !any_cell {
            return String::new();
        }
        assert(lines@.map_values(|p: String| p@) =~= self@.map_values(|row: Seq<Cell>| row_text(row)));
        intersperse_strings(lines, "\n")
    }
}

} // verus!
