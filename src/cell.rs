use vstd::prelude::*;

verus! {

/// One position of the grid: its coordinates, its state, and the glyphs that
/// show each state.
///
/// `alive` takes precedence over `dying` wherever both could be read.
#[derive(Clone, Debug, PartialEq)]
pub struct Cell {
    pub x: u32,
    pub y: u32,
    pub dead_character: String,
    pub dying_character: String,
    pub alive_character: String,
    pub dying: bool,
    pub alive: bool,
}

impl Cell {
    /// The same cell (coordinates and glyphs) in the given state.
    pub open spec fn with_state(self, alive: bool, dying: bool) -> Cell {
        Cell {
            x: self.x,
            y: self.y,
            dead_character: self.dead_character,
            dying_character: self.dying_character,
            alive_character: self.alive_character,
            dying: dying,
            alive: alive,
        }
    }

    /// The glyph that shows the cell's current state.
    pub open spec fn glyph(self) -> Seq<char> {
        if self.alive {
            self.alive_character@
        } else if self.dying {
            self.dying_character@
        } else {
            self.dead_character@
        }
    }

    /// A dead cell at `(x, y)` with the default glyphs.
    pub open spec fn is_default_dead(self, x: int, y: int) -> bool {
        &&& self.x == x
        &&& self.y == y
        &&& self.dead_character@ == "."@
        &&& self.dying_character@ == "x"@
        &&& self.alive_character@ == "*"@
        &&& !self.dying
        &&& !self.alive
    }

    pub fn new(x: u32, y: u32) -> (r: Cell)
        ensures
            r.is_default_dead(x as int, y as int),
    {
        Cell {
            x,
            y,
            dead_character: ".".to_owned(),
            dying_character: "x".to_owned(),
            alive_character: "*".to_owned(),
            dying: false,
            alive: false,
        }
    }

    pub fn new_with_characters(
        x: u32,
        y: u32,
        dead_character: String,
        dying_character: String,
        alive_character: String,
    ) -> (r: Cell)
        ensures
            r == (Cell { x, y, dead_character, dying_character, alive_character, dying: false, alive: false }),
    {
        Cell { x, y, dead_character, dying_character, alive_character, dying: false, alive: false }
    }

    fn with_flags(&self, alive: bool, dying: bool) -> (r: Cell)
        ensures
            r == self.with_state(alive, dying),
    {
        Cell {
            x: self.x,
            y: self.y,
            dead_character: self.dead_character.clone(),
            dying_character: self.dying_character.clone(),
            alive_character: self.alive_character.clone(),
            dying,
            alive,
        }
    }

    /// A copy of this cell in the dead state.
    pub fn set_dead(&self) -> (r: Cell)
        ensures
            r == self.with_state(false, false),
    {
        self.with_flags(false, false)
    }

    /// A copy of this cell in the dying state.
    pub fn set_dying(&self) -> (r: Cell)
        ensures
            r == self.with_state(false, true),
    {
        self.with_flags(false, true)
    }

    /// A copy of this cell in the alive state.
    pub fn set_alive(&self) -> (r: Cell)
        ensures
            r == self.with_state(true, false),
    {
        self.with_flags(true, false)
    }

    /// The glyph of the current state: alive before dying before dead.
    pub fn display(&self) -> (r: &str)
        ensures
            r@ == self.glyph(),
    {
        if self.alive {
            self.alive_character.as_str()
        } else if self.dying {
            self.dying_character.as_str()
        } else {
            self.dead_character.as_str()
        }
    }
}

} // verus!
