use vstd::prelude::*;

verus! {

/// The mathematical content of one board position: where it is and what it
/// shows. An empty `glyph` means that nothing occupies the position.
pub struct Cell {
    pub x: int,
    pub y: int,
    pub glyph: Seq<char>,
}

impl Cell {
    /// A cell is occupied exactly when it has something to show.
    pub open spec fn occupied(self) -> bool {
        self.glyph.len() != 0
    }

    /// The same glyph, displaced by `(dx, dy)`.
    pub open spec fn shifted(self, dx: int, dy: int) -> Cell {
        Cell { x: self.x + dx, y: self.y + dy, glyph: self.glyph }
    }

    /// The unoccupied cell at the origin.
    pub open spec fn blank() -> Cell {
        Cell { x: 0, y: 0, glyph: Seq::empty() }
    }
}

/// The glyph of every cell of a falling piece: an opening bracket, a space
/// and a closing bracket.
pub open spec fn block_glyph() -> Seq<char> {
    seq!['[', ' ', ']']
}

/// The block glyph as a string literal spells out `block_glyph()`.
pub proof fn lemma_block_literal()
    ensures
        "[ ]"@ == block_glyph(),
{
    reveal_strlit("[ ]");
    assert("[ ]"@ =~= block_glyph());
}

/// One drawn character `[ ]` together with its position on the board.
#[derive(Copy, Clone)]
pub struct TetrominoCharacter {
    pub x: i32,
    pub y: i32,
    pub value: &'static str,
}

impl View for TetrominoCharacter {
    type V = Cell;

    open spec fn view(&self) -> Cell {
        Cell { x: self.x as int, y: self.y as int, glyph: self.value@ }
    }
}

impl TetrominoCharacter {
    pub fn new(x_pos: i32, y_pos: i32, value: &'static str) -> (c: TetrominoCharacter)
        ensures
            c.x == x_pos,
            c.y == y_pos,
            c.value == value,
    {
        TetrominoCharacter { x: x_pos, y: y_pos, value }
    }

    /// The unoccupied character at the origin.
    pub fn default() -> (c: TetrominoCharacter)
        ensures
            c@ == Cell::blank(),
    {
        proof {
            reveal_strlit("");
            assert(""@ =~= Seq::<char>::empty());
        }
        TetrominoCharacter { x: 0, y: 0, value: "" }
    }

    /// Whether the character shows anything.
    pub fn is_occupied(&self) -> (r: bool)
        ensures
            r == self@.occupied(),
    {
        !self.value.is_empty()
    }

    /// Displaces the character by `(x_units, y_units)`, keeping its glyph.
    pub fn move_character(&mut self, x_units: i32, y_units: i32)
        requires
            i32::MIN <= old(self).x + x_units <= i32::MAX,
            i32::MIN <= old(self).y + y_units <= i32::MAX,
        ensures
            final(self)@ == old(self)@.shifted(x_units as int, y_units as int),
            final(self).value == old(self).value,
    {
        self.x = self.x + x_units;
        self.y = self.y + y_units;
    }
}

} // verus!
