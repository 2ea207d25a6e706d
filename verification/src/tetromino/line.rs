use vstd::prelude::*;
use crate::tetromino::characters::{block_glyph, lemma_block_literal, Cell, TetrominoCharacter};

verus! {

/// The mathematical content of a line: an anchor and the cells drawn from it.
pub struct Row {
    pub x: int,
    pub y: int,
    pub cells: Seq<Cell>,
}

impl Row {
    /// `n` block cells side by side, the leftmost at `(x, y)`. A count of zero
    /// or less gives the empty row anchored at `(x, y)`.
    pub open spec fn run(x: int, y: int, n: int) -> Row {
        Row {
            x,
            y,
            cells: Seq::new(
                if n > 0 { n as nat } else { 0 },
                |i: int| Cell { x: x + i, y, glyph: block_glyph() },
            ),
        }
    }

    /// A row without cells stands for an unused slot of a piece.
    pub open spec fn is_empty(self) -> bool {
        self.cells.len() == 0
    }

    /// All cells lie on the anchor's height and follow each other from the
    /// anchor rightwards without a gap.
    pub open spec fn contiguous(self) -> bool {
        forall|i: int|
            0 <= i < self.cells.len() ==> (#[trigger] self.cells[i]).x == self.x + i
                && self.cells[i].y == self.y
    }

    /// The row displaced as a whole by `(dx, dy)`.
    pub open spec fn shifted(self, dx: int, dy: int) -> Row {
        Row {
            x: self.x + dx,
            y: self.y + dy,
            cells: Seq::new(self.cells.len(), |i: int| self.cells[i].shifted(dx, dy)),
        }
    }

    /// Anchor and cells all have coordinates that a machine integer holds.
    pub open spec fn representable(self) -> bool {
        &&& i32::MIN <= self.x <= i32::MAX
        &&& i32::MIN <= self.y <= i32::MAX
        &&& forall|i: int|
            0 <= i < self.cells.len() ==> i32::MIN <= (#[trigger] self.cells[i]).x <= i32::MAX
                && i32::MIN <= self.cells[i].y <= i32::MAX
    }

    /// The glyphs of the first `n` cells, written one after the other.
    pub open spec fn text_upto(self, n: int) -> Seq<char>
        decreases n,
    {
        if n <= 0 || n > self.cells.len() {
            Seq::empty()
        } else {
            self.text_upto(n - 1) + self.cells[n - 1].glyph
        }
    }

    /// What the row shows: the glyphs of its cells from left to right.
    pub open spec fn text(self) -> Seq<char> {
        self.text_upto(self.cells.len() as int)
    }
}

/// A run of cells is contiguous.
pub proof fn lemma_run_contiguous(x: int, y: int, n: int)
    ensures
        Row::run(x, y, n).contiguous(),
{
}

/// A contiguous row displaced as a whole is contiguous.
pub proof fn lemma_shifted_contiguous(row: Row, dx: int, dy: int)
    requires
        row.contiguous(),
    ensures
        row.shifted(dx, dy).contiguous(),
{
    let after = row.shifted(dx, dy);
    assert forall|i: int| 0 <= i < after.cells.len() implies (#[trigger] after.cells[i]).x
        == after.x + i && after.cells[i].y == after.y by {
        assert(row.cells[i].x == row.x + i);
    }
}

/// The cells that a sequence of characters stands for.
pub open spec fn cells_of(characters: Seq<TetrominoCharacter>) -> Seq<Cell> {
    Seq::new(characters.len(), |i: int| characters[i]@)
}

/// Whether the number is one that a 32-bit machine integer holds.
pub fn fits_i32(value: i64) -> (fits: bool)
    ensures
        fits == (i32::MIN <= value <= i32::MAX),
{
    -2147483648 <= value && value <= 2147483647
}

/// A horizontal run of characters of a piece, anchored at its left end.
pub struct Line {
    pub x: i32,
    pub y: i32,
    pub characters: Vec<TetrominoCharacter>,
}

impl View for Line {
    type V = Row;

    open spec fn view(&self) -> Row {
        Row { x: self.x as int, y: self.y as int, cells: cells_of(self.characters@) }
    }
}

impl Line {
    /// A line of `num` block characters starting at `(x_pos, y_pos)`.
    pub fn new(x_pos: i32, y_pos: i32, num: i32) -> (line: Line)
        requires
            x_pos + num - 1 <= i32::MAX,
        ensures
            line@ == Row::run(x_pos as int, y_pos as int, num as int),
            line@.contiguous(),
    {
        Line { x: x_pos, y: y_pos, characters: Line::create_characters(x_pos, y_pos, num) }
    }

    /// `num` block characters side by side, the leftmost at `(x_pos, y_pos)`.
    pub fn create_characters(x_pos: i32, y_pos: i32, num: i32) -> (characters: Vec<
        TetrominoCharacter,
    >)
        requires
            x_pos + num - 1 <= i32::MAX,
        ensures
            cells_of(characters@) == Row::run(x_pos as int, y_pos as int, num as int).cells,
    {
        let mut characters: Vec<TetrominoCharacter> = Vec::new();
        let mut i: i32 = 0;
        while i < num
            invariant
                0 <= i,
                num > 0 ==> i <= num,
                num <= 0 ==> i == 0,
                x_pos + num - 1 <= i32::MAX,
                characters@.len() == i,
                forall|k: int|
                    0 <= k < i ==> (#[trigger] characters@[k])@ == (Cell {
                        x: x_pos + k,
                        y: y_pos as int,
                        glyph: block_glyph(),
                    }),
            decreases num - i,
        {
            proof {
                lemma_block_literal();
            }
            characters.push(TetrominoCharacter::new(x_pos + i, y_pos, "[ ]"));
            i = i + 1;
        }
        assert(cells_of(characters@) =~= Row::run(x_pos as int, y_pos as int, num as int).cells);
        characters
    }

    /// Whether the line has no characters, which marks a slot that the piece
    /// does not use.
    pub fn is_empty(&self) -> (r: bool)
        ensures
            r == self@.is_empty(),
    {
        self.characters.len() == 0
    }

    /// Whatever a line holds has coordinates that a machine integer holds.
    pub proof fn lemma_representable(&self)
        ensures
            self@.representable(),
    {
    }

    /// Whether the line can be displaced by `(x_units, y_units)` without a
    /// coordinate leaving the machine integers.
    pub fn can_shift(&self, x_units: i32, y_units: i32) -> (ok: bool)
        ensures
            ok == self@.shifted(x_units as int, y_units as int).representable(),
    {
        let ghost after = self@.shifted(x_units as int, y_units as int);
        if !fits_i32(self.x as i64 + x_units as i64) || !fits_i32(self.y as i64 + y_units as i64) {
            return false;
        }
        let n: usize = self.characters.len();
        let mut i: usize = 0;
        while i < n
            invariant
                i <= n,
                n == self.characters@.len(),
                after == self@.shifted(x_units as int, y_units as int),
                forall|k: int|
                    0 <= k < i ==> i32::MIN <= (#[trigger] after.cells[k]).x <= i32::MAX && i32::MIN
                        <= after.cells[k].y <= i32::MAX,
            decreases n - i,
        {
            let character: TetrominoCharacter = self.characters[i];
            assert(after.cells[i as int] == character@.shifted(x_units as int, y_units as int));
            if !fits_i32(character.x as i64 + x_units as i64) || !fits_i32(
                character.y as i64 + y_units as i64,
            ) {
                return false;
            }
            i = i + 1;
        }
        true
    }

    /// Displaces the anchor and every character by `(x_units, y_units)`.
    pub fn move_line(&mut self, x_units: i32, y_units: i32)
        requires
            old(self)@.shifted(x_units as int, y_units as int).representable(),
        ensures
            final(self)@ == old(self)@.shifted(x_units as int, y_units as int),
            old(self)@.contiguous() ==> final(self)@.contiguous(),
    {
        proof {
            if old(self)@.contiguous() {
                lemma_shifted_contiguous(old(self)@, x_units as int, y_units as int);
            }
        }
        let ghost before = self@;
        let ghost after = before.shifted(x_units as int, y_units as int);
        self.x = self.x + x_units;
        self.y = self.y + y_units;
        let n: usize = self.characters.len();
        let mut i: usize = 0;
        while i < n
            invariant
                i <= n,
                n == self.characters@.len(),
                n == before.cells.len(),
                after == before.shifted(x_units as int, y_units as int),
                after.representable(),
                self.x == after.x,
                self.y == after.y,
                forall|k: int| 0 <= k < i ==> (#[trigger] self.characters@[k])@ == after.cells[k],
                forall|k: int| i <= k < n ==> (#[trigger] self.characters@[k])@ == before.cells[k],
            decreases n - i,
        {
            let mut character: TetrominoCharacter = self.characters[i];
            assert(character@ == before.cells[i as int]);
            assert(after.cells[i as int] == before.cells[i as int].shifted(
                x_units as int,
                y_units as int,
            ));
            character.move_character(x_units, y_units);
            self.characters.set(i, character);
            i = i + 1;
        }
        assert(self@.cells =~= after.cells);
    }

    /// What the line shows: the glyphs of its characters from left to right.
    pub fn to_string(&self) -> (text: String)
        ensures
            text@ == self@.text(),
    {
        let mut text: String = String::new();
        let n: usize = self.characters.len();
        let mut i: usize = 0;
        assert(text@ =~= self@.text_upto(0));
        while i < n
            invariant
                i <= n,
                n == self.characters@.len(),
                text@ == self@.text_upto(i as int),
            decreases n - i,
        {
            text.append(self.characters[i].value);
            i = i + 1;
            assert(self@.cells[i - 1].glyph == self.characters@[i - 1].value@);
            assert(text@ =~= self@.text_upto(i as int));
        }
        text
    }
}

} // verus!
