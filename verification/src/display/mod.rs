use vstd::prelude::*;
use crate::tetromino::characters::{Cell, TetrominoCharacter};
use crate::tetromino::line::{Line, Row};
use crate::tetromino::piece::Piece;
use crate::tetromino::tetromino::Tetromino;
use crate::board::grid_of;
use crate::{HEIGHT, WIDTH};

verus! {

/// What the left border column shows.
pub open spec fn left_border_glyph() -> Seq<char> {
    seq!['<', '!']
}

/// What the right border column shows.
pub open spec fn right_border_glyph() -> Seq<char> {
    seq!['!', '>']
}

/// What a playable position shows while nothing stands on it.
pub open spec fn background_glyph() -> Seq<char> {
    seq![' ', '.', ' ']
}

/// What column `c` of the empty board shows.
pub open spec fn backdrop_glyph(c: int) -> Seq<char> {
    if c == 0 {
        left_border_glyph()
    } else if c == WIDTH - 1 {
        right_border_glyph()
    } else {
        background_glyph()
    }
}

/// Fills the screen with the empty board: the borders at both ends of every
/// row and the background between them.
pub fn create_screen(screen: &mut [[&str; WIDTH]; HEIGHT])
    ensures
        forall|r: int, c: int|
            0 <= r < HEIGHT && 0 <= c < WIDTH ==> (#[trigger] final(screen)[r][c])@
                == backdrop_glyph(c),
{
    proof {
        reveal_strlit("<!");
        reveal_strlit(" . ");
        reveal_strlit("!>");
        assert("<!"@ =~= left_border_glyph());
        assert(" . "@ =~= background_glyph());
        assert("!>"@ =~= right_border_glyph());
    }
    let mut i: usize = 0;
    while i < HEIGHT
        invariant
            i <= HEIGHT,
            "<!"@ == left_border_glyph(),
            " . "@ == background_glyph(),
            "!>"@ == right_border_glyph(),
            forall|r: int, c: int|
                0 <= r < i && 0 <= c < WIDTH ==> (#[trigger] screen[r][c])@ == backdrop_glyph(c),
        decreases HEIGHT - i,
    {
        screen[i][0] = "<!";
        let mut j: usize = 1;
        while j < WIDTH - 1
            invariant
                1 <= j <= WIDTH - 1,
                i < HEIGHT,
                "<!"@ == left_border_glyph(),
                " . "@ == background_glyph(),
                "!>"@ == right_border_glyph(),
                forall|r: int, c: int|
                    0 <= r < i && 0 <= c < WIDTH ==> (#[trigger] screen[r][c])@ == backdrop_glyph(
                        c,
                    ),
                forall|c: int| 0 <= c < j ==> (#[trigger] screen[i as int][c])@ == backdrop_glyph(c),
            decreases WIDTH - j,
        {
            screen[i][j] = " . ";
            j = j + 1;
        }
        screen[i][WIDTH - 1] = "!>";
        i = i + 1;
    }
}

/// The glyphs of the empty board, row by row.
pub open spec fn backdrop_of(screen: [[&str; WIDTH]; HEIGHT]) -> Seq<Seq<Seq<char>>> {
    Seq::new(HEIGHT as nat, |r: int| Seq::new(WIDTH as nat, |c: int| screen[r][c]@))
}

/// The board's cell in column `j` of row `i` is a locked cell that belongs
/// there: it is occupied and names that very position.
pub open spec fn locked_at(cell: Cell, i: int, j: int) -> bool {
    cell.x == j && cell.y == i && cell.occupied()
}

/// The row has cells and is anchored in column `j` of row `i`.
pub open spec fn anchored_at(row: Row, i: int, j: int) -> bool {
    !row.is_empty() && row.x == j && row.y == i
}

/// What row `i` of the board shows from column `j` on. A locked cell that
/// belongs to the column is shown and the next column follows. Else the
/// uppermost row of the piece that is anchored there is shown whole, and the
/// column after its last cell follows. Else the empty board shows through and
/// the next column follows.
pub open spec fn drawn_row(
    backdrop: Seq<Seq<char>>,
    piece: Piece,
    locked: Seq<Cell>,
    i: int,
    j: int,
) -> Seq<char>
    recommends
        backdrop.len() == WIDTH,
        locked.len() == WIDTH,
    decreases (if j < WIDTH { WIDTH - j } else { 0 }),
{
    if j < 0 || j >= WIDTH {
        Seq::empty()
    } else if locked_at(locked[j], i, j) {
        locked[j].glyph + drawn_row(backdrop, piece, locked, i, j + 1)
    } else if anchored_at(piece.first, i, j) {
        piece.first.text() + drawn_row(backdrop, piece, locked, i, j + piece.first.cells.len())
    } else if anchored_at(piece.second, i, j) {
        piece.second.text() + drawn_row(backdrop, piece, locked, i, j + piece.second.cells.len())
    } else if anchored_at(piece.third, i, j) {
        piece.third.text() + drawn_row(backdrop, piece, locked, i, j + piece.third.cells.len())
    } else if anchored_at(piece.fourth, i, j) {
        piece.fourth.text() + drawn_row(backdrop, piece, locked, i, j + piece.fourth.cells.len())
    } else {
        backdrop[j] + drawn_row(backdrop, piece, locked, i, j + 1)
    }
}

/// Whether the line has characters and is anchored in column `j` of row `i`.
fn line_at(line: &Line, i: usize, j: usize) -> (there: bool)
    ensures
        there == anchored_at(line@, i as int, j as int),
{
    !line.is_empty() && line.x >= 0 && line.y >= 0 && line.x as usize == j && line.y as usize == i
}

/// What row `i` of the board shows.
fn display_row(
    screen: &[[&str; WIDTH]; HEIGHT],
    current_tetromino: &Tetromino,
    built_tetrominoes: &[[TetrominoCharacter; WIDTH]; HEIGHT],
    i: usize,
) -> (text: String)
    requires
        i < HEIGHT,
    ensures
        text@ == drawn_row(
            backdrop_of(*screen)[i as int],
            current_tetromino@,
            grid_of(*built_tetrominoes)[i as int],
            i as int,
            0,
        ),
{
    let ghost backdrop = backdrop_of(*screen)[i as int];
    let ghost piece = current_tetromino@;
    let ghost locked = grid_of(*built_tetrominoes)[i as int];
    let mut text: String = String::new();
    let mut j: usize = 0;
    assert(text@ + drawn_row(backdrop, piece, locked, i as int, 0) =~= drawn_row(
        backdrop,
        piece,
        locked,
        i as int,
        0,
    ));
    while j < WIDTH
        invariant
            j <= WIDTH,
            i < HEIGHT,
            backdrop == backdrop_of(*screen)[i as int],
            piece == current_tetromino@,
            locked == grid_of(*built_tetrominoes)[i as int],
            text@ + drawn_row(backdrop, piece, locked, i as int, j as int) == drawn_row(
                backdrop,
                piece,
                locked,
                i as int,
                0,
            ),
        decreases WIDTH - j,
    {
        let ghost so_far = text@;
        let ghost rest = drawn_row(backdrop, piece, locked, i as int, j as int);
        let cell: TetrominoCharacter = built_tetrominoes[i][j];
        assert(cell@ == locked[j as int]);
        let mut skip: usize = 1;
        if cell.x >= 0 && cell.y >= 0 && cell.x as usize == j && cell.y as usize == i
            && cell.is_occupied() {
            text.append(cell.value);
        } else if line_at(&current_tetromino.first_line, i, j) {
            let shown: String = current_tetromino.first_line.to_string();
            text.append(shown.as_str());
            skip = current_tetromino.first_line.characters.len();
        } else if line_at(&current_tetromino.second_line, i, j) {
            let shown: String = current_tetromino.second_line.to_string();
            text.append(shown.as_str());
            skip = current_tetromino.second_line.characters.len();
        } else if line_at(&current_tetromino.third_line, i, j) {
            let shown: String = current_tetromino.third_line.to_string();
            text.append(shown.as_str());
            skip = current_tetromino.third_line.characters.len();
        } else if line_at(&current_tetromino.fourth_line, i, j) {
            let shown: String = current_tetromino.fourth_line.to_string();
            text.append(shown.as_str());
            skip = current_tetromino.fourth_line.characters.len();
        } else {
            assert(backdrop[j as int] == screen[i as int][j as int]@);
            text.append(screen[i][j]);
        }
        let ghost piece_text = text@.skip(so_far.len() as int);
        assert(skip >= 1);
        assert(rest == piece_text + drawn_row(backdrop, piece, locked, i as int, j + skip));
        assert(text@ =~= so_far + piece_text);
        assert(text@ + drawn_row(backdrop, piece, locked, i as int, j + skip) =~= so_far + rest);
        if skip >= WIDTH - j {
            j = WIDTH;
        } else {
            j = j + skip;
        }
    }
    assert(text@ + Seq::<char>::empty() =~= text@);
    text
}

/// What the board shows, row by row from the top: the locked cells, the
/// falling piece, and the empty board wherever neither stands.
pub fn display_screen(
    screen: &[[&str; WIDTH]; HEIGHT],
    current_tetromino: &Tetromino,
    built_tetrominoes: &[[TetrominoCharacter; WIDTH]; HEIGHT],
) -> (rows: Vec<String>)
    ensures
        rows@.len() == HEIGHT,
        forall|i: int|
            0 <= i < HEIGHT ==> (#[trigger] rows@[i])@ == drawn_row(
                backdrop_of(*screen)[i],
                current_tetromino@,
                grid_of(*built_tetrominoes)[i],
                i,
                0,
            ),
{
    let mut rows: Vec<String> = Vec::new();
    let mut i: usize = 0;
    while i < HEIGHT
        invariant
            i <= HEIGHT,
            rows@.len() == i,
            forall|k: int|
                0 <= k < i ==> (#[trigger] rows@[k])@ == drawn_row(
                    backdrop_of(*screen)[k],
                    current_tetromino@,
                    grid_of(*built_tetrominoes)[k],
                    k,
                    0,
                ),
        decreases HEIGHT - i,
    {
        let text: String = display_row(screen, current_tetromino, built_tetrominoes, i);
        rows.push(text);
        i = i + 1;
    }
    rows
}

} // verus!
