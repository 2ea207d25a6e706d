use vstd::prelude::*;
use crate::board::{
    all_on_board, any_complete, blank_row, cleared_from, collapsed, complete_among, complete_rows,
    grid_of, lemma_complete_rows, lemma_merged_concat, lemma_piece_on_board, lowered, merged,
    on_board, row_complete, settleable, settled, stamped,
};
use crate::tetromino::characters::{Cell, TetrominoCharacter};
use crate::tetromino::line::Line;
use crate::tetromino::tetromino::Tetromino;

pub mod board;
pub mod display;
pub mod game;
pub mod tetromino;

pub use crate::game::GameConfig;

verus! {

/// Columns of the board, the two border columns included.
pub const WIDTH: usize = 12;

/// Rows of the board.
pub const HEIGHT: usize = 40;

/// Rows of the occupancy grid: the board's rows and the floor beneath them.
pub const BORDER_ROWS: usize = HEIGHT + 1;

/// Whether row `i` of the board is complete.
fn row_is_complete(built_tetrominoes: &[[TetrominoCharacter; WIDTH]; HEIGHT], i: usize) -> (complete:
    bool)
    requires
        i < HEIGHT,
    ensures
        complete == row_complete(grid_of(*built_tetrominoes)[i as int]),
{
    let mut j: usize = 1;
    while j < WIDTH - 1
        invariant
            1 <= j <= WIDTH - 1,
            i < HEIGHT,
            forall|c: int|
                1 <= c < j ==> (#[trigger] grid_of(*built_tetrominoes)[i as int][c]).occupied(),
        decreases WIDTH - j,
    {
        if built_tetrominoes[i][j].value.is_empty() {
            assert(!grid_of(*built_tetrominoes)[i as int][j as int].occupied());
            return false;
        }
        j = j + 1;
    }
    true
}

/// Empties row `i` of the board.
fn reset_row(built_tetrominoes: &mut [[TetrominoCharacter; WIDTH]; HEIGHT], i: usize)
    requires
        i < HEIGHT,
    ensures
        grid_of(*final(built_tetrominoes)) == grid_of(*old(built_tetrominoes)).update(
            i as int,
            blank_row(),
        ),
{
    let mut j: usize = 0;
    while j < WIDTH
        invariant
            j <= WIDTH,
            i < HEIGHT,
            forall|r: int, c: int|
                0 <= r < HEIGHT && 0 <= c < WIDTH && r != i ==> built_tetrominoes[r][c] == old(
                    built_tetrominoes,
                )[r][c],
            forall|c: int| 0 <= c < j ==> (#[trigger] built_tetrominoes[i as int][c])@ == Cell::blank(),
        decreases WIDTH - j,
    {
        built_tetrominoes[i][j] = TetrominoCharacter::default();
        j = j + 1;
    }
    proof {
        let after = grid_of(*built_tetrominoes);
        let wanted = grid_of(*old(built_tetrominoes)).update(i as int, blank_row());
        assert forall|r: int| 0 <= r < HEIGHT implies after[r] == wanted[r] by {
            assert(after[r] =~= wanted[r]);
        }
        assert(after =~= wanted);
    }
}

/// Takes row `i` out of the board: the rows above it each move one step
/// down, and an empty row comes in at the top.
fn collapse_row(built_tetrominoes: &mut [[TetrominoCharacter; WIDTH]; HEIGHT], i: usize)
    requires
        i < HEIGHT,
        forall|r: int, c: int|
            0 <= r < i && 0 <= c < WIDTH ==> (#[trigger] grid_of(*old(built_tetrominoes))[r][c]).y
                < i32::MAX,
    ensures
        grid_of(*final(built_tetrominoes)) == collapsed(grid_of(*old(built_tetrominoes)), i as int),
{
    let ghost before = grid_of(*old(built_tetrominoes));
    reset_row(built_tetrominoes, i);
    let mut k: usize = i;
    while k >= 1
        invariant
            k <= i,
            i < HEIGHT,
            before.len() == HEIGHT,
            forall|r: int| 0 <= r < HEIGHT ==> (#[trigger] before[r]).len() == WIDTH,
            forall|r: int, c: int|
                0 <= r < i && 0 <= c < WIDTH ==> (#[trigger] before[r][c]).y < i32::MAX,
            forall|r: int, c: int|
                0 <= r < HEIGHT && 0 <= c < WIDTH && (r < k || r > i) ==> (#[trigger] grid_of(
                    *built_tetrominoes,
                )[r][c]) == before[r][c],
            forall|r: int, c: int|
                k < r <= i && 0 <= c < WIDTH ==> (#[trigger] grid_of(*built_tetrominoes)[r][c])
                    == before[r - 1][c].shifted(0, 1),
        decreases k,
    {
        let mut j: usize = 0;
        while j < WIDTH
            invariant
                j <= WIDTH,
                1 <= k <= i,
                i < HEIGHT,
                before.len() == HEIGHT,
                forall|r: int| 0 <= r < HEIGHT ==> (#[trigger] before[r]).len() == WIDTH,
                forall|r: int, c: int|
                    0 <= r < i && 0 <= c < WIDTH ==> (#[trigger] before[r][c]).y < i32::MAX,
                forall|r: int, c: int|
                    0 <= r < HEIGHT && 0 <= c < WIDTH && (r < k || r > i) ==> (#[trigger] grid_of(
                        *built_tetrominoes,
                    )[r][c]) == before[r][c],
                forall|r: int, c: int|
                    k < r <= i && 0 <= c < WIDTH ==> (#[trigger] grid_of(*built_tetrominoes)[r][c])
                        == before[r - 1][c].shifted(0, 1),
                forall|c: int|
                    0 <= c < j ==> (#[trigger] grid_of(*built_tetrominoes)[k as int][c]) == before[k
                        - 1][c].shifted(0, 1),
            decreases WIDTH - j,
        {
            let ghost prior = *built_tetrominoes;
            let mut character: TetrominoCharacter = built_tetrominoes[k - 1][j];
            assert(character@ == grid_of(prior)[k - 1][j as int]);
            character.move_character(0, 1);
            built_tetrominoes[k][j] = character;
            proof {
                assert forall|r: int, c: int|
                    0 <= r < HEIGHT && 0 <= c < WIDTH && !(r == k && c == j) implies (#[trigger] grid_of(
                    *built_tetrominoes,
                )[r][c]) == grid_of(prior)[r][c] by {}
                assert(grid_of(*built_tetrominoes)[k as int][j as int] == character@);
            }
            j = j + 1;
        }
        k = k - 1;
    }
    let ghost shifted = grid_of(*built_tetrominoes);
    reset_row(built_tetrominoes, 0);
    proof {
        let after = grid_of(*built_tetrominoes);
        let wanted = collapsed(before, i as int);
        assert forall|r: int| 0 <= r < HEIGHT implies after[r] == wanted[r] by {
            if r == 0 {
            } else if r <= i {
                assert(shifted[r] =~= lowered(before[r - 1]));
            } else {
                assert(shifted[r] =~= before[r]);
            }
        }
        assert(after =~= wanted);
    }
}

/// Takes every complete row out of the board, top to bottom: the rows above
/// a complete row each move one step down and an empty row comes in at the
/// top. Every row taken out adds 100 to the score. Says whether any row was
/// taken out; where none is complete, nothing changes.
pub fn check_complete_line(
    built_tetrominoes: &mut [[TetrominoCharacter; WIDTH]; HEIGHT],
    score: &mut u32,
) -> (complete_line: bool)
    requires
        settleable(grid_of(*old(built_tetrominoes)), *old(score) as int),
    ensures
        grid_of(*final(built_tetrominoes)) == settled(grid_of(*old(built_tetrominoes))),
        *final(score) == *old(score) + 100 * complete_rows(grid_of(*old(built_tetrominoes))),
        complete_line == any_complete(grid_of(*old(built_tetrominoes))),
        !complete_line ==> *final(built_tetrominoes) == *old(built_tetrominoes) && *final(score)
            == *old(score),
{
    let ghost first = grid_of(*old(built_tetrominoes));
    proof {
        lemma_complete_rows(first);
    }
    let mut complete_line: bool = false;
    let mut lines_cleared: u32 = 0;
    let mut i: usize = 0;
    while i < HEIGHT
        invariant
            i <= HEIGHT,
            first == grid_of(*old(built_tetrominoes)),
            cleared_from(grid_of(*built_tetrominoes), i as int) == settled(first),
            forall|r: int| i <= r < HEIGHT ==> (#[trigger] grid_of(*built_tetrominoes)[r]) == first[r],
            lines_cleared == complete_among(first, i as int),
            lines_cleared <= i,
            complete_line == (lines_cleared > 0),
            forall|r: int, c: int|
                0 <= r < HEIGHT && 0 <= c < WIDTH ==> (#[trigger] grid_of(*built_tetrominoes)[r][c]).y
                    <= i32::MAX - HEIGHT + lines_cleared,
            lines_cleared == 0 ==> *built_tetrominoes == *old(built_tetrominoes),
        decreases HEIGHT - i,
    {
        let ghost current = grid_of(*built_tetrominoes);
        if row_is_complete(built_tetrominoes, i) {
            complete_line = true;
            lines_cleared = lines_cleared + 1;
            collapse_row(built_tetrominoes, i);
            proof {
                let after = grid_of(*built_tetrominoes);
                assert(after == collapsed(current, i as int));
                assert forall|r: int, c: int|
                    0 <= r < HEIGHT && 0 <= c < WIDTH implies (#[trigger] after[r][c]).y
                    <= i32::MAX - HEIGHT + lines_cleared by {
                    if r == 0 {
                    } else if r <= i {
                        assert(after[r][c] == current[r - 1][c].shifted(0, 1));
                    } else {
                        assert(after[r][c] == current[r][c]);
                    }
                }
            }
        }
        i = i + 1;
    }
    *score = *score + lines_cleared * 100;
    complete_line
}

/// Writes the characters of a line onto the board, each at its position.
fn merge_line(line: &Line, built_tetrominoes: &mut [[TetrominoCharacter; WIDTH]; HEIGHT])
    requires
        all_on_board(line@.cells),
    ensures
        grid_of(*final(built_tetrominoes)) == merged(grid_of(*old(built_tetrominoes)), line@.cells),
{
    let ghost before = grid_of(*old(built_tetrominoes));
    let n: usize = line.characters.len();
    let mut i: usize = 0;
    while i < n
        invariant
            i <= n,
            n == line.characters@.len(),
            all_on_board(line@.cells),
            grid_of(*built_tetrominoes) == merged(before, line@.cells.take(i as int)),
        decreases n - i,
    {
        let ghost prior = grid_of(*built_tetrominoes);
        let character: TetrominoCharacter = line.characters[i];
        assert(character@ == line@.cells[i as int]);
        assert(on_board(line@.cells[i as int]));
        let x: usize = character.x as usize;
        let y: usize = character.y as usize;
        built_tetrominoes[y][x] = character;
        i = i + 1;
        proof {
            let written = line@.cells.take(i as int);
            assert(written.drop_last() =~= line@.cells.take(i - 1));
            assert(written.last() == character@);
            let after = grid_of(*built_tetrominoes);
            let wanted = stamped(prior, character@);
            assert forall|r: int| 0 <= r < HEIGHT implies after[r] == wanted[r] by {
                assert(after[r] =~= wanted[r]);
            }
            assert(after =~= wanted);
        }
    }
    assert(line@.cells.take(n as int) =~= line@.cells);
}

/// Writes the cells of a piece onto the board, each at its position, row
/// after row from the first to the fourth.
pub fn merge_cells(
    tetromino: &Tetromino,
    built_tetrominoes: &mut [[TetrominoCharacter; WIDTH]; HEIGHT],
)
    requires
        all_on_board(tetromino@.cells()),
    ensures
        grid_of(*final(built_tetrominoes)) == merged(
            grid_of(*old(built_tetrominoes)),
            tetromino@.cells(),
        ),
{
    let ghost before = grid_of(*built_tetrominoes);
    let ghost piece = tetromino@;
    proof {
        lemma_piece_on_board(piece);
    }
    merge_line(&tetromino.first_line, built_tetrominoes);
    merge_line(&tetromino.second_line, built_tetrominoes);
    merge_line(&tetromino.third_line, built_tetrominoes);
    merge_line(&tetromino.fourth_line, built_tetrominoes);
    proof {
        let upper = piece.first.cells + piece.second.cells;
        lemma_merged_concat(before, piece.first.cells, piece.second.cells);
        lemma_merged_concat(before, upper, piece.third.cells);
        lemma_merged_concat(before, upper + piece.third.cells, piece.fourth.cells);
    }
}

/// Writes the cells of a locked piece onto the board, each at its position;
/// a piece that has not locked leaves the board as it is.
pub fn move_to_built(
    tetromino: &mut Tetromino,
    built_tetrominoes: &mut [[TetrominoCharacter; WIDTH]; HEIGHT],
)
    requires
        old(tetromino).stationary ==> all_on_board(old(tetromino)@.cells()),
    ensures
        *final(tetromino) == *old(tetromino),
        !old(tetromino).stationary ==> *final(built_tetrominoes) == *old(built_tetrominoes),
        old(tetromino).stationary ==> grid_of(*final(built_tetrominoes)) == merged(
            grid_of(*old(built_tetrominoes)),
            old(tetromino)@.cells(),
        ),
{
    if tetromino.stationary {
        merge_cells(tetromino, built_tetrominoes);
    }
}

/// Brings the occupancy grid in line with the board: above the floor, a
/// position is marked exactly when the board's cell there is occupied. The
/// floor row stays as it is.
pub fn remake_gameborders(
    game_borders: &mut [[bool; WIDTH]; BORDER_ROWS],
    built_tetrominoes: &mut [[TetrominoCharacter; WIDTH]; HEIGHT],
)
    ensures
        *final(built_tetrominoes) == *old(built_tetrominoes),
        forall|r: int, c: int|
            0 <= r < HEIGHT && 0 <= c < WIDTH ==> final(game_borders)[r][c] == (#[trigger] grid_of(
                *old(built_tetrominoes),
            )[r][c]).occupied(),
        final(game_borders)[HEIGHT as int] == old(game_borders)[HEIGHT as int],
{
    let mut i: usize = 0;
    while i < HEIGHT
        invariant
            i <= HEIGHT,
            *built_tetrominoes == *old(built_tetrominoes),
            game_borders[HEIGHT as int] == old(game_borders)[HEIGHT as int],
            forall|r: int, c: int|
                0 <= r < i && 0 <= c < WIDTH ==> game_borders[r][c] == (#[trigger] grid_of(
                    *built_tetrominoes,
                )[r][c]).occupied(),
        decreases HEIGHT - i,
    {
        let mut j: usize = 0;
        while j < WIDTH
            invariant
                j <= WIDTH,
                i < HEIGHT,
                *built_tetrominoes == *old(built_tetrominoes),
                game_borders[HEIGHT as int] == old(game_borders)[HEIGHT as int],
                forall|r: int, c: int|
                    0 <= r < i && 0 <= c < WIDTH ==> game_borders[r][c] == (#[trigger] grid_of(
                        *built_tetrominoes,
                    )[r][c]).occupied(),
                forall|c: int|
                    0 <= c < j ==> game_borders[i as int][c] == (#[trigger] grid_of(
                        *built_tetrominoes,
                    )[i as int][c]).occupied(),
            decreases WIDTH - j,
        {
            let occupied: bool = built_tetrominoes[i][j].is_occupied();
            assert(occupied == grid_of(*built_tetrominoes)[i as int][j as int].occupied());
            game_borders[i][j] = occupied;
            j = j + 1;
        }
        i = i + 1;
    }
}

/// Whether the complete rows of the board can be taken out and paid for.
pub fn can_settle(built_tetrominoes: &[[TetrominoCharacter; WIDTH]; HEIGHT], score: u32) -> (ok:
    bool)
    ensures
        ok == settleable(grid_of(*built_tetrominoes), score as int),
{
    let ghost grid = grid_of(*built_tetrominoes);
    let mut complete: u64 = 0;
    let mut i: usize = 0;
    while i < HEIGHT
        invariant
            i <= HEIGHT,
            grid == grid_of(*built_tetrominoes),
            complete == complete_among(grid, i as int),
            complete <= i,
            forall|r: int, c: int|
                0 <= r < i && 0 <= c < WIDTH ==> (#[trigger] grid[r][c]).y <= i32::MAX - HEIGHT,
        decreases HEIGHT - i,
    {
        let mut j: usize = 0;
        while j < WIDTH
            invariant
                j <= WIDTH,
                i < HEIGHT,
                grid == grid_of(*built_tetrominoes),
                forall|r: int, c: int|
                    0 <= r < i && 0 <= c < WIDTH ==> (#[trigger] grid[r][c]).y <= i32::MAX - HEIGHT,
                forall|c: int| 0 <= c < j ==> (#[trigger] grid[i as int][c]).y <= i32::MAX - HEIGHT,
            decreases WIDTH - j,
        {
            if built_tetrominoes[i][j].y > i32::MAX - HEIGHT as i32 {
                assert(grid[i as int][j as int].y > i32::MAX - HEIGHT);
                return false;
            }
            j = j + 1;
        }
        if row_is_complete(built_tetrominoes, i) {
            complete = complete + 1;
        }
        i = i + 1;
    }
    proof {
        lemma_complete_rows(grid);
    }
    score as u64 + 100 * complete <= u32::MAX as u64
}

/// Whether every character of the line lies on the board.
fn line_on_board(line: &Line) -> (ok: bool)
    ensures
        ok == all_on_board(line@.cells),
{
    let n: usize = line.characters.len();
    let mut i: usize = 0;
    while i < n
        invariant
            i <= n,
            n == line.characters@.len(),
            forall|k: int| 0 <= k < i ==> on_board(#[trigger] line@.cells[k]),
        decreases n - i,
    {
        let character: TetrominoCharacter = line.characters[i];
        assert(character@ == line@.cells[i as int]);
        if character.x < 0 || character.y < 0 || character.x as usize >= WIDTH || character.y as usize
            >= HEIGHT {
            assert(!on_board(line@.cells[i as int]));
            return false;
        }
        i = i + 1;
    }
    true
}

/// Whether every cell of the piece lies on the board.
pub fn fits_board(tetromino: &Tetromino) -> (ok: bool)
    ensures
        ok == all_on_board(tetromino@.cells()),
{
    proof {
        lemma_piece_on_board(tetromino@);
    }
    line_on_board(&tetromino.first_line) && line_on_board(&tetromino.second_line) && line_on_board(
        &tetromino.third_line,
    ) && line_on_board(&tetromino.fourth_line)
}

} // verus!
