use vstd::prelude::*;
use crate::tetromino::characters::{Cell, TetrominoCharacter};
use crate::tetromino::piece::Piece;
use crate::{HEIGHT, WIDTH};

verus! {

/// The board as rows of cells, top to bottom.
pub open spec fn grid_of(board: [[TetrominoCharacter; WIDTH]; HEIGHT]) -> Seq<Seq<Cell>> {
    Seq::new(HEIGHT as nat, |r: int| Seq::new(WIDTH as nat, |c: int| board[r][c]@))
}

/// A row is complete when every playable column of it, that is every column
/// but the two border columns, is occupied.
pub open spec fn row_complete(row: Seq<Cell>) -> bool {
    forall|c: int| 1 <= c < WIDTH - 1 ==> (#[trigger] row[c]).occupied()
}

/// A row of the board with nothing in it.
pub open spec fn blank_row() -> Seq<Cell> {
    Seq::new(WIDTH as nat, |c: int| Cell::blank())
}

/// The row one step further down: every cell's height grows by one.
pub open spec fn lowered(row: Seq<Cell>) -> Seq<Cell> {
    Seq::new(row.len(), |c: int| row[c].shifted(0, 1))
}

/// The board after row `i` was taken out: the rows above it each move one
/// step down, an empty row comes in at the top, the rows below stay.
pub open spec fn collapsed(grid: Seq<Seq<Cell>>, i: int) -> Seq<Seq<Cell>> {
    Seq::new(
        grid.len(),
        |k: int|
            if k == 0 {
                blank_row()
            } else if k <= i {
                lowered(grid[k - 1])
            } else {
                grid[k]
            },
    )
}

/// The board after the rows from `i` downwards were looked at one by one,
/// each complete one taken out as it was met.
pub open spec fn cleared_from(grid: Seq<Seq<Cell>>, i: int) -> Seq<Seq<Cell>>
    decreases grid.len() - i,
{
    if i < 0 || i >= grid.len() {
        grid
    } else if row_complete(grid[i]) {
        cleared_from(collapsed(grid, i), i + 1)
    } else {
        cleared_from(grid, i + 1)
    }
}

/// The board with all its complete rows taken out.
pub open spec fn settled(grid: Seq<Seq<Cell>>) -> Seq<Seq<Cell>> {
    cleared_from(grid, 0)
}

/// How many of the first `n` rows are complete.
pub open spec fn complete_among(grid: Seq<Seq<Cell>>, n: int) -> nat
    decreases n,
{
    if n <= 0 || n > grid.len() {
        0
    } else if row_complete(grid[n - 1]) {
        complete_among(grid, n - 1) + 1
    } else {
        complete_among(grid, n - 1)
    }
}

/// How many rows of the board are complete.
pub open spec fn complete_rows(grid: Seq<Seq<Cell>>) -> nat {
    complete_among(grid, grid.len() as int)
}

/// Among the first `n` rows none is counted exactly when none is complete.
pub proof fn lemma_none_complete_among(grid: Seq<Seq<Cell>>, n: int)
    requires
        0 <= n <= grid.len(),
    ensures
        complete_among(grid, n) == 0 <==> forall|r: int|
            0 <= r < n ==> !row_complete(#[trigger] grid[r]),
    decreases n,
{
    if n > 0 {
        lemma_none_complete_among(grid, n - 1);
    }
}

/// Some row of the board is complete.
pub open spec fn any_complete(grid: Seq<Seq<Cell>>) -> bool {
    exists|r: int| 0 <= r < grid.len() && row_complete(#[trigger] grid[r])
}

/// Some row is complete exactly when the complete rows count more than
/// none, and there are never more complete rows than rows.
pub proof fn lemma_complete_rows(grid: Seq<Seq<Cell>>)
    ensures
        any_complete(grid) <==> complete_rows(grid) > 0,
        complete_rows(grid) <= grid.len(),
{
    lemma_none_complete_among(grid, grid.len() as int);
    lemma_among_at_most(grid, grid.len() as int);
}

/// Where no row from `i` downwards is complete, looking at them takes
/// nothing out.
pub proof fn lemma_nothing_to_clear(grid: Seq<Seq<Cell>>, i: int)
    requires
        0 <= i,
        forall|r: int| i <= r < grid.len() ==> !row_complete(#[trigger] grid[r]),
    ensures
        cleared_from(grid, i) == grid,
    decreases grid.len() - i,
{
    if i < grid.len() {
        lemma_nothing_to_clear(grid, i + 1);
    }
}

/// Rows that are not complete are passed over.
proof fn lemma_pass_over(grid: Seq<Seq<Cell>>, k: int, i: int)
    requires
        0 <= k <= i <= grid.len(),
        forall|r: int| k <= r < i ==> !row_complete(#[trigger] grid[r]),
    ensures
        cleared_from(grid, k) == cleared_from(grid, i),
    decreases i - k,
{
    if k < i {
        lemma_pass_over(grid, k + 1, i);
    }
}

/// With row `i` the only complete one, just one of the first `n` rows is
/// counted once `n` reaches past it.
proof fn lemma_one_complete_among(grid: Seq<Seq<Cell>>, i: int, n: int)
    requires
        0 <= i < grid.len(),
        0 <= n <= grid.len(),
        row_complete(grid[i]),
        forall|r: int| 0 <= r < grid.len() && r != i ==> !row_complete(#[trigger] grid[r]),
    ensures
        complete_among(grid, n) == (if n > i { 1nat } else { 0nat }),
    decreases n,
{
    if n > 0 {
        lemma_one_complete_among(grid, i, n - 1);
    }
}

/// A board on which row `i` is the only complete one settles into the board
/// with just that row taken out: the rows above it one step further down,
/// an empty row at the top, the rows below untouched.
pub proof fn lemma_single_complete_row(grid: Seq<Seq<Cell>>, i: int)
    requires
        0 <= i < grid.len(),
        row_complete(grid[i]),
        forall|r: int| 0 <= r < grid.len() && r != i ==> !row_complete(#[trigger] grid[r]),
    ensures
        settled(grid) == collapsed(grid, i),
        complete_rows(grid) == 1,
{
    lemma_pass_over(grid, 0, i);
    let after = collapsed(grid, i);
    assert forall|r: int| i + 1 <= r < after.len() implies !row_complete(#[trigger] after[r]) by {
        assert(after[r] == grid[r]);
    }
    lemma_nothing_to_clear(after, i + 1);
    lemma_one_complete_among(grid, i, grid.len() as int);
}

/// The row `n` steps further down: every cell's height grows by `n`.
pub open spec fn lowered_by(row: Seq<Cell>, n: int) -> Seq<Cell> {
    Seq::new(row.len(), |c: int| row[c].shifted(0, n))
}

/// How many of the rows from `i` downwards are complete.
pub open spec fn complete_from(grid: Seq<Seq<Cell>>, i: int) -> int
    decreases grid.len() - i,
{
    if i < 0 || i >= grid.len() {
        0
    } else if row_complete(grid[i]) {
        complete_from(grid, i + 1) + 1
    } else {
        complete_from(grid, i + 1)
    }
}

/// The complete rows above row `n` and those from it downwards are all the
/// complete rows there are.
pub proof fn lemma_complete_split(grid: Seq<Seq<Cell>>, n: int)
    requires
        0 <= n <= grid.len(),
    ensures
        complete_among(grid, n) + complete_from(grid, n) == complete_rows(grid),
    decreases grid.len() - n,
{
    if n < grid.len() {
        lemma_complete_split(grid, n + 1);
    }
}

/// Two boards that agree from row `i` downwards have as many complete rows
/// there.
proof fn lemma_complete_from_agrees(grid: Seq<Seq<Cell>>, other: Seq<Seq<Cell>>, i: int)
    requires
        0 <= i,
        grid.len() == other.len(),
        forall|k: int| i <= k < grid.len() ==> #[trigger] grid[k] == other[k],
    ensures
        complete_from(grid, i) == complete_from(other, i),
    decreases grid.len() - i,
{
    if i < grid.len() {
        lemma_complete_from_agrees(grid, other, i + 1);
    }
}

/// Looking at the rows of a board changes the number of rows of none.
proof fn lemma_cleared_len(grid: Seq<Seq<Cell>>, i: int)
    ensures
        cleared_from(grid, i).len() == grid.len(),
    decreases grid.len() - i,
{
    if 0 <= i < grid.len() {
        if row_complete(grid[i]) {
            lemma_cleared_len(collapsed(grid, i), i + 1);
        } else {
            lemma_cleared_len(grid, i + 1);
        }
    }
}

/// A row above the place from which the rows are looked at sinks by one step
/// for every complete row that is met.
proof fn lemma_cleared_above(grid: Seq<Seq<Cell>>, i: int, r: int)
    requires
        0 <= r < i <= grid.len(),
    ensures
        cleared_from(grid, i)[r + complete_from(grid, i)] == lowered_by(
            grid[r],
            complete_from(grid, i),
        ),
    decreases grid.len() - i,
{
    if i >= grid.len() {
        assert(lowered_by(grid[r], 0) =~= grid[r]);
    } else if row_complete(grid[i]) {
        let after = collapsed(grid, i);
        lemma_cleared_above(after, i + 1, r + 1);
        lemma_complete_from_agrees(grid, after, i + 1);
        let met = complete_from(grid, i + 1);
        assert(after[r + 1] == lowered(grid[r]));
        assert(lowered_by(lowered(grid[r]), met) =~= lowered_by(grid[r], met + 1));
    } else {
        lemma_cleared_above(grid, i + 1, r);
    }
}

/// A row that is not complete sinks by one step for every complete row
/// beneath it.
proof fn lemma_cleared_beneath(grid: Seq<Seq<Cell>>, i: int, r: int)
    requires
        0 <= i <= r < grid.len(),
        !row_complete(grid[r]),
    ensures
        cleared_from(grid, i)[r + complete_from(grid, r + 1)] == lowered_by(
            grid[r],
            complete_from(grid, r + 1),
        ),
    decreases grid.len() - i,
{
    if i == r {
        lemma_cleared_above(grid, r + 1, r);
    } else if row_complete(grid[i]) {
        let after = collapsed(grid, i);
        assert(after[r] == grid[r]);
        lemma_cleared_beneath(after, i + 1, r);
        lemma_complete_from_agrees(grid, after, r + 1);
    } else {
        lemma_cleared_beneath(grid, i + 1, r);
    }
}

/// For every complete row that is met, one row at the top ends up with
/// nothing in it.
proof fn lemma_cleared_top(grid: Seq<Seq<Cell>>, i: int, t: int)
    requires
        0 <= i <= grid.len(),
        0 <= t < complete_from(grid, i),
    ensures
        cleared_from(grid, i)[t] == lowered_by(blank_row(), t),
    decreases grid.len() - i,
{
    if i < grid.len() {
        if row_complete(grid[i]) {
            let after = collapsed(grid, i);
            lemma_complete_from_agrees(grid, after, i + 1);
            if t < complete_from(after, i + 1) {
                lemma_cleared_top(after, i + 1, t);
            } else {
                lemma_cleared_above(after, i + 1, 0);
            }
        } else {
            lemma_cleared_top(grid, i + 1, t);
        }
    }
}

/// How many complete rows lie beneath row `r`.
pub open spec fn complete_beneath(grid: Seq<Seq<Cell>>, r: int) -> int {
    complete_rows(grid) - complete_among(grid, r + 1)
}

/// Where the rows of a board end up when it settles. A row that is not
/// complete sinks by one step for every complete row beneath it, each of its
/// cells with it. As many rows at the top as there were complete rows hold
/// nothing: unoccupied cells in column 0 at the height of their row.
pub proof fn lemma_settled_rows(grid: Seq<Seq<Cell>>, r: int)
    requires
        0 <= r < grid.len(),
    ensures
        settled(grid).len() == grid.len(),
        0 <= complete_beneath(grid, r) <= complete_rows(grid) <= grid.len(),
        !row_complete(grid[r]) ==> settled(grid)[r + complete_beneath(grid, r)] == lowered_by(
            grid[r],
            complete_beneath(grid, r),
        ),
        r < complete_rows(grid) ==> settled(grid)[r] == lowered_by(blank_row(), r),
{
    lemma_cleared_len(grid, 0);
    lemma_complete_split(grid, r + 1);
    lemma_complete_split(grid, 0);
    lemma_complete_bounds(grid, r + 1);
    lemma_complete_bounds(grid, grid.len() as int);
    if !row_complete(grid[r]) {
        lemma_cleared_beneath(grid, 0, r);
    }
    if r < complete_rows(grid) {
        lemma_cleared_top(grid, 0, r);
    }
}

/// Among the first `n` rows there are at most `n` complete ones, and no
/// more than on the whole board.
proof fn lemma_complete_bounds(grid: Seq<Seq<Cell>>, n: int)
    requires
        0 <= n <= grid.len(),
    ensures
        complete_among(grid, n) <= n,
        complete_among(grid, n) <= complete_rows(grid),
        0 <= complete_from(grid, n),
    decreases grid.len() - n,
{
    lemma_complete_split(grid, n);
    if n < grid.len() {
        lemma_complete_bounds(grid, n + 1);
    }
    lemma_among_at_most(grid, n);
}

/// Among the first `n` rows there are at most `n` complete ones.
proof fn lemma_among_at_most(grid: Seq<Seq<Cell>>, n: int)
    requires
        0 <= n <= grid.len(),
    ensures
        complete_among(grid, n) <= n,
    decreases n,
{
    if n > 0 {
        lemma_among_at_most(grid, n - 1);
    }
}

/// The board's complete rows can be taken out and paid for: every cell can
/// sink by the board's height without its height leaving the machine
/// integers, and the score with 100 for every complete row is a number that
/// the score can hold, as it is wherever the score has room for 100 for every
/// row of the board.
pub open spec fn settleable(grid: Seq<Seq<Cell>>, score: int) -> bool {
    &&& forall|r: int, c: int|
        0 <= r < HEIGHT && 0 <= c < WIDTH ==> (#[trigger] grid[r][c]).y <= i32::MAX - HEIGHT
    &&& score + 100 * HEIGHT <= u32::MAX || score + 100 * complete_rows(grid) <= u32::MAX
}

/// The cell lies on the board.
pub open spec fn on_board(cell: Cell) -> bool {
    0 <= cell.x < WIDTH && 0 <= cell.y < HEIGHT
}

/// Every one of the cells lies on the board.
pub open spec fn all_on_board(cells: Seq<Cell>) -> bool {
    forall|i: int| 0 <= i < cells.len() ==> on_board(#[trigger] cells[i])
}

/// The board with `cell` written at the position that the cell names.
pub open spec fn stamped(grid: Seq<Seq<Cell>>, cell: Cell) -> Seq<Seq<Cell>> {
    grid.update(cell.y, grid[cell.y].update(cell.x, cell))
}

/// The board with the cells written onto it one after the other, each at
/// the position that it names; where two name the same position, the later
/// one stays.
pub open spec fn merged(grid: Seq<Seq<Cell>>, cells: Seq<Cell>) -> Seq<Seq<Cell>>
    decreases cells.len(),
{
    if cells.len() == 0 {
        grid
    } else {
        stamped(merged(grid, cells.drop_last()), cells.last())
    }
}

/// The grid has the board's number of rows and columns.
pub open spec fn board_shaped(grid: Seq<Seq<Cell>>) -> bool {
    &&& grid.len() == HEIGHT
    &&& forall|r: int| 0 <= r < HEIGHT ==> (#[trigger] grid[r]).len() == WIDTH
}

/// The cell names column `c` of row `r`.
pub open spec fn names(cell: Cell, r: int, c: int) -> bool {
    cell.y == r && cell.x == c
}

/// Which of the cells is the last to name column `c` of row `r`: its place
/// among them, or -1 where none names the position.
pub open spec fn last_naming(cells: Seq<Cell>, r: int, c: int) -> int
    decreases cells.len(),
{
    if cells.len() == 0 {
        -1
    } else if names(cells.last(), r, c) {
        cells.len() - 1
    } else {
        last_naming(cells.drop_last(), r, c)
    }
}

/// `last_naming` finds a cell that names the position and after which no
/// cell does, and finds none only where no cell names the position.
pub proof fn lemma_last_naming(cells: Seq<Cell>, r: int, c: int)
    ensures
        -1 <= last_naming(cells, r, c) < cells.len(),
        last_naming(cells, r, c) >= 0 ==> names(cells[last_naming(cells, r, c)], r, c),
        forall|m: int|
            last_naming(cells, r, c) < m < cells.len() ==> !names(#[trigger] cells[m], r, c),
    decreases cells.len(),
{
    if cells.len() > 0 && !names(cells.last(), r, c) {
        let front = cells.drop_last();
        lemma_last_naming(front, r, c);
        assert forall|m: int| last_naming(cells, r, c) < m < cells.len() implies !names(
            #[trigger] cells[m],
            r,
            c,
        ) by {
            if m < front.len() {
                assert(front[m] == cells[m]);
            }
        }
    }
}

/// Writing one cell changes the position that the cell names and no other.
proof fn lemma_stamped_at(grid: Seq<Seq<Cell>>, cell: Cell, r: int, c: int)
    requires
        board_shaped(grid),
        on_board(cell),
        0 <= r < HEIGHT,
        0 <= c < WIDTH,
    ensures
        board_shaped(stamped(grid, cell)),
        stamped(grid, cell)[r][c] == (if names(cell, r, c) {
            cell
        } else {
            grid[r][c]
        }),
{
    let after = stamped(grid, cell);
    assert forall|k: int| 0 <= k < HEIGHT implies (#[trigger] after[k]).len() == WIDTH by {
        assert(grid[k].len() == WIDTH);
    }
}

/// What stands at a position after cells were written onto the board: the
/// last of the cells that names the position, and what stood there before
/// where none does.
pub proof fn lemma_merged_at(grid: Seq<Seq<Cell>>, cells: Seq<Cell>, r: int, c: int)
    requires
        board_shaped(grid),
        all_on_board(cells),
        0 <= r < HEIGHT,
        0 <= c < WIDTH,
    ensures
        board_shaped(merged(grid, cells)),
        merged(grid, cells)[r][c] == (if last_naming(cells, r, c) >= 0 {
            cells[last_naming(cells, r, c)]
        } else {
            grid[r][c]
        }),
    decreases cells.len(),
{
    if cells.len() > 0 {
        let front = cells.drop_last();
        assert(on_board(cells[cells.len() - 1]));
        assert forall|k: int| 0 <= k < front.len() implies on_board(#[trigger] front[k]) by {
            assert(front[k] == cells[k]);
        }
        lemma_merged_at(grid, front, r, c);
        lemma_stamped_at(merged(grid, front), cells.last(), r, c);
        lemma_last_naming(front, r, c);
        if !names(cells.last(), r, c) && last_naming(front, r, c) >= 0 {
            assert(front[last_naming(front, r, c)] == cells[last_naming(front, r, c)]);
        }
    }
}

/// Writing two runs of cells in turn is writing the one run made of both.
pub proof fn lemma_merged_concat(grid: Seq<Seq<Cell>>, front: Seq<Cell>, back: Seq<Cell>)
    ensures
        merged(grid, front + back) == merged(merged(grid, front), back),
    decreases back.len(),
{
    if back.len() == 0 {
        assert(front + back =~= front);
    } else {
        lemma_merged_concat(grid, front, back.drop_last());
        assert((front + back).drop_last() =~= front + back.drop_last());
        assert((front + back).last() == back.last());
    }
}

/// The cells of a piece all lie on the board exactly when those of each of
/// its rows do.
pub proof fn lemma_piece_on_board(piece: Piece)
    ensures
        all_on_board(piece.cells()) <==> all_on_board(piece.first.cells) && all_on_board(
            piece.second.cells,
        ) && all_on_board(piece.third.cells) && all_on_board(piece.fourth.cells),
{
    let one = piece.first.cells.len() as int;
    let two = one + piece.second.cells.len();
    let three = two + piece.third.cells.len();
    if all_on_board(piece.cells()) {
        assert forall|i: int| 0 <= i < piece.first.cells.len() implies on_board(
            #[trigger] piece.first.cells[i],
        ) by {
            assert(piece.cells()[i] == piece.first.cells[i]);
        }
        assert forall|i: int| 0 <= i < piece.second.cells.len() implies on_board(
            #[trigger] piece.second.cells[i],
        ) by {
            assert(piece.cells()[one + i] == piece.second.cells[i]);
        }
        assert forall|i: int| 0 <= i < piece.third.cells.len() implies on_board(
            #[trigger] piece.third.cells[i],
        ) by {
            assert(piece.cells()[two + i] == piece.third.cells[i]);
        }
        assert forall|i: int| 0 <= i < piece.fourth.cells.len() implies on_board(
            #[trigger] piece.fourth.cells[i],
        ) by {
            assert(piece.cells()[three + i] == piece.fourth.cells[i]);
        }
    }
    if all_on_board(piece.first.cells) && all_on_board(piece.second.cells) && all_on_board(
        piece.third.cells,
    ) && all_on_board(piece.fourth.cells) {
        assert forall|i: int| 0 <= i < piece.cells().len() implies on_board(
            #[trigger] piece.cells()[i],
        ) by {
            if i < one {
                assert(piece.cells()[i] == piece.first.cells[i]);
            } else if i < two {
                assert(piece.cells()[i] == piece.second.cells[i - one]);
            } else if i < three {
                assert(piece.cells()[i] == piece.third.cells[i - two]);
            } else {
                assert(piece.cells()[i] == piece.fourth.cells[i - three]);
            }
        }
    }
}

} // verus!
