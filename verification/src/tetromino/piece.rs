use vstd::prelude::*;
use crate::tetromino::characters::Cell;
use crate::tetromino::line::Row;
use crate::{BORDER_ROWS, WIDTH};

verus! {

/// The mathematical content of a tetromino: its four row slots, the angle it
/// is turned by, which of the five shapes it is, and whether it has locked.
pub struct Piece {
    pub first: Row,
    pub second: Row,
    pub third: Row,
    pub fourth: Row,
    pub rotation: int,
    pub shape_type: int,
    pub stationary: bool,
}

/// How far the first row moves sideways when a shape is laid out for an
/// angle. Only the three-wide shape 5 moves: one column left when it comes
/// to lie flat at 0, one column right when it stands up at 90.
pub open spec fn first_row_shift(shape_type: int, rotation: int) -> int {
    if shape_type == 5 && rotation == 0 {
        -1
    } else if shape_type == 5 && rotation == 90 {
        1
    } else {
        0
    }
}

/// The rows of a shape at an angle, top to bottom, each as the offset of its
/// left end from the left end of the first row and its number of cells.
/// Shapes 1, 2, 4 and 5 have a silhouette at 0, 90, 180 and 270; everything
/// else has none. For shape 5 the first row has moved by the time the
/// offsets are counted: seen from where the first row stood before, the
/// lower rows at 90 start in that very column, and the single lower cell at
/// 0 stands one column to its right.
pub open spec fn silhouette(shape_type: int, rotation: int) -> Seq<(int, int, int)> {
    if shape_type == 1 {
        if rotation == 0 || rotation == 180 {
            seq![(0, 0, 4)]
        } else if rotation == 90 || rotation == 270 {
            seq![(0, 0, 1), (0, 1, 1), (0, 2, 1), (0, 3, 1)]
        } else {
            seq![]
        }
    } else if shape_type == 2 {
        if rotation == 0 {
            seq![(0, 0, 3), (2, 1, 1)]
        } else if rotation == 90 {
            seq![(0, 0, 2), (0, 1, 1), (0, 2, 1)]
        } else if rotation == 180 {
            seq![(0, 0, 1), (0, 1, 3)]
        } else if rotation == 270 {
            seq![(0, 0, 1), (0, 1, 1), (0, 2, 2)]
        } else {
            seq![]
        }
    } else if shape_type == 4 {
        if rotation == 0 || rotation == 180 {
            seq![(0, 0, 2), (1, 1, 2)]
        } else if rotation == 90 || rotation == 270 {
            seq![(0, 0, 1), (-1, 1, 2), (-1, 2, 1)]
        } else {
            seq![]
        }
    } else if shape_type == 5 {
        if rotation == 0 {
            seq![(0, 0, 3), (2, 1, 1)]
        } else if rotation == 90 {
            seq![(0, 0, 1), (-1, 1, 2), (-1, 2, 1)]
        } else if rotation == 180 {
            seq![(0, 0, 1), (-1, 1, 3)]
        } else if rotation == 270 {
            seq![(0, 0, 1), (-1, 1, 2), (0, 2, 1)]
        } else {
            seq![]
        }
    } else {
        seq![]
    }
}

/// Row slot `k` of a piece after its shape was laid out with the first row's
/// left end at `(x, y)`: the silhouette's row `k` where it has one, else the
/// slot `old_row` with its cells taken away.
pub open spec fn laid_row(table: Seq<(int, int, int)>, k: int, x: int, y: int, old_row: Row) -> Row {
    if 0 <= k < table.len() {
        Row::run(x + table[k].0, y + table[k].1, table[k].2)
    } else {
        Row { x: old_row.x, y: old_row.y, cells: Seq::empty() }
    }
}

/// Some cell of the row stands in a column of the occupancy grid.
pub open spec fn row_probes(row: Row) -> bool {
    exists|i: int| 0 <= i < row.cells.len() && 0 <= (#[trigger] row.cells[i]).x < WIDTH
}

/// Some cell of the row has an occupied position directly beneath the row.
/// A cell that stands in no column of the occupancy grid has nothing beneath
/// it.
pub open spec fn row_lands(row: Row, borders: [[bool; WIDTH]; BORDER_ROWS]) -> bool {
    exists|i: int|
        0 <= i < row.cells.len() && 0 <= (#[trigger] row.cells[i]).x < WIDTH && borders[row.y
            + 1][row.cells[i].x]
}

/// The angle brought into the range from 0 up to, not including, 360.
pub open spec fn normalized(angle: int) -> int {
    angle % 360
}

/// The two rows have as many cells, and each cell stands in the column of its
/// counterpart.
pub open spec fn same_columns(row: Row, other: Row) -> bool {
    &&& row.cells.len() == other.cells.len()
    &&& forall|i: int| 0 <= i < row.cells.len() ==> (#[trigger] row.cells[i]).x == other.cells[i].x
}

/// The two rows have as many cells, and each cell stands at the height of its
/// counterpart.
pub open spec fn same_heights(row: Row, other: Row) -> bool {
    &&& row.cells.len() == other.cells.len()
    &&& forall|i: int| 0 <= i < row.cells.len() ==> (#[trigger] row.cells[i]).y == other.cells[i].y
}

/// The rows of a shape at an angle as a turn leaves them: the square, which
/// never turns, has two rows of two at every angle; the other shapes have
/// their silhouette.
pub open spec fn shape_rows(shape_type: int, rotation: int) -> Seq<(int, int, int)> {
    if shape_type == 3 {
        seq![(0, 0, 2), (0, 1, 2)]
    } else {
        silhouette(shape_type, rotation)
    }
}

/// The rows of a shape as a fresh piece has them. They are the rows that a
/// turn to 0 leaves, but for shape 5: fresh, its single lower cell stands
/// under the middle of the first row, and not under its right end.
pub open spec fn fresh_rows(shape_type: int) -> Seq<(int, int, int)> {
    if shape_type == 5 {
        seq![(0, 0, 3), (1, 1, 1)]
    } else {
        shape_rows(shape_type, 0)
    }
}

/// Row slot `k` holds what the table asks of it, placed from `(x, y)`: the
/// table's row `k` where it has one, else no cells.
pub open spec fn row_follows(table: Seq<(int, int, int)>, k: int, x: int, y: int, row: Row) -> bool {
    if 0 <= k < table.len() {
        row == Row::run(x + table[k].0, y + table[k].1, table[k].2)
    } else {
        row.is_empty()
    }
}

/// The two rows have the same cells.
pub open spec fn same_cells(row: Row, other: Row) -> bool {
    row.cells == other.cells
}

/// The occupancy grid can be asked about the row: the row stands in no
/// column of the grid, or it has a grid row beneath it.
pub open spec fn row_admits(row: Row) -> bool {
    row_probes(row) ==> -1 <= row.y < BORDER_ROWS - 1
}

/// A run of cells stands in a column of the occupancy grid exactly when it
/// has cells, does not end left of the first column and does not start right
/// of the last.
pub proof fn lemma_run_probes(x: int, y: int, n: int)
    ensures
        row_probes(Row::run(x, y, n)) <==> (n > 0 && x + n - 1 >= 0 && x < WIDTH),
{
    let row = Row::run(x, y, n);
    if n > 0 && x + n - 1 >= 0 && x < WIDTH {
        let i = if x >= 0 { 0 } else { -x };
        assert(0 <= row.cells[i].x < WIDTH);
    }
}

/// Every row of the table, placed from `(x, y)`, has coordinates that a
/// machine integer holds and, where `probe` asks for it, is one that the
/// occupancy grid can be asked about.
pub open spec fn layout_ok(table: Seq<(int, int, int)>, x: int, y: int, probe: bool) -> bool {
    forall|k: int|
        0 <= k < table.len() ==> {
            let row = Row::run(x + (#[trigger] table[k]).0, y + table[k].1, table[k].2);
            row.representable() && (probe ==> row_admits(row))
        }
}

impl Piece {
    /// Every row slot keeps its anchor and loses its cells.
    pub open spec fn cleared(self) -> Piece {
        Piece {
            first: laid_row(seq![], 0, 0, 0, self.first),
            second: laid_row(seq![], 1, 0, 0, self.second),
            third: laid_row(seq![], 2, 0, 0, self.third),
            fourth: laid_row(seq![], 3, 0, 0, self.fourth),
            ..self
        }
    }

    /// The piece with its rows rebuilt for `rotation`. The first row keeps its
    /// height and moves sideways by `first_row_shift`; every row of the
    /// silhouette is placed by its offset from where the first row then
    /// stands. A shape without a silhouette at that angle is left as it is.
    /// The recorded angle does not change.
    pub open spec fn rotate_shape(self, rotation: int) -> Piece {
        let table = silhouette(self.shape_type, rotation);
        let x = self.first.x + first_row_shift(self.shape_type, rotation);
        let y = self.first.y;
        if table.len() == 0 {
            self
        } else {
            Piece {
                first: laid_row(table, 0, x, y, self.first),
                second: laid_row(table, 1, x, y, self.second),
                third: laid_row(table, 2, x, y, self.third),
                fourth: laid_row(table, 3, x, y, self.fourth),
                ..self
            }
        }
    }

    /// All four rows have coordinates that a machine integer holds.
    pub open spec fn representable(self) -> bool {
        &&& self.first.representable()
        &&& self.second.representable()
        &&& self.third.representable()
        &&& self.fourth.representable()
    }

    /// All cells of the piece, row after row from the first to the fourth.
    pub open spec fn cells(self) -> Seq<Cell> {
        self.first.cells + self.second.cells + self.third.cells + self.fourth.cells
    }

    /// Every row that asks the occupancy grid has a grid row beneath it.
    pub open spec fn can_probe(self) -> bool {
        &&& row_admits(self.first)
        &&& row_admits(self.second)
        &&& row_admits(self.third)
        &&& row_admits(self.fourth)
    }

    /// The piece rests on something: one step further down, one of its cells
    /// would share a position with an occupied one.
    pub open spec fn collides(self, borders: [[bool; WIDTH]; BORDER_ROWS]) -> bool {
        row_lands(self.first, borders) || row_lands(self.second, borders) || row_lands(
            self.third,
            borders,
        ) || row_lands(self.fourth, borders)
    }

    /// The row with the most cells; among equals, the uppermost.
    pub open spec fn widest(self) -> Row {
        let upper = if self.second.cells.len() > self.first.cells.len() {
            self.second
        } else {
            self.first
        };
        let lower = if self.fourth.cells.len() > self.third.cells.len() {
            self.fourth
        } else {
            self.third
        };
        if lower.cells.len() > upper.cells.len() {
            lower
        } else {
            upper
        }
    }

    /// Displaced sideways by `dx`, the widest row would leave the playable
    /// columns.
    pub open spec fn collides_horizontal(self, dx: int) -> bool {
        let row = self.widest();
        row.x + dx < 1 || row.x + dx > WIDTH - 1 - row.cells.len()
    }

    /// Every row that has cells displaced by `(dx, dy)`; unused slots stay.
    pub open spec fn translated(self, dx: int, dy: int) -> Piece {
        Piece {
            first: if self.first.is_empty() { self.first } else { self.first.shifted(dx, dy) },
            second: if self.second.is_empty() { self.second } else { self.second.shifted(dx, dy) },
            third: if self.third.is_empty() { self.third } else { self.third.shifted(dx, dy) },
            fourth: if self.fourth.is_empty() { self.fourth } else { self.fourth.shifted(dx, dy) },
            ..self
        }
    }

    /// The piece after one request to move by `(dx, dy)`. A locked piece stays
    /// as it is. A piece that rests on something locks where it is. A piece
    /// asked to go sideways past the playable columns stays. Otherwise the
    /// piece is displaced.
    pub open spec fn moved(self, dx: int, dy: int, borders: [[bool; WIDTH]; BORDER_ROWS]) -> Piece {
        if self.stationary {
            self
        } else if self.collides(borders) {
            Piece { stationary: true, ..self }
        } else if dx != 0 && self.collides_horizontal(dx) {
            self
        } else {
            self.translated(dx, dy)
        }
    }

    /// A request to move by `(dx, dy)` can be carried out: the occupancy grid
    /// can be asked about a piece that has not locked, and what comes of the
    /// request has coordinates that a machine integer holds.
    pub open spec fn movable(self, dx: int, dy: int, borders: [[bool; WIDTH]; BORDER_ROWS]) -> bool {
        &&& !self.stationary ==> self.can_probe()
        &&& self.moved(dx, dy, borders).representable()
    }

    /// The piece with `angle` recorded and its rows rebuilt for it.
    pub open spec fn turned_to(self, angle: int) -> Piece {
        (Piece { rotation: angle, ..self }).rotate_shape(angle)
    }

    /// The turn by `delta` is taken back: the turned piece rests on something
    /// or its widest row is outside the playable columns.
    pub open spec fn turn_refused(self, delta: int, borders: [[bool; WIDTH]; BORDER_ROWS]) -> bool {
        let turned = self.turned_to(normalized(self.rotation + delta));
        turned.collides(borders) || turned.collides_horizontal(0)
    }

    /// The piece after one request to turn by `delta` degrees. A locked piece
    /// and the square stay as they are. Any other piece is rebuilt for the new
    /// angle, and where that turn is refused, rebuilt once more for the angle
    /// it had, from where its first row then stands.
    pub open spec fn rotated(self, delta: int, borders: [[bool; WIDTH]; BORDER_ROWS]) -> Piece {
        if self.stationary || self.shape_type == 3 {
            self
        } else if self.turn_refused(delta, borders) {
            self.turned_to(normalized(self.rotation + delta)).turned_to(self.rotation)
        } else {
            self.turned_to(normalized(self.rotation + delta))
        }
    }

    /// A request to turn by `delta` degrees can be carried out: for a piece
    /// that has not locked and is not the square, the turned piece has
    /// coordinates that a machine integer holds, the occupancy grid can be
    /// asked about it, and so has the piece turned back from there.
    pub open spec fn turnable(self, delta: int) -> bool {
        !self.stationary && self.shape_type != 3 ==> {
            let turned = self.turned_to(normalized(self.rotation + delta));
            &&& turned.representable()
            &&& turned.can_probe()
            &&& turned.turned_to(self.rotation).representable()
        }
    }

    /// Row by row, the two pieces have as many cells, and each cell stands in
    /// the column of its counterpart.
    pub open spec fn same_columns(self, other: Piece) -> bool {
        &&& same_columns(self.first, other.first)
        &&& same_columns(self.second, other.second)
        &&& same_columns(self.third, other.third)
        &&& same_columns(self.fourth, other.fourth)
    }

    /// Row by row, the two pieces have as many cells, and each cell stands at
    /// the height of its counterpart.
    pub open spec fn same_heights(self, other: Piece) -> bool {
        &&& same_heights(self.first, other.first)
        &&& same_heights(self.second, other.second)
        &&& same_heights(self.third, other.third)
        &&& same_heights(self.fourth, other.fourth)
    }

    /// The rows of the piece are those of the table, placed from where its
    /// first row stands.
    pub open spec fn laid_as(self, table: Seq<(int, int, int)>) -> bool {
        &&& row_follows(table, 0, self.first.x, self.first.y, self.first)
        &&& row_follows(table, 1, self.first.x, self.first.y, self.second)
        &&& row_follows(table, 2, self.first.x, self.first.y, self.third)
        &&& row_follows(table, 3, self.first.x, self.first.y, self.fourth)
    }

    /// The rows of the piece are those that a turn to its angle leaves.
    pub open spec fn laid_as_turned(self) -> bool {
        self.laid_as(shape_rows(self.shape_type, self.rotation))
    }

    /// The piece has not been turned, and its rows are those of a fresh
    /// piece.
    pub open spec fn laid_as_fresh(self) -> bool {
        self.rotation == 0 && self.laid_as(fresh_rows(self.shape_type))
    }

    /// The piece is one of the five shapes at one of the four angles, and its
    /// rows are those of the shape at that angle: as a turn leaves them, or
    /// as a fresh piece has them.
    pub open spec fn well_formed(self) -> bool {
        &&& 1 <= self.shape_type <= 5
        &&& self.rotation == 0 || self.rotation == 90 || self.rotation == 180 || self.rotation
            == 270
        &&& self.laid_as_turned() || self.laid_as_fresh()
    }

    /// The two pieces are of the same shape, at the same angle, both locked
    /// or both not, and have the same cells row by row.
    pub open spec fn same_layout(self, other: Piece) -> bool {
        &&& self.shape_type == other.shape_type
        &&& self.rotation == other.rotation
        &&& self.stationary == other.stationary
        &&& same_cells(self.first, other.first)
        &&& same_cells(self.second, other.second)
        &&& same_cells(self.third, other.third)
        &&& same_cells(self.fourth, other.fourth)
    }

    /// No request changes a piece that has locked.
    pub proof fn lemma_locked_stays(
        self,
        dx: int,
        dy: int,
        delta: int,
        borders: [[bool; WIDTH]; BORDER_ROWS],
    )
        requires
            self.stationary,
        ensures
            self.moved(dx, dy, borders) == self,
            self.rotated(delta, borders) == self,
    {
    }

    /// No request to turn, by whatever angle, changes the square.
    pub proof fn lemma_square_never_turns(self, delta: int, borders: [[bool; WIDTH]; BORDER_ROWS])
        requires
            self.shape_type == 3,
        ensures
            self.rotated(delta, borders) == self,
    {
    }

    /// A piece that has locked stays locked, and every request leaves a
    /// piece the shape it is.
    pub proof fn lemma_lock_is_final(
        self,
        dx: int,
        dy: int,
        delta: int,
        borders: [[bool; WIDTH]; BORDER_ROWS],
    )
        ensures
            self.stationary ==> self.moved(dx, dy, borders).stationary,
            self.stationary ==> self.rotated(delta, borders).stationary,
            self.moved(dx, dy, borders).shape_type == self.shape_type,
            self.rotated(delta, borders).shape_type == self.shape_type,
            self.rotated(delta, borders).stationary == self.stationary,
    {
    }

    /// A request that asks for no sideways step leaves every cell in its
    /// column, and one that asks for no step down leaves every cell at its
    /// height.
    pub proof fn lemma_moved_straight(self, dx: int, dy: int, borders: [[bool; WIDTH]; BORDER_ROWS])
        ensures
            dx == 0 ==> self.moved(dx, dy, borders).same_columns(self),
            dy == 0 ==> self.moved(dx, dy, borders).same_heights(self),
    {
    }

    /// Displacing a piece that is laid out as a table asks leaves it laid out
    /// so, where the table starts with the first row itself and all its rows
    /// have cells.
    pub proof fn lemma_translated_laid_as(self, table: Seq<(int, int, int)>, dx: int, dy: int)
        requires
            self.laid_as(table),
            1 <= table.len() <= 4,
            table[0].0 == 0,
            table[0].1 == 0,
            forall|k: int| 0 <= k < table.len() ==> (#[trigger] table[k]).2 >= 1,
        ensures
            self.translated(dx, dy).laid_as(table),
    {
        let x = self.first.x;
        let y = self.first.y;
        lemma_run_shifted(x + table[0].0, y + table[0].1, table[0].2, dx, dy);
        if table.len() > 1 {
            lemma_run_shifted(x + table[1].0, y + table[1].1, table[1].2, dx, dy);
        }
        if table.len() > 2 {
            lemma_run_shifted(x + table[2].0, y + table[2].1, table[2].2, dx, dy);
        }
        if table.len() > 3 {
            lemma_run_shifted(x + table[3].0, y + table[3].1, table[3].2, dx, dy);
        }
    }

    /// Moving keeps a piece well formed, whatever comes of the request, and
    /// keeps it laid out as it was: as a turn leaves it, or as fresh.
    pub proof fn lemma_moved_well_formed(
        self,
        dx: int,
        dy: int,
        borders: [[bool; WIDTH]; BORDER_ROWS],
    )
        requires
            self.well_formed(),
        ensures
            self.moved(dx, dy, borders).well_formed(),
            self.laid_as_turned() ==> self.moved(dx, dy, borders).laid_as_turned(),
            self.laid_as_fresh() ==> self.moved(dx, dy, borders).laid_as_fresh(),
    {
        if self.laid_as_turned() {
            self.lemma_translated_laid_as(shape_rows(self.shape_type, self.rotation), dx, dy);
        }
        if self.laid_as_fresh() {
            self.lemma_translated_laid_as(fresh_rows(self.shape_type), dx, dy);
        }
    }

    /// Turning keeps a piece well formed, whether the turn is refused or not,
    /// and a piece that was rebuilt is laid out as a turn leaves it.
    pub proof fn lemma_rotated_well_formed(
        self,
        delta: int,
        borders: [[bool; WIDTH]; BORDER_ROWS],
    )
        requires
            self.well_formed(),
            delta % 90 == 0,
        ensures
            self.rotated(delta, borders).well_formed(),
            !self.stationary && self.shape_type != 3 ==> self.rotated(
                delta,
                borders,
            ).laid_as_turned(),
    {
        let angle = normalized(self.rotation + delta);
        assert(angle == 0 || angle == 90 || angle == 180 || angle == 270);
        let turned = self.turned_to(angle);
        if self.shape_type != 3 {
            assert(turned.laid_as_turned());
            assert(turned.turned_to(self.rotation).laid_as_turned());
        }
    }

    /// Four quarter turns in a row, none of them refused, bring a piece back
    /// to its angle, bring its first row back to where it stood, and leave
    /// the piece laid out as a turn leaves it.
    pub proof fn lemma_four_turns_come_round(self, borders: [[bool; WIDTH]; BORDER_ROWS])
        requires
            self.well_formed(),
            !self.stationary,
            self.shape_type != 3,
            !self.turn_refused(90, borders),
            !self.rotated(90, borders).turn_refused(90, borders),
            !self.rotated(90, borders).rotated(90, borders).turn_refused(90, borders),
            !self.rotated(90, borders).rotated(90, borders).rotated(90, borders).turn_refused(
                90,
                borders,
            ),
        ensures
            ({
                let back = self.rotated(90, borders).rotated(90, borders).rotated(
                    90,
                    borders,
                ).rotated(90, borders);
                &&& back.rotation == self.rotation
                &&& back.shape_type == self.shape_type
                &&& !back.stationary
                &&& back.first == self.first
                &&& back.laid_as_turned()
            }),
    {
        let once = self.rotated(90, borders);
        let twice = once.rotated(90, borders);
        let thrice = twice.rotated(90, borders);
        let back = thrice.rotated(90, borders);
        self.lemma_rotated_well_formed(90, borders);
        once.lemma_rotated_well_formed(90, borders);
        twice.lemma_rotated_well_formed(90, borders);
        thrice.lemma_rotated_well_formed(90, borders);
        assert(once.first.x == self.first.x + first_row_shift(self.shape_type, once.rotation));
        assert(twice.first.x == once.first.x + first_row_shift(self.shape_type, twice.rotation));
        assert(thrice.first.x == twice.first.x + first_row_shift(self.shape_type, thrice.rotation));
        assert(back.first.x == thrice.first.x + first_row_shift(self.shape_type, back.rotation));
        assert(back.rotation == self.rotation);
        assert(back.first.x == self.first.x);
        assert(back.first.y == self.first.y);
        assert(back.first.cells =~= self.first.cells);
    }

    /// Four quarter turns in a row, none of them refused, bring a piece back
    /// to the angle and to the cells that it had. This is so of a piece
    /// that has locked and of one laid out as a turn leaves it, which leaves
    /// out only the fresh piece of shape 5 that still falls.
    pub proof fn lemma_four_quarter_turns(self, borders: [[bool; WIDTH]; BORDER_ROWS])
        requires
            self.well_formed(),
            self.stationary || self.laid_as_turned(),
            !self.turn_refused(90, borders),
            !self.rotated(90, borders).turn_refused(90, borders),
            !self.rotated(90, borders).rotated(90, borders).turn_refused(90, borders),
            !self.rotated(90, borders).rotated(90, borders).rotated(90, borders).turn_refused(
                90,
                borders,
            ),
        ensures
            self.rotated(90, borders).rotated(90, borders).rotated(90, borders).rotated(
                90,
                borders,
            ).same_layout(self),
    {
        if !self.stationary && self.shape_type != 3 {
            let back = self.rotated(90, borders).rotated(90, borders).rotated(90, borders).rotated(
                90,
                borders,
            );
            self.lemma_four_turns_come_round(borders);
            assert(back.second.cells =~= self.second.cells);
            assert(back.third.cells =~= self.third.cells);
            assert(back.fourth.cells =~= self.fourth.cells);
        }
    }

    /// A fresh piece of shape 5 is not brought back by four quarter turns,
    /// none of them refused: its first row is, but its single lower cell
    /// comes to stand one column further right, under the right end of the
    /// first row.
    pub proof fn lemma_four_turns_of_fresh_tee(self, borders: [[bool; WIDTH]; BORDER_ROWS])
        requires
            self.shape_type == 5,
            self.laid_as_fresh(),
            !self.stationary,
            !self.turn_refused(90, borders),
            !self.rotated(90, borders).turn_refused(90, borders),
            !self.rotated(90, borders).rotated(90, borders).turn_refused(90, borders),
            !self.rotated(90, borders).rotated(90, borders).rotated(90, borders).turn_refused(
                90,
                borders,
            ),
        ensures
            ({
                let back = self.rotated(90, borders).rotated(90, borders).rotated(
                    90,
                    borders,
                ).rotated(90, borders);
                &&& back.rotation == 0
                &&& back.first == self.first
                &&& self.second == Row::run(self.first.x + 1, self.first.y + 1, 1)
                &&& back.second == Row::run(self.first.x + 2, self.first.y + 1, 1)
                &&& back.third.is_empty()
                &&& back.fourth.is_empty()
            }),
    {
        self.lemma_four_turns_come_round(borders);
    }

    /// A piece rebuilt for an angle at which its shape has a silhouette is as
    /// good as the rows of that silhouette are, placed from where the first
    /// row comes to stand.
    pub proof fn lemma_turned_layout(self, angle: int)
        requires
            self.representable(),
            silhouette(self.shape_type, angle).len() > 0,
        ensures
            self.turned_to(angle).first.x == self.first.x + first_row_shift(self.shape_type, angle),
            self.turned_to(angle).first.y == self.first.y,
            self.turned_to(angle).representable() <==> layout_ok(
                silhouette(self.shape_type, angle),
                self.first.x + first_row_shift(self.shape_type, angle),
                self.first.y,
                false,
            ),
            self.turned_to(angle).representable() && self.turned_to(angle).can_probe() <==> layout_ok(
                silhouette(self.shape_type, angle),
                self.first.x + first_row_shift(self.shape_type, angle),
                self.first.y,
                true,
            ),
    {
        let table = silhouette(self.shape_type, angle);
        let x = self.first.x + first_row_shift(self.shape_type, angle);
        let y = self.first.y;
        let turned = self.turned_to(angle);
        assert(table.len() <= 4);
        assert(table[0].0 == 0 && table[0].1 == 0);
        assert(turned.first == Row::run(x + table[0].0, y + table[0].1, table[0].2));
        if table.len() > 1 {
            assert(turned.second == Row::run(x + table[1].0, y + table[1].1, table[1].2));
        }
        if table.len() > 2 {
            assert(turned.third == Row::run(x + table[2].0, y + table[2].1, table[2].2));
        }
        if table.len() > 3 {
            assert(turned.fourth == Row::run(x + table[3].0, y + table[3].1, table[3].2));
        }
    }
}

/// A run of cells displaced is the run that starts at the displaced place.
pub proof fn lemma_run_shifted(x: int, y: int, n: int, dx: int, dy: int)
    ensures
        Row::run(x, y, n).shifted(dx, dy) == Row::run(x + dx, y + dy, n),
{
    assert(Row::run(x, y, n).shifted(dx, dy).cells =~= Row::run(x + dx, y + dy, n).cells);
}

/// A run of cells is representable exactly when its anchor is and its last
/// cell does not pass the largest machine integer.
pub proof fn lemma_run_representable(x: int, y: int, n: int)
    ensures
        Row::run(x, y, n).representable() <==> (i32::MIN <= x <= i32::MAX && i32::MIN <= y
            <= i32::MAX && (n > 0 ==> x + n - 1 <= i32::MAX)),
{
    let row = Row::run(x, y, n);
    if row.representable() && n > 0 {
        assert(row.cells[n - 1].x == x + n - 1);
    }
}

} // verus!
