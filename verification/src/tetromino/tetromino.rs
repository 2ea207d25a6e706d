use vstd::prelude::*;
use crate::tetromino::line::{fits_i32, Line, Row};
use crate::tetromino::piece::{
    first_row_shift, layout_ok, lemma_run_probes, lemma_run_representable, normalized, row_admits,
    row_lands, row_probes, silhouette, Piece,
};
use crate::{BORDER_ROWS, WIDTH};

verus! {

/// A table of rows as whole numbers.
pub open spec fn table_of(rows: Seq<(i32, i32, i32)>) -> Seq<(int, int, int)> {
    Seq::new(rows.len(), |k: int| (rows[k].0 as int, rows[k].1 as int, rows[k].2 as int))
}

/// The rows of a shape at an angle, top to bottom, each as the offset of its
/// left end from the left end of the first row and its number of cells; no
/// rows where the shape has no silhouette at that angle.
pub fn silhouette_rows(shape_type: i32, rotation: i32) -> (rows: Vec<(i32, i32, i32)>)
    ensures
        table_of(rows@) == silhouette(shape_type as int, rotation as int),
{
    let flat: bool = rotation == 0 || rotation == 180;
    let upright: bool = rotation == 90 || rotation == 270;
    let rows: Vec<(i32, i32, i32)> = if shape_type == 1 && flat {
        vec![(0, 0, 4)]
    } else if shape_type == 1 && upright {
        vec![(0, 0, 1), (0, 1, 1), (0, 2, 1), (0, 3, 1)]
    } else if shape_type == 2 && rotation == 0 {
        vec![(0, 0, 3), (2, 1, 1)]
    } else if shape_type == 2 && rotation == 90 {
        vec![(0, 0, 2), (0, 1, 1), (0, 2, 1)]
    } else if shape_type == 2 && rotation == 180 {
        vec![(0, 0, 1), (0, 1, 3)]
    } else if shape_type == 2 && rotation == 270 {
        vec![(0, 0, 1), (0, 1, 1), (0, 2, 2)]
    } else if shape_type == 4 && flat {
        vec![(0, 0, 2), (1, 1, 2)]
    } else if shape_type == 4 && upright {
        vec![(0, 0, 1), (-1, 1, 2), (-1, 2, 1)]
    } else if shape_type == 5 && rotation == 0 {
        vec![(0, 0, 3), (2, 1, 1)]
    } else if shape_type == 5 && rotation == 90 {
        vec![(0, 0, 1), (-1, 1, 2), (-1, 2, 1)]
    } else if shape_type == 5 && rotation == 180 {
        vec![(0, 0, 1), (-1, 1, 3)]
    } else if shape_type == 5 && rotation == 270 {
        vec![(0, 0, 1), (-1, 1, 2), (0, 2, 1)]
    } else {
        Vec::new()
    };
    assert(table_of(rows@) =~= silhouette(shape_type as int, rotation as int));
    rows
}

/// How far the first line moves sideways when the shape is laid out afresh
/// for the angle.
pub fn first_shift(shape_type: i32, rotation: i32) -> (shift: i32)
    ensures
        shift == first_row_shift(shape_type as int, rotation as int),
{
    if shape_type == 5 && rotation == 0 {
        -1
    } else if shape_type == 5 && rotation == 90 {
        1
    } else {
        0
    }
}

/// A falling piece: up to four lines of characters, top to bottom.
pub struct Tetromino {
    pub first_line: Line,
    pub second_line: Line,
    pub third_line: Line,
    pub fourth_line: Line,
    pub rotation: i32,
    pub shape_type: i32,
    pub stationary: bool,
}

impl View for Tetromino {
    type V = Piece;

    open spec fn view(&self) -> Piece {
        Piece {
            first: self.first_line@,
            second: self.second_line@,
            third: self.third_line@,
            fourth: self.fourth_line@,
            rotation: self.rotation as int,
            shape_type: self.shape_type as int,
            stationary: self.stationary,
        }
    }
}

impl Tetromino {
    /// A piece of the given shape from its two upper lines, not turned, not
    /// locked, with the two lower slots unused.
    pub fn new(first_line: Line, second_line: Line, shape_type: i32) -> (piece: Tetromino)
        ensures
            piece@ == (Piece {
                first: first_line@,
                second: second_line@,
                third: Row::run(0, 0, 0),
                fourth: Row::run(0, 0, 0),
                rotation: 0,
                shape_type: shape_type as int,
                stationary: false,
            }),
    {
        Tetromino {
            first_line,
            second_line,
            third_line: Line::new(0, 0, 0),
            fourth_line: Line::new(0, 0, 0),
            rotation: 0,
            shape_type,
            stationary: false,
        }
    }

    /// A piece without cells and without a shape, its first row anchored at
    /// `(x_position, 1)`.
    pub fn blank_tetromino(x_position: i32) -> (piece: Tetromino)
        ensures
            piece@ == (Piece {
                first: Row::run(x_position as int, 1, 0),
                second: Row::run(0, 2, 0),
                third: Row::run(0, 0, 0),
                fourth: Row::run(0, 0, 0),
                rotation: 0,
                shape_type: 0,
                stationary: false,
            }),
    {
        Tetromino::new(Line::new(x_position, 1, 0), Line::new(0, 2, 0), 0)
    }

    /// Takes the characters out of all four lines; the anchors stay.
    pub fn clear(&mut self)
        ensures
            final(self)@ == old(self)@.cleared(),
    {
        self.first_line.characters.clear();
        self.second_line.characters.clear();
        self.third_line.characters.clear();
        self.fourth_line.characters.clear();
        assert(self@.first.cells =~= old(self)@.cleared().first.cells);
        assert(self@.second.cells =~= old(self)@.cleared().second.cells);
        assert(self@.third.cells =~= old(self)@.cleared().third.cells);
        assert(self@.fourth.cells =~= old(self)@.cleared().fourth.cells);
    }
    /// Rebuilds the lines for `rotation` from where the first line stands: the
    /// first line is moved sideways as the shape asks at that angle, and every
    /// line is placed by the offset that the silhouette gives it from there.
    /// A shape without a silhouette at that angle stays as it is.
    pub fn rotate_shape(&mut self, rotation: i32)
        requires
            old(self)@.rotate_shape(rotation as int).representable(),
        ensures
            final(self)@ == old(self)@.rotate_shape(rotation as int),
    {
        let ghost table = silhouette(self.shape_type as int, rotation as int);
        let ghost after = self@.rotate_shape(rotation as int);
        let rows: Vec<(i32, i32, i32)> = silhouette_rows(self.shape_type, rotation);
        if rows.len() == 0 {
            return;
        }
        let ghost px = self@.first.x + first_row_shift(self.shape_type as int, rotation as int);
        let ghost py = self@.first.y;
        proof {
            assert(table[0] == (rows@[0].0 as int, rows@[0].1 as int, rows@[0].2 as int));
            lemma_run_representable(px + table[0].0, py + table[0].1, table[0].2);
            if table.len() > 1 {
                assert(table[1] == (rows@[1].0 as int, rows@[1].1 as int, rows@[1].2 as int));
                lemma_run_representable(px + table[1].0, py + table[1].1, table[1].2);
            }
            if table.len() > 2 {
                assert(table[2] == (rows@[2].0 as int, rows@[2].1 as int, rows@[2].2 as int));
                lemma_run_representable(px + table[2].0, py + table[2].1, table[2].2);
            }
            if table.len() > 3 {
                assert(table[3] == (rows@[3].0 as int, rows@[3].1 as int, rows@[3].2 as int));
                lemma_run_representable(px + table[3].0, py + table[3].1, table[3].2);
            }
        }
        let x: i32 = self.first_line.x + first_shift(self.shape_type, rotation);
        let y: i32 = self.first_line.y;
        self.clear();
        self.first_line = Line::new(x + rows[0].0, y + rows[0].1, rows[0].2);
        if rows.len() > 1 {
            self.second_line = Line::new(x + rows[1].0, y + rows[1].1, rows[1].2);
        }
        if rows.len() > 2 {
            self.third_line = Line::new(x + rows[2].0, y + rows[2].1, rows[2].2);
        }
        if rows.len() > 3 {
            self.fourth_line = Line::new(x + rows[3].0, y + rows[3].1, rows[3].2);
        }
        assert(self@.first.cells =~= after.first.cells);
        assert(self@.second.cells =~= after.second.cells);
        assert(self@.third.cells =~= after.third.cells);
        assert(self@.fourth.cells =~= after.fourth.cells);
    }

    /// Whether the piece rests on something: whether, one step further down,
    /// one of its cells would share a position with an occupied one.
    pub fn collides(&mut self, game_borders: &mut [[bool; WIDTH]; BORDER_ROWS]) -> (hit: bool)
        requires
            old(self)@.can_probe(),
        ensures
            hit == old(self)@.collides(*old(game_borders)),
            *final(self) == *old(self),
            *final(game_borders) == *old(game_borders),
    {
        self.rests(game_borders)
    }

    /// Whether the piece rests on something, asked of a piece and a grid
    /// that are only looked at.
    pub fn rests(&self, game_borders: &[[bool; WIDTH]; BORDER_ROWS]) -> (hit: bool)
        requires
            self@.can_probe(),
        ensures
            hit == self@.collides(*game_borders),
    {
        if line_lands(&self.fourth_line, game_borders) {
            return true;
        }
        if line_lands(&self.third_line, game_borders) {
            return true;
        }
        if line_lands(&self.second_line, game_borders) {
            return true;
        }
        line_lands(&self.first_line, game_borders)
    }

    /// Whether the widest line, displaced sideways by `x_units`, would leave
    /// the playable columns.
    pub fn collides_horizontal(&mut self, x_units: i32) -> (blocked: bool)
        ensures
            blocked == old(self)@.collides_horizontal(x_units as int),
            *final(self) == *old(self),
    {
        self.blocked(x_units)
    }

    /// Whether the widest line, displaced sideways by `x_units`, would leave
    /// the playable columns, asked of a piece that is only looked at.
    pub fn blocked(&self, x_units: i32) -> (blocked: bool)
        ensures
            blocked == self@.collides_horizontal(x_units as int),
    {
        let first: usize = self.first_line.characters.len();
        let second: usize = self.second_line.characters.len();
        let third: usize = self.third_line.characters.len();
        let fourth: usize = self.fourth_line.characters.len();
        let mut x: i32 = self.first_line.x;
        let mut count: usize = first;
        if second > count {
            x = self.second_line.x;
            count = second;
        }
        if third > count {
            x = self.third_line.x;
            count = third;
        }
        if fourth > count {
            x = self.fourth_line.x;
            count = fourth;
        }
        assert(x == self@.widest().x && count == self@.widest().cells.len());
        let target: i64 = x as i64 + x_units as i64;
        if target < 1 || count > WIDTH - 1 {
            true
        } else {
            target > (WIDTH - 1 - count) as i64
        }
    }

    /// Whatever a piece holds has coordinates that a machine integer holds.
    pub proof fn lemma_representable(&self)
        ensures
            self@.representable(),
    {
        self.first_line.lemma_representable();
        self.second_line.lemma_representable();
        self.third_line.lemma_representable();
        self.fourth_line.lemma_representable();
    }

    /// Whether the occupancy grid can be asked about the piece: whether
    /// every line that stands in a column of the grid has a grid row beneath
    /// it.
    pub fn can_probe(&self) -> (ok: bool)
        ensures
            ok == self@.can_probe(),
    {
        line_can_probe(&self.first_line) && line_can_probe(&self.second_line) && line_can_probe(
            &self.third_line,
        ) && line_can_probe(&self.fourth_line)
    }

    /// Whether a request to move by `(x_units, y_units)` can be carried out.
    pub fn can_move(
        &self,
        x_units: i32,
        y_units: i32,
        game_borders: &[[bool; WIDTH]; BORDER_ROWS],
    ) -> (ok: bool)
        ensures
            ok == self@.movable(x_units as int, y_units as int, *game_borders),
    {
        proof {
            self.lemma_representable();
        }
        if self.stationary {
            return true;
        }
        if !self.can_probe() {
            return false;
        }
        if self.rests(game_borders) {
            return true;
        }
        if x_units != 0 && self.blocked(x_units) {
            return true;
        }
        (self.first_line.is_empty() || self.first_line.can_shift(x_units, y_units)) && (
        self.second_line.is_empty() || self.second_line.can_shift(x_units, y_units)) && (
        self.third_line.is_empty() || self.third_line.can_shift(x_units, y_units)) && (
        self.fourth_line.is_empty() || self.fourth_line.can_shift(x_units, y_units))
    }

    /// Whether a request to turn by `rotation` degrees can be carried out.
    pub fn can_rotate(&self, rotation: i32) -> (ok: bool)
        ensures
            ok == self@.turnable(rotation as int),
    {
        if self.stationary || self.shape_type == 3 {
            return true;
        }
        let sum: i64 = self.rotation as i64 + rotation as i64;
        let remainder: i64 = sum % 360;
        let angle: i32 = (if remainder < 0 { remainder + 360 } else { remainder }) as i32;
        assert(angle == normalized(self.rotation + rotation));
        let ghost turned = self@.turned_to(angle as int);
        proof {
            self.lemma_representable();
        }
        let rows: Vec<(i32, i32, i32)> = silhouette_rows(self.shape_type, angle);
        let mut x: i64 = self.first_line.x as i64;
        let y: i64 = self.first_line.y as i64;
        if rows.len() == 0 {
            if !self.can_probe() {
                return false;
            }
        } else {
            x = x + first_shift(self.shape_type, angle) as i64;
            proof {
                self@.lemma_turned_layout(angle as int);
            }
            if !layout_fits(&rows, x, y, true) {
                return false;
            }
        }
        assert(turned.representable() && turned.can_probe());
        assert(turned.first.x == x && turned.first.y == y);
        let back: Vec<(i32, i32, i32)> = silhouette_rows(self.shape_type, self.rotation);
        if back.len() == 0 {
            true
        } else {
            proof {
                (Piece { rotation: self.rotation as int, ..turned }).lemma_turned_layout(
                    self.rotation as int,
                );
            }
            layout_fits(&back, x + first_shift(self.shape_type, self.rotation) as i64, y, false)
        }
    }

    /// One request to move by `(x_units, y_units)`: a locked piece stays, a
    /// piece that rests on something locks where it is, a piece asked to go
    /// sideways past the playable columns stays, any other piece is displaced.
    pub fn move_tetromino(
        &mut self,
        x_units: i32,
        y_units: i32,
        game_borders: &mut [[bool; WIDTH]; BORDER_ROWS],
    )
        requires
            old(self)@.movable(x_units as int, y_units as int, *old(game_borders)),
        ensures
            final(self)@ == old(self)@.moved(x_units as int, y_units as int, *old(game_borders)),
            *final(game_borders) == *old(game_borders),
            old(self).stationary ==> *final(self) == *old(self),
            x_units == 0 ==> final(self)@.same_columns(old(self)@),
            y_units == 0 ==> final(self)@.same_heights(old(self)@),
            old(self)@.well_formed() ==> final(self)@.well_formed(),
    {
        proof {
            old(self)@.lemma_moved_straight(x_units as int, y_units as int, *old(game_borders));
            if old(self)@.well_formed() {
                old(self)@.lemma_moved_well_formed(
                    x_units as int,
                    y_units as int,
                    *old(game_borders),
                );
            }
        }
        if self.stationary {
            return;
        }
        if self.collides(game_borders) {
            self.stationary = true;
            return;
        }
        if x_units != 0 && self.collides_horizontal(x_units) {
            return;
        }
        if !self.first_line.is_empty() {
            self.first_line.move_line(x_units, y_units);
        }
        if !self.second_line.is_empty() {
            self.second_line.move_line(x_units, y_units);
        }
        if !self.third_line.is_empty() {
            self.third_line.move_line(x_units, y_units);
        }
        if !self.fourth_line.is_empty() {
            self.fourth_line.move_line(x_units, y_units);
        }
    }

    /// One request to turn by `rotation` degrees: a locked piece and the
    /// square stay; any other piece is rebuilt for the new angle and, where
    /// it then rests on something or reaches past the playable columns,
    /// rebuilt once more for the angle it had.
    pub fn rotate(&mut self, rotation: i32, game_borders: &mut [[bool; WIDTH]; BORDER_ROWS])
        requires
            old(self)@.turnable(rotation as int),
        ensures
            final(self)@ == old(self)@.rotated(rotation as int, *old(game_borders)),
            *final(game_borders) == *old(game_borders),
            old(self).stationary || old(self).shape_type == 3 ==> *final(self) == *old(self),
            old(self)@.well_formed() && rotation % 90 == 0 ==> final(self)@.well_formed(),
    {
        proof {
            if old(self)@.well_formed() && rotation % 90 == 0 {
                old(self)@.lemma_rotated_well_formed(rotation as int, *old(game_borders));
            }
        }
        if self.stationary {
            return;
        }
        if self.shape_type == 3 {
            return;
        }
        let sum: i64 = self.rotation as i64 + rotation as i64;
        let remainder: i64 = sum % 360;
        let angle: i64 = if remainder < 0 { remainder + 360 } else { remainder };
        let new_rotation: i32 = angle as i32;
        assert(new_rotation == normalized(self.rotation + rotation));
        let past_rotation: i32 = self.rotation;
        self.rotation = new_rotation;
        self.rotate_shape(new_rotation);
        if self.collides(game_borders) || self.collides_horizontal(0) {
            self.rotation = past_rotation;
            self.rotate_shape(past_rotation);
        }
    }
}

/// Whether every row of the table, placed from `(x, y)`, has coordinates
/// that a machine integer holds and, where `probe` asks for it, is one that
/// the occupancy grid can be asked about.
fn layout_fits(rows: &Vec<(i32, i32, i32)>, x: i64, y: i64, probe: bool) -> (ok: bool)
    requires
        i32::MIN - 1 <= x <= i32::MAX + 1,
        i32::MIN <= y <= i32::MAX,
    ensures
        ok == layout_ok(table_of(rows@), x as int, y as int, probe),
{
    let ghost table = table_of(rows@);
    let n: usize = rows.len();
    let mut k: usize = 0;
    while k < n
        invariant
            k <= n,
            n == rows@.len(),
            table == table_of(rows@),
            i32::MIN - 1 <= x <= i32::MAX + 1,
            i32::MIN <= y <= i32::MAX,
            forall|m: int|
                0 <= m < k ==> {
                    let row = Row::run(x + (#[trigger] table[m]).0, y + table[m].1, table[m].2);
                    row.representable() && (probe ==> row_admits(row))
                },
        decreases n - k,
    {
        let left: i64 = x + rows[k].0 as i64;
        let height: i64 = y + rows[k].1 as i64;
        let count: i64 = rows[k].2 as i64;
        let ghost row = Row::run(left as int, height as int, count as int);
        proof {
            let row = rows@[k as int];
            assert(table[k as int] == (row.0 as int, row.1 as int, row.2 as int));
            lemma_run_representable(left as int, height as int, count as int);
            lemma_run_probes(left as int, height as int, count as int);
        }
        if !fits_i32(left) || !fits_i32(height) || (count > 0 && !fits_i32(left + count - 1)) {
            return false;
        }
        if probe && count > 0 && left + count - 1 >= 0 && left < WIDTH as i64 && !(-1 <= height
            && height < (BORDER_ROWS - 1) as i64) {
            return false;
        }
        k = k + 1;
    }
    true
}

/// Whether the occupancy grid can be asked about the line: whether the line
/// stands in no column of the grid or has a grid row beneath it.
fn line_can_probe(line: &Line) -> (ok: bool)
    ensures
        ok == row_admits(line@),
{
    if -1 <= line.y && line.y < (BORDER_ROWS - 1) as i32 {
        return true;
    }
    let n: usize = line.characters.len();
    let mut i: usize = 0;
    while i < n
        invariant
            i <= n,
            n == line.characters@.len(),
            !(-1 <= line.y < BORDER_ROWS - 1),
            forall|k: int| 0 <= k < i ==> !(0 <= (#[trigger] line@.cells[k]).x < WIDTH),
        decreases n - i,
    {
        let column: i32 = line.characters[i].x;
        assert(line@.cells[i as int].x == column);
        if 0 <= column && (column as usize) < WIDTH {
            assert(0 <= line@.cells[i as int].x < WIDTH);
            assert(row_probes(line@));
            return false;
        }
        i = i + 1;
    }
    true
}

/// Whether some character of the line has an occupied position directly
/// beneath the line.
fn line_lands(line: &Line, game_borders: &[[bool; WIDTH]; BORDER_ROWS]) -> (hit: bool)
    requires
        row_admits(line@),
    ensures
        hit == row_lands(line@, *game_borders),
{
    let n: usize = line.characters.len();
    let mut i: usize = 0;
    while i < n
        invariant
            i <= n,
            n == line.characters@.len(),
            row_admits(line@),
            forall|k: int|
                0 <= k < i ==> !(0 <= (#[trigger] line@.cells[k]).x < WIDTH && game_borders[line.y
                    + 1][line@.cells[k].x]),
        decreases n - i,
    {
        let column: i32 = line.characters[i].x;
        assert(line@.cells[i as int].x == column);
        if 0 <= column && (column as usize) < WIDTH {
            let below: usize = (line.y + 1) as usize;
            if game_borders[below][column as usize] {
                return true;
            }
        }
        i = i + 1;
    }
    false
}

} // verus!
