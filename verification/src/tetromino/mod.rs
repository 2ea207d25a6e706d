use vstd::prelude::*;
use rand::Rng;
use crate::tetromino::line::{Line, Row};
use crate::tetromino::piece::Piece;
use crate::tetromino::tetromino::Tetromino;
use crate::WIDTH;

pub mod characters;
pub mod line;
pub mod piece;
pub mod tetromino;

verus! {

/// How many cells the first row of a fresh piece has.
pub open spec fn spawn_first_count(shape_type: int) -> int {
    if shape_type == 1 {
        4
    } else if shape_type == 2 || shape_type == 5 {
        3
    } else {
        2
    }
}

/// How far right of the first row the second row of a fresh piece starts.
pub open spec fn spawn_second_offset(shape_type: int) -> int {
    if shape_type == 2 {
        2
    } else if shape_type == 4 || shape_type == 5 {
        1
    } else {
        0
    }
}

/// How many cells the second row of a fresh piece has.
pub open spec fn spawn_second_count(shape_type: int) -> int {
    if shape_type == 1 {
        0
    } else if shape_type == 3 || shape_type == 4 {
        2
    } else {
        1
    }
}

impl Piece {
    /// The fresh piece of a shape whose first row starts in column `x`: the
    /// first row at height 1, the second, where the shape has one, at height
    /// 2; not turned and not locked.
    pub open spec fn spawned(shape_type: int, x: int) -> Piece {
        Piece {
            first: Row::run(x, 1, spawn_first_count(shape_type)),
            second: if shape_type == 1 {
                Row::run(0, 2, 0)
            } else {
                Row::run(
                    x + spawn_second_offset(shape_type),
                    2,
                    spawn_second_count(shape_type),
                )
            },
            third: Row::run(0, 0, 0),
            fourth: Row::run(0, 0, 0),
            rotation: 0,
            shape_type,
            stationary: false,
        }
    }
}

/// A fresh piece of any of the five shapes is well formed, laid out as
/// fresh pieces are.
pub proof fn lemma_spawned_well_formed(shape_type: int, x: int)
    requires
        1 <= shape_type <= 5,
    ensures
        Piece::spawned(shape_type, x).well_formed(),
        Piece::spawned(shape_type, x).laid_as_fresh(),
{
}

/// Draws an integer from `low` up to, not including, `high` with
/// `rand::Rng::gen_range` on the generator that `rand::thread_rng` hands out.
/// Nothing here is proved of the call: the bounds are taken from what the
/// generator promises of a range that is not empty, and an empty range, on
/// which it panics, is not drawn from.
#[verifier::external_body]
fn random_between(low: i32, high: i32) -> (drawn: i32)
    requires
        low < high,
    ensures
        low <= drawn < high,
{
    rand::thread_rng().gen_range(low..high)
}

/// Draws one of the five shapes.
fn random_tetronimo() -> (shape_type: i32)
    ensures
        1 <= shape_type <= 5,
{
    random_between(1, 6)
}

/// Draws the column in which a fresh piece starts.
fn random_tetromino_position() -> (x: i32)
    ensures
        2 <= x < WIDTH - 4,
{
    random_between(2, (WIDTH - 4) as i32)
}

/// The fresh piece of shape `shape_type` with its first row starting in
/// column `x_position`.
pub fn spawn_shape(shape_type: i32, x_position: i32) -> (piece: Tetromino)
    requires
        1 <= shape_type <= 5,
        x_position + 3 <= i32::MAX,
    ensures
        piece@ == Piece::spawned(shape_type as int, x_position as int),
        piece@.well_formed(),
{
    proof {
        lemma_spawned_well_formed(shape_type as int, x_position as int);
    }
    let mut tetromino_shape: Tetromino = Tetromino::blank_tetromino(x_position);
    let y: i32 = tetromino_shape.first_line.y;
    if shape_type == 1 {
        tetromino_shape.first_line.characters = Line::create_characters(x_position, y, 4);
        tetromino_shape.shape_type = 1;
    } else if shape_type == 2 {
        tetromino_shape.first_line.characters = Line::create_characters(x_position, y, 3);
        tetromino_shape.second_line.characters = Line::create_characters(x_position + 2, y + 1, 1);
        tetromino_shape.second_line.x = x_position + 2;
        tetromino_shape.shape_type = 2;
    } else if shape_type == 3 {
        tetromino_shape.first_line.characters = Line::create_characters(x_position, y, 2);
        tetromino_shape.second_line.characters = Line::create_characters(x_position, y + 1, 2);
        tetromino_shape.second_line.x = x_position;
        tetromino_shape.shape_type = 3;
    } else if shape_type == 4 {
        tetromino_shape.first_line.characters = Line::create_characters(x_position, y, 2);
        tetromino_shape.second_line.characters = Line::create_characters(x_position + 1, y + 1, 2);
        tetromino_shape.second_line.x = x_position + 1;
        tetromino_shape.shape_type = 4;
    } else {
        tetromino_shape.first_line.characters = Line::create_characters(x_position, y, 3);
        tetromino_shape.second_line.characters = Line::create_characters(x_position + 1, y + 1, 1);
        tetromino_shape.second_line.x = x_position + 1;
        tetromino_shape.shape_type = 5;
    }
    tetromino_shape
}

/// Replaces the piece by a fresh one of a shape and in a column both drawn
/// at random: the shape among the five, the column among those from 2 up to,
/// not including, four short of the board's width.
pub fn create_tetronimo(current_tetromino: &mut Tetromino)
    ensures
        exists|shape_type: int, x: int|
            1 <= shape_type <= 5 && 2 <= x < WIDTH - 4 && final(current_tetromino)@
                == #[trigger] Piece::spawned(shape_type, x),
        final(current_tetromino)@.well_formed(),
{
    let random_number: i32 = random_tetronimo();
    let x_position: i32 = random_tetromino_position();
    *current_tetromino = spawn_shape(random_number, x_position);
}

} // verus!
