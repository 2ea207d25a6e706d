use rust_tetris::display::{create_screen, display_screen};
use rust_tetris::tetromino::characters::TetrominoCharacter;
use rust_tetris::tetromino::line::Line;
use rust_tetris::tetromino::spawn_shape;
use rust_tetris::tetromino::tetromino::Tetromino;

const EMPTY_ROW: &str = "<! .  .  .  .  .  .  .  .  .  . !>";

fn drawn_screen() -> [[&'static str; 12]; 40] {
    let mut screen = [[""; 12]; 40];
    create_screen(&mut screen);
    screen
}

fn empty_board() -> [[TetrominoCharacter; 12]; 40] {
    [[TetrominoCharacter::default(); 12]; 40]
}

#[test]
fn empty_screen_has_borders_and_background() {
    let screen = drawn_screen();
    for row in screen.iter() {
        assert_eq!(row[0], "<!");
        assert_eq!(row[11], "!>");
        for x in 1..11 {
            assert_eq!(row[x], " . ");
        }
    }
}

#[test]
fn create_screen_overwrites_what_was_there() {
    let mut screen = [["??"; 12]; 40];
    create_screen(&mut screen);
    assert_eq!(screen, drawn_screen());
}

#[test]
fn board_without_anything_shows_the_empty_screen() {
    let rows = display_screen(&drawn_screen(), &Tetromino::blank_tetromino(5), &empty_board());
    assert_eq!(rows.len(), 40);
    for row in rows.iter() {
        assert_eq!(row, EMPTY_ROW);
    }
}

#[test]
fn falling_piece_is_shown_row_by_row() {
    let rows = display_screen(&drawn_screen(), &spawn_shape(5, 4), &empty_board());
    assert_eq!(rows[0], EMPTY_ROW);
    assert_eq!(rows[1], "<! .  .  . [ ][ ][ ] .  .  .  . !>");
    assert_eq!(rows[2], "<! .  .  .  . [ ] .  .  .  .  . !>");
    for row in rows[3..].iter() {
        assert_eq!(row, EMPTY_ROW);
    }
}

#[test]
fn row_of_a_piece_takes_as_many_columns_as_it_has_cells() {
    let rows = display_screen(&drawn_screen(), &spawn_shape(1, 7), &empty_board());
    assert_eq!(rows[1], "<! .  .  .  .  .  . [ ][ ][ ][ ]!>");
    let wide = Tetromino::new(Line::new(10, 3, 4), Line::new(0, 0, 0), 1);
    let rows = display_screen(&drawn_screen(), &wide, &empty_board());
    assert_eq!(rows[3], "<! .  .  .  .  .  .  .  .  . [ ][ ][ ][ ]");
    let left = Tetromino::new(Line::new(0, 3, 2), Line::new(0, 0, 0), 1);
    let rows = display_screen(&drawn_screen(), &left, &empty_board());
    assert_eq!(rows[3], "[ ][ ] .  .  .  .  .  .  .  .  . !>");
}

#[test]
fn all_four_rows_of_a_standing_bar_are_shown() {
    let mut piece = spawn_shape(1, 4);
    piece.rotate_shape(90);
    let rows = display_screen(&drawn_screen(), &piece, &empty_board());
    for y in 1..=4 {
        assert_eq!(rows[y], "<! .  .  . [ ] .  .  .  .  .  . !>");
    }
    assert_eq!(rows[5], EMPTY_ROW);
}

#[test]
fn locked_cells_are_shown_where_they_belong() {
    let mut board = empty_board();
    board[39][1] = TetrominoCharacter::new(1, 39, "[ ]");
    board[39][10] = TetrominoCharacter::new(10, 39, "[ ]");
    board[20][5] = TetrominoCharacter::new(5, 20, "##");
    let rows = display_screen(&drawn_screen(), &Tetromino::blank_tetromino(5), &board);
    assert_eq!(rows[39], "<![ ] .  .  .  .  .  .  .  . [ ]!>");
    assert_eq!(rows[20], "<! .  .  .  . ## .  .  .  .  . !>");
    assert_eq!(rows[0], EMPTY_ROW);
}

#[test]
fn locked_cell_that_names_another_position_is_not_shown() {
    let mut board = empty_board();
    board[20][5] = TetrominoCharacter::new(5, 21, "[ ]");
    board[21][5] = TetrominoCharacter::new(4, 21, "[ ]");
    let rows = display_screen(&drawn_screen(), &Tetromino::blank_tetromino(5), &board);
    assert_eq!(rows[20], EMPTY_ROW);
    assert_eq!(rows[21], EMPTY_ROW);
}

#[test]
fn locked_cell_is_shown_in_front_of_the_piece() {
    let mut board = empty_board();
    board[1][4] = TetrominoCharacter::new(4, 1, "##");
    let rows = display_screen(&drawn_screen(), &spawn_shape(3, 4), &board);
    assert_eq!(rows[1], "<! .  .  . ## .  .  .  .  .  . !>");
    assert_eq!(rows[2], "<! .  .  . [ ][ ] .  .  .  .  . !>");
}

#[test]
fn locked_cell_behind_a_row_of_the_piece_is_passed_over() {
    let mut board = empty_board();
    board[1][5] = TetrominoCharacter::new(5, 1, "##");
    let rows = display_screen(&drawn_screen(), &spawn_shape(3, 4), &board);
    assert_eq!(rows[1], "<! .  .  . [ ][ ] .  .  .  .  . !>");
}

#[test]
fn of_two_rows_with_one_anchor_the_upper_is_shown() {
    let piece = Tetromino::new(Line::new(3, 2, 1), Line::new(3, 2, 3), 2);
    let rows = display_screen(&drawn_screen(), &piece, &empty_board());
    assert_eq!(rows[2], "<! .  . [ ] .  .  .  .  .  .  . !>");
}

#[test]
fn piece_off_the_board_is_not_shown() {
    let piece = Tetromino::new(Line::new(-1, 2, 3), Line::new(12, 3, 3), 2);
    let rows = display_screen(&drawn_screen(), &piece, &empty_board());
    for row in rows.iter() {
        assert_eq!(row, EMPTY_ROW);
    }
    let below = Tetromino::new(Line::new(3, 40, 3), Line::new(3, -1, 3), 2);
    let rows = display_screen(&drawn_screen(), &below, &empty_board());
    for row in rows.iter() {
        assert_eq!(row, EMPTY_ROW);
    }
}

#[test]
fn display_goes_by_the_screen_it_is_given() {
    let mut screen = drawn_screen();
    screen[7][3] = "~~~";
    let rows = display_screen(&screen, &Tetromino::blank_tetromino(5), &empty_board());
    assert_eq!(rows[7], "<! .  . ~~~ .  .  .  .  .  .  . !>");
}
