use rust_tetris::tetromino::characters::TetrominoCharacter;
use rust_tetris::tetromino::line::Line;
use rust_tetris::tetromino::spawn_shape;
use rust_tetris::tetromino::tetromino::Tetromino;
use rust_tetris::{
    can_settle, check_complete_line, fits_board, merge_cells, move_to_built, remake_gameborders,
    BORDER_ROWS, HEIGHT, WIDTH,
};

type Board = [[TetrominoCharacter; 12]; 40];

fn empty_board() -> Board {
    [[TetrominoCharacter::default(); 12]; 40]
}

fn put(board: &mut Board, y: usize, x: usize) {
    board[y][x] = TetrominoCharacter::new(x as i32, y as i32, "[ ]");
}

fn fill_row(board: &mut Board, y: usize) {
    for x in 1..11 {
        put(board, y, x);
    }
}

fn snapshot(board: &Board) -> Vec<Vec<(i32, i32, &'static str)>> {
    board.iter().map(|row| row.iter().map(|c| (c.x, c.y, c.value)).collect()).collect()
}

fn occupied(board: &Board) -> Vec<(usize, usize)> {
    let mut found = Vec::new();
    for y in 0..40 {
        for x in 0..12 {
            if board[y][x].is_occupied() {
                found.push((y, x));
            }
        }
    }
    found
}

#[test]
fn board_has_twelve_columns_and_forty_rows_above_the_floor() {
    assert_eq!(WIDTH, 12);
    assert_eq!(HEIGHT, 40);
    assert_eq!(BORDER_ROWS, 41);
}

#[test]
fn single_complete_row_is_taken_out() {
    let mut board = empty_board();
    fill_row(&mut board, 5);
    put(&mut board, 4, 3);
    put(&mut board, 4, 7);
    put(&mut board, 2, 1);
    put(&mut board, 6, 9);
    let before = snapshot(&board);
    let mut score: u32 = 250;
    assert!(check_complete_line(&mut board, &mut score));
    assert_eq!(score, 350);
    let after = snapshot(&board);
    for x in 0..12 {
        assert_eq!(after[0][x], (0, 0, ""));
        for y in 1..=5 {
            let (bx, by, glyph) = before[y - 1][x];
            assert_eq!(after[y][x], (bx, by + 1, glyph));
        }
        for y in 6..40 {
            assert_eq!(after[y][x], before[y][x]);
        }
    }
    assert_eq!(occupied(&board), vec![(3, 1), (5, 3), (5, 7), (6, 9)]);
    assert_eq!((board[5][3].x, board[5][3].y), (3, 5));
}

#[test]
fn board_without_complete_row_stays_as_it_is() {
    let mut board = empty_board();
    for x in 1..10 {
        put(&mut board, 20, x);
    }
    for x in 2..11 {
        put(&mut board, 21, x);
    }
    put(&mut board, 39, 0);
    put(&mut board, 39, 11);
    let before = snapshot(&board);
    let mut score: u32 = 700;
    assert!(!check_complete_line(&mut board, &mut score));
    assert_eq!(score, 700);
    assert_eq!(snapshot(&board), before);
}

#[test]
fn empty_board_has_nothing_to_take_out() {
    let mut board = empty_board();
    let before = snapshot(&board);
    let mut score: u32 = 0;
    assert!(!check_complete_line(&mut board, &mut score));
    assert_eq!(score, 0);
    assert_eq!(snapshot(&board), before);
}

#[test]
fn three_complete_rows_are_taken_out_together() {
    let mut board = empty_board();
    fill_row(&mut board, 10);
    fill_row(&mut board, 11);
    fill_row(&mut board, 12);
    put(&mut board, 9, 4);
    put(&mut board, 3, 8);
    put(&mut board, 13, 2);
    put(&mut board, 39, 6);
    let before = snapshot(&board);
    let mut score: u32 = 0;
    assert!(check_complete_line(&mut board, &mut score));
    assert_eq!(score, 300);
    let after = snapshot(&board);
    for x in 0..12 {
        for y in 0..3 {
            assert!(after[y][x].2.is_empty());
        }
        for y in 3..=12 {
            let (bx, by, glyph) = before[y - 3][x];
            assert_eq!(after[y][x], (bx, by + 3, glyph));
        }
        for y in 13..40 {
            assert_eq!(after[y][x], before[y][x]);
        }
    }
    assert_eq!(occupied(&board), vec![(6, 8), (12, 4), (13, 2), (39, 6)]);
    assert_eq!((board[12][4].x, board[12][4].y), (4, 12));
    assert_eq!((board[6][8].x, board[6][8].y), (8, 6));
}

#[test]
fn complete_rows_apart_from_each_other_are_both_taken_out() {
    let mut board = empty_board();
    fill_row(&mut board, 7);
    fill_row(&mut board, 30);
    put(&mut board, 6, 1);
    put(&mut board, 20, 5);
    put(&mut board, 35, 9);
    let mut score: u32 = 1000;
    assert!(check_complete_line(&mut board, &mut score));
    assert_eq!(score, 1200);
    assert_eq!(occupied(&board), vec![(8, 1), (21, 5), (35, 9)]);
    assert_eq!((board[8][1].x, board[8][1].y), (1, 8));
    assert_eq!((board[21][5].x, board[21][5].y), (5, 21));
}

#[test]
fn top_row_complete_is_emptied() {
    let mut board = empty_board();
    fill_row(&mut board, 0);
    let mut score: u32 = 0;
    assert!(check_complete_line(&mut board, &mut score));
    assert_eq!(score, 100);
    assert_eq!(occupied(&board), vec![]);
}

#[test]
fn border_columns_do_not_count_towards_a_complete_row() {
    let mut board = empty_board();
    fill_row(&mut board, 39);
    let mut score: u32 = 0;
    assert!(check_complete_line(&mut board, &mut score));
    let mut other = empty_board();
    for x in 0..12 {
        if x != 5 {
            put(&mut other, 39, x);
        }
    }
    assert!(!check_complete_line(&mut other, &mut score));
    assert_eq!(score, 100);
}

#[test]
fn whole_board_complete_scores_four_thousand() {
    let mut board = empty_board();
    for y in 0..40 {
        fill_row(&mut board, y);
    }
    let mut score: u32 = 5;
    assert!(can_settle(&board, score));
    assert!(check_complete_line(&mut board, &mut score));
    assert_eq!(score, 4005);
    assert_eq!(occupied(&board), vec![]);
}

#[test]
fn can_settle_guards_score_and_heights() {
    let mut board = empty_board();
    assert!(can_settle(&board, u32::MAX));
    fill_row(&mut board, 5);
    assert!(can_settle(&board, u32::MAX - 100));
    assert!(!can_settle(&board, u32::MAX - 99));
    let mut high = empty_board();
    high[0][0] = TetrominoCharacter::new(0, i32::MAX - 40, "");
    assert!(can_settle(&high, 0));
    high[0][0] = TetrominoCharacter::new(0, i32::MAX - 39, "");
    assert!(!can_settle(&high, 0));
}

#[test]
fn locked_piece_is_written_onto_the_board() {
    let mut board = empty_board();
    let mut piece = spawn_shape(5, 4);
    piece.stationary = true;
    move_to_built(&mut piece, &mut board);
    assert_eq!(occupied(&board), vec![(1, 4), (1, 5), (1, 6), (2, 5)]);
    for (y, x) in occupied(&board) {
        assert_eq!((board[y][x].x, board[y][x].y), (x as i32, y as i32));
        assert_eq!(board[y][x].value, "[ ]");
    }
    assert!(piece.stationary);
    assert_eq!(piece.first_line.characters.len(), 3);
}

#[test]
fn falling_piece_is_not_written_onto_the_board() {
    let mut board = empty_board();
    put(&mut board, 30, 3);
    let before = snapshot(&board);
    let mut piece = spawn_shape(5, 4);
    move_to_built(&mut piece, &mut board);
    assert_eq!(snapshot(&board), before);
}

#[test]
fn writing_a_piece_overwrites_what_was_there() {
    let mut board = empty_board();
    board[1][4] = TetrominoCharacter::new(9, 9, "##");
    let piece = spawn_shape(1, 4);
    merge_cells(&piece, &mut board);
    assert_eq!((board[1][4].x, board[1][4].y, board[1][4].value), (4, 1, "[ ]"));
    assert_eq!(occupied(&board), vec![(1, 4), (1, 5), (1, 6), (1, 7)]);
}

#[test]
fn of_two_cells_for_one_position_the_later_stays() {
    let mut board = empty_board();
    let mut first = Line::new(3, 3, 1);
    first.characters[0].value = "<>";
    let second = Line::new(3, 3, 2);
    let piece = Tetromino::new(first, second, 2);
    merge_cells(&piece, &mut board);
    assert_eq!(board[3][3].value, "[ ]");
    let mut first = Line::new(3, 3, 1);
    first.characters[0].value = "<>";
    let piece = Tetromino::new(Line::new(3, 3, 2), first, 2);
    let mut other = empty_board();
    merge_cells(&piece, &mut other);
    assert_eq!(other[3][3].value, "<>");
    assert_eq!(other[3][4].value, "[ ]");
}

#[test]
fn fits_board_tells_where_the_cells_are() {
    assert!(fits_board(&spawn_shape(1, 8)));
    assert!(!fits_board(&spawn_shape(1, 9)));
    assert!(fits_board(&spawn_shape(3, 0)));
    assert!(!fits_board(&spawn_shape(3, -1)));
    assert!(fits_board(&Tetromino::new(Line::new(3, 39, 2), Line::new(3, 40, 0), 3)));
    assert!(!fits_board(&Tetromino::new(Line::new(3, 39, 2), Line::new(3, 40, 2), 3)));
    assert!(!fits_board(&Tetromino::new(Line::new(3, -1, 2), Line::new(3, 0, 2), 3)));
    assert!(fits_board(&Tetromino::blank_tetromino(500)));
}

#[test]
fn occupancy_follows_the_board_and_keeps_the_floor() {
    let mut board = empty_board();
    put(&mut board, 0, 0);
    put(&mut board, 17, 4);
    put(&mut board, 39, 11);
    let before = snapshot(&board);
    let mut borders = [[true; 12]; 41];
    borders[40][3] = false;
    remake_gameborders(&mut borders, &mut board);
    for y in 0..40 {
        for x in 0..12 {
            assert_eq!(borders[y][x], board[y][x].is_occupied());
        }
    }
    assert!(borders[0][0] && borders[17][4] && borders[39][11]);
    assert!(!borders[17][5]);
    for x in 0..12 {
        assert_eq!(borders[40][x], x != 3);
    }
    assert_eq!(snapshot(&board), before);
}

#[test]
fn occupancy_goes_by_the_glyph_not_by_the_position() {
    let mut board = empty_board();
    board[5][5] = TetrominoCharacter::new(5, 5, "");
    board[6][6] = TetrominoCharacter::new(0, 0, "x");
    let mut borders = [[false; 12]; 41];
    remake_gameborders(&mut borders, &mut board);
    assert!(!borders[5][5]);
    assert!(borders[6][6]);
}
