use rust_tetris::tetromino::line::Line;
use rust_tetris::tetromino::spawn_shape;
use rust_tetris::tetromino::tetromino::{first_shift, silhouette_rows, Tetromino};

fn cells_of(line: &Line) -> Vec<(i32, i32)> {
    line.characters.iter().map(|c| (c.x, c.y)).collect()
}

fn layout(piece: &Tetromino) -> Vec<Vec<(i32, i32)>> {
    vec![
        cells_of(&piece.first_line),
        cells_of(&piece.second_line),
        cells_of(&piece.third_line),
        cells_of(&piece.fourth_line),
    ]
}

fn open_field() -> [[bool; 12]; 41] {
    let mut borders = [[false; 12]; 41];
    for x in 0..12 {
        borders[40][x] = true;
    }
    borders
}

fn placed(shape_type: i32, x: i32, y: i32) -> Tetromino {
    let mut piece = spawn_shape(shape_type, x);
    let mut borders = open_field();
    piece.move_tetromino(0, y - 1, &mut borders);
    piece
}

#[test]
fn silhouette_rows_of_every_shape_and_angle() {
    assert_eq!(silhouette_rows(1, 0), vec![(0, 0, 4)]);
    assert_eq!(silhouette_rows(1, 180), vec![(0, 0, 4)]);
    assert_eq!(silhouette_rows(1, 90), vec![(0, 0, 1), (0, 1, 1), (0, 2, 1), (0, 3, 1)]);
    assert_eq!(silhouette_rows(1, 270), vec![(0, 0, 1), (0, 1, 1), (0, 2, 1), (0, 3, 1)]);
    assert_eq!(silhouette_rows(2, 0), vec![(0, 0, 3), (2, 1, 1)]);
    assert_eq!(silhouette_rows(2, 90), vec![(0, 0, 2), (0, 1, 1), (0, 2, 1)]);
    assert_eq!(silhouette_rows(2, 180), vec![(0, 0, 1), (0, 1, 3)]);
    assert_eq!(silhouette_rows(2, 270), vec![(0, 0, 1), (0, 1, 1), (0, 2, 2)]);
    assert_eq!(silhouette_rows(4, 0), vec![(0, 0, 2), (1, 1, 2)]);
    assert_eq!(silhouette_rows(4, 180), vec![(0, 0, 2), (1, 1, 2)]);
    assert_eq!(silhouette_rows(4, 90), vec![(0, 0, 1), (-1, 1, 2), (-1, 2, 1)]);
    assert_eq!(silhouette_rows(4, 270), vec![(0, 0, 1), (-1, 1, 2), (-1, 2, 1)]);
    assert_eq!(silhouette_rows(5, 0), vec![(0, 0, 3), (2, 1, 1)]);
    assert_eq!(silhouette_rows(5, 90), vec![(0, 0, 1), (-1, 1, 2), (-1, 2, 1)]);
    assert_eq!(silhouette_rows(5, 180), vec![(0, 0, 1), (-1, 1, 3)]);
    assert_eq!(silhouette_rows(5, 270), vec![(0, 0, 1), (-1, 1, 2), (0, 2, 1)]);
}

#[test]
fn silhouette_rows_are_none_for_square_and_odd_angles() {
    assert_eq!(silhouette_rows(3, 0), vec![]);
    assert_eq!(silhouette_rows(3, 90), vec![]);
    assert_eq!(silhouette_rows(0, 0), vec![]);
    assert_eq!(silhouette_rows(6, 90), vec![]);
    assert_eq!(silhouette_rows(1, 45), vec![]);
    assert_eq!(silhouette_rows(5, 360), vec![]);
    assert_eq!(silhouette_rows(2, -90), vec![]);
}

#[test]
fn only_the_tee_shifts_its_first_row() {
    assert_eq!(first_shift(5, 0), -1);
    assert_eq!(first_shift(5, 90), 1);
    assert_eq!(first_shift(5, 180), 0);
    assert_eq!(first_shift(5, 270), 0);
    for shape in [1, 2, 3, 4] {
        for angle in [0, 90, 180, 270] {
            assert_eq!(first_shift(shape, angle), 0);
        }
    }
}

#[test]
fn rotate_shape_bar_stands_up_and_lies_down() {
    let mut piece = placed(1, 4, 10);
    piece.rotate_shape(90);
    assert_eq!(
        layout(&piece),
        vec![vec![(4, 10)], vec![(4, 11)], vec![(4, 12)], vec![(4, 13)]]
    );
    piece.rotate_shape(180);
    assert_eq!(
        layout(&piece),
        vec![vec![(4, 10), (5, 10), (6, 10), (7, 10)], vec![], vec![], vec![]]
    );
    piece.rotate_shape(270);
    assert_eq!(
        layout(&piece),
        vec![vec![(4, 10)], vec![(4, 11)], vec![(4, 12)], vec![(4, 13)]]
    );
    piece.rotate_shape(0);
    assert_eq!(
        layout(&piece),
        vec![vec![(4, 10), (5, 10), (6, 10), (7, 10)], vec![], vec![], vec![]]
    );
}

#[test]
fn rotate_shape_hook_at_every_angle() {
    let mut piece = placed(2, 4, 10);
    piece.rotate_shape(90);
    assert_eq!(layout(&piece), vec![vec![(4, 10), (5, 10)], vec![(4, 11)], vec![(4, 12)], vec![]]);
    piece.rotate_shape(180);
    assert_eq!(
        layout(&piece),
        vec![vec![(4, 10)], vec![(4, 11), (5, 11), (6, 11)], vec![], vec![]]
    );
    piece.rotate_shape(270);
    assert_eq!(layout(&piece), vec![vec![(4, 10)], vec![(4, 11)], vec![(4, 12), (5, 12)], vec![]]);
    piece.rotate_shape(0);
    assert_eq!(
        layout(&piece),
        vec![vec![(4, 10), (5, 10), (6, 10)], vec![(6, 11)], vec![], vec![]]
    );
}

#[test]
fn rotate_shape_step_at_every_angle() {
    let mut piece = placed(4, 4, 10);
    piece.rotate_shape(90);
    assert_eq!(layout(&piece), vec![vec![(4, 10)], vec![(3, 11), (4, 11)], vec![(3, 12)], vec![]]);
    piece.rotate_shape(180);
    assert_eq!(
        layout(&piece),
        vec![vec![(4, 10), (5, 10)], vec![(5, 11), (6, 11)], vec![], vec![]]
    );
    piece.rotate_shape(270);
    assert_eq!(layout(&piece), vec![vec![(4, 10)], vec![(3, 11), (4, 11)], vec![(3, 12)], vec![]]);
    piece.rotate_shape(0);
    assert_eq!(
        layout(&piece),
        vec![vec![(4, 10), (5, 10)], vec![(5, 11), (6, 11)], vec![], vec![]]
    );
}

#[test]
fn rotate_shape_tee_at_every_angle() {
    let mut piece = placed(5, 4, 10);
    piece.rotate_shape(90);
    assert_eq!(layout(&piece), vec![vec![(5, 10)], vec![(4, 11), (5, 11)], vec![(4, 12)], vec![]]);
    piece.rotate_shape(180);
    assert_eq!(
        layout(&piece),
        vec![vec![(5, 10)], vec![(4, 11), (5, 11), (6, 11)], vec![], vec![]]
    );
    piece.rotate_shape(270);
    assert_eq!(layout(&piece), vec![vec![(5, 10)], vec![(4, 11), (5, 11)], vec![(5, 12)], vec![]]);
    piece.rotate_shape(0);
    assert_eq!(
        layout(&piece),
        vec![vec![(4, 10), (5, 10), (6, 10)], vec![(6, 11)], vec![], vec![]]
    );
}

#[test]
fn rotate_shape_tee_rows_are_placed_from_where_the_first_row_stood() {
    let mut piece = Tetromino::new(Line::new(5, 1, 3), Line::new(6, 2, 1), 5);
    piece.rotate_shape(90);
    assert_eq!(layout(&piece), vec![vec![(6, 1)], vec![(5, 2), (6, 2)], vec![(5, 3)], vec![]]);
    assert_eq!((piece.first_line.x, piece.first_line.y), (6, 1));
    assert_eq!((piece.second_line.x, piece.second_line.y), (5, 2));
    assert_eq!((piece.third_line.x, piece.third_line.y), (5, 3));
    let mut flat = Tetromino::new(Line::new(5, 1, 1), Line::new(4, 2, 3), 5);
    flat.rotate_shape(0);
    assert_eq!(layout(&flat), vec![vec![(4, 1), (5, 1), (6, 1)], vec![(6, 2)], vec![], vec![]]);
    let mut down = Tetromino::new(Line::new(5, 1, 3), Line::new(6, 2, 1), 5);
    down.rotate_shape(180);
    assert_eq!(layout(&down), vec![vec![(5, 1)], vec![(4, 2), (5, 2), (6, 2)], vec![], vec![]]);
    let mut left = Tetromino::new(Line::new(5, 1, 3), Line::new(6, 2, 1), 5);
    left.rotate_shape(270);
    assert_eq!(layout(&left), vec![vec![(5, 1)], vec![(4, 2), (5, 2)], vec![(5, 3)], vec![]]);
}

#[test]
fn rotate_shape_leaves_square_and_odd_angles_alone() {
    let mut square = placed(3, 4, 10);
    let before = layout(&square);
    square.rotate_shape(90);
    assert_eq!(layout(&square), before);
    let mut bar = placed(1, 4, 10);
    let before = layout(&bar);
    bar.rotate_shape(45);
    assert_eq!(layout(&bar), before);
    bar.rotate_shape(360);
    assert_eq!(layout(&bar), before);
}

#[test]
fn rotate_shape_does_not_touch_the_recorded_angle() {
    let mut piece = placed(2, 4, 10);
    piece.rotate_shape(180);
    assert_eq!(piece.rotation, 0);
}

#[test]
fn four_quarter_turns_bring_every_shape_back() {
    for shape in 1..=5 {
        let mut borders = open_field();
        let mut piece = placed(shape, 5, 10);
        let before = layout(&piece);
        for turn in 1..=4 {
            piece.rotate(90, &mut borders);
            if shape != 3 {
                assert_eq!(piece.rotation, (90 * turn) % 360);
            }
        }
        assert_eq!(piece.rotation, 0);
        if shape != 5 {
            assert_eq!(layout(&piece), before);
        }
        assert_eq!(piece.shape_type, shape);
        assert!(!piece.stationary);
        let turned = layout(&piece);
        for _ in 0..4 {
            piece.rotate(90, &mut borders);
        }
        assert_eq!(piece.rotation, 0);
        assert_eq!(layout(&piece), turned);
    }
}

#[test]
fn four_quarter_turns_move_the_stem_of_a_fresh_tee() {
    let mut borders = open_field();
    let mut piece = placed(5, 5, 10);
    assert_eq!(
        layout(&piece),
        vec![vec![(5, 10), (6, 10), (7, 10)], vec![(6, 11)], vec![], vec![]]
    );
    for _ in 0..4 {
        piece.rotate(90, &mut borders);
    }
    assert_eq!(piece.rotation, 0);
    assert_eq!(
        layout(&piece),
        vec![vec![(5, 10), (6, 10), (7, 10)], vec![(7, 11)], vec![], vec![]]
    );
}

#[test]
fn square_never_turns() {
    for delta in [90, 180, 270, -90, 45, 360, 0, 1000] {
        let mut borders = open_field();
        let mut piece = placed(3, 5, 10);
        let before = layout(&piece);
        piece.rotate(delta, &mut borders);
        assert_eq!(piece.rotation, 0);
        assert_eq!(layout(&piece), before);
        assert_eq!((piece.first_line.x, piece.first_line.y), (5, 10));
    }
}

#[test]
fn rotate_brings_the_angle_into_range() {
    let mut borders = open_field();
    let mut piece = placed(1, 5, 10);
    piece.rotate(-90, &mut borders);
    assert_eq!(piece.rotation, 270);
    piece.rotate(450, &mut borders);
    assert_eq!(piece.rotation, 0);
    piece.rotate(-270, &mut borders);
    assert_eq!(piece.rotation, 90);
    piece.rotate(-810, &mut borders);
    assert_eq!(piece.rotation, 0);
}

#[test]
fn rotate_is_taken_back_when_the_turned_piece_rests() {
    let mut borders = open_field();
    borders[14][5] = true;
    let mut piece = placed(1, 5, 10);
    let before = layout(&piece);
    piece.rotate(90, &mut borders);
    assert_eq!(piece.rotation, 0);
    assert_eq!(layout(&piece), before);
    assert!(!piece.stationary);
}

#[test]
fn rotate_is_taken_back_when_the_turned_piece_leaves_the_columns() {
    let mut borders = open_field();
    let mut piece = placed(1, 5, 10);
    piece.rotate(90, &mut borders);
    piece.move_tetromino(1, 0, &mut borders);
    piece.move_tetromino(1, 0, &mut borders);
    piece.move_tetromino(1, 0, &mut borders);
    piece.move_tetromino(1, 0, &mut borders);
    piece.move_tetromino(1, 0, &mut borders);
    assert_eq!(piece.first_line.x, 10);
    let before = layout(&piece);
    piece.rotate(90, &mut borders);
    assert_eq!(piece.rotation, 90);
    assert_eq!(layout(&piece), before);
}

#[test]
fn refused_turn_of_the_tee_leaves_it_where_the_retry_puts_it() {
    let mut borders = open_field();
    let mut piece = placed(5, 5, 10);
    piece.rotate(90, &mut borders);
    piece.rotate(90, &mut borders);
    piece.rotate(90, &mut borders);
    assert_eq!(piece.rotation, 270);
    assert_eq!(layout(&piece), vec![vec![(6, 10)], vec![(5, 11), (6, 11)], vec![(6, 12)], vec![]]);
    borders[12][7] = true;
    piece.rotate(90, &mut borders);
    assert_eq!(piece.rotation, 270);
    assert_eq!(layout(&piece), vec![vec![(5, 10)], vec![(4, 11), (5, 11)], vec![(5, 12)], vec![]]);
}

#[test]
fn locked_piece_does_not_turn() {
    let mut borders = open_field();
    let mut piece = placed(2, 5, 10);
    piece.stationary = true;
    let before = layout(&piece);
    piece.rotate(90, &mut borders);
    assert_eq!(piece.rotation, 0);
    assert_eq!(layout(&piece), before);
    assert!(piece.stationary);
}

#[test]
fn can_rotate_says_no_where_the_turned_piece_reaches_under_the_floor() {
    let flat = placed(1, 5, 38);
    assert!(!flat.can_rotate(90));
    let higher = placed(1, 5, 36);
    assert!(higher.can_rotate(90));
    let hook = placed(2, 5, 38);
    assert!(!hook.can_rotate(90));
    let hook_higher = placed(2, 5, 37);
    assert!(hook_higher.can_rotate(90));
    let square = placed(3, 5, 38);
    assert!(square.can_rotate(90));
    let mut locked = placed(1, 5, 38);
    locked.stationary = true;
    assert!(locked.can_rotate(90));
}

#[test]
fn can_rotate_says_no_at_the_edge_of_the_integers() {
    let mut piece = spawn_shape(1, 5);
    piece.first_line = Line::new(i32::MAX - 3, 1, 4);
    assert!(piece.can_rotate(90));
    let mut tee = spawn_shape(5, 5);
    tee.first_line = Line::new(i32::MAX - 2, 1, 3);
    assert!(tee.can_rotate(90));
    tee.first_line = Line::new(i32::MAX, 1, 1);
    assert!(!tee.can_rotate(90));
    let mut step = spawn_shape(4, 5);
    step.first_line = Line::new(i32::MIN, 1, 2);
    assert!(!step.can_rotate(90));
}
