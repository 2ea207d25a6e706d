use vstd::prelude::*;
use crate::display::{backdrop_glyph, create_screen};
use crate::tetromino::characters::{Cell, TetrominoCharacter};
use crate::tetromino::create_tetronimo;
use crate::tetromino::piece::Piece;
use crate::tetromino::tetromino::Tetromino;
use crate::board::{all_on_board, complete_rows, grid_of, merged, settleable, settled};
use crate::{
    can_settle, check_complete_line, fits_board, merge_cells, move_to_built, remake_gameborders,
    BORDER_ROWS, HEIGHT, WIDTH,
};

verus! {

/// The key that asks for a step to the left: the letter a.
pub const KEY_LEFT: u8 = 97;

/// The key that asks for a step to the right: the letter d.
pub const KEY_RIGHT: u8 = 100;

/// The key that asks for a quarter turn: the letter r.
pub const KEY_TURN: u8 = 114;

/// The key that asks for a step down: the letter s.
pub const KEY_DOWN: u8 = 115;

/// The key that ends the game: the letter q.
pub const KEY_QUIT: u8 = 113;

/// What the player asks for with one key.
#[derive(Clone, Copy, Debug, PartialEq, Eq, Structural)]
pub enum Command {
    Left,
    Right,
    Turn,
    Down,
    Quit,
    Nothing,
}

/// What a key asks for; a key that is none of the five asks for nothing.
pub open spec fn command_for(key: u8) -> Command {
    if key == KEY_QUIT {
        Command::Quit
    } else if key == KEY_LEFT {
        Command::Left
    } else if key == KEY_RIGHT {
        Command::Right
    } else if key == KEY_TURN {
        Command::Turn
    } else if key == KEY_DOWN {
        Command::Down
    } else {
        Command::Nothing
    }
}

/// What a key asks for.
pub fn command_of(key: u8) -> (command: Command)
    ensures
        command == command_for(key),
{
    if key == KEY_QUIT {
        Command::Quit
    } else if key == KEY_LEFT {
        Command::Left
    } else if key == KEY_RIGHT {
        Command::Right
    } else if key == KEY_TURN {
        Command::Turn
    } else if key == KEY_DOWN {
        Command::Down
    } else {
        Command::Nothing
    }
}

/// The piece after the player's request: a step to a side, a step down or a
/// quarter turn; the other commands leave it as it is.
pub open spec fn commanded(
    piece: Piece,
    command: Command,
    borders: [[bool; WIDTH]; BORDER_ROWS],
) -> Piece {
    match command {
        Command::Left => piece.moved(-1, 0, borders),
        Command::Right => piece.moved(1, 0, borders),
        Command::Down => piece.moved(0, 1, borders),
        Command::Turn => piece.rotated(90, borders),
        _ => piece,
    }
}

/// The player's request can be carried out on the piece.
pub open spec fn commandable(
    piece: Piece,
    command: Command,
    borders: [[bool; WIDTH]; BORDER_ROWS],
) -> bool {
    match command {
        Command::Left => piece.movable(-1, 0, borders),
        Command::Right => piece.movable(1, 0, borders),
        Command::Down => piece.movable(0, 1, borders),
        Command::Turn => piece.turnable(90),
        _ => true,
    }
}

/// The piece after gravity had its turn: one step down where a step is due.
pub open spec fn fallen(piece: Piece, fall: bool, borders: [[bool; WIDTH]; BORDER_ROWS]) -> Piece {
    if fall {
        piece.moved(0, 1, borders)
    } else {
        piece
    }
}

/// The board after the piece had its chance to land on it: with the cells of
/// a locked piece written onto it, unchanged by a piece that still falls.
pub open spec fn landed(grid: Seq<Seq<Cell>>, piece: Piece) -> Seq<Seq<Cell>> {
    if piece.stationary {
        merged(grid, piece.cells())
    } else {
        grid
    }
}

/// A fresh piece of one of the five shapes in one of the columns in which
/// pieces start.
pub open spec fn freshly_spawned(piece: Piece) -> bool {
    exists|shape_type: int, x: int|
        1 <= shape_type <= 5 && 2 <= x < WIDTH - 4 && piece == #[trigger] Piece::spawned(
            shape_type,
            x,
        )
}

/// Everything a game in progress consists of: the empty board as it is
/// drawn, the falling piece, the occupancy grid with the floor beneath the
/// board, the locked cells, and the score.
pub struct GameConfig<'a> {
    pub screen: [[&'a str; WIDTH]; HEIGHT],
    pub current_tetromino: Tetromino,
    pub game_borders: [[bool; WIDTH]; BORDER_ROWS],
    pub built_tetrominoes: [[TetrominoCharacter; WIDTH]; HEIGHT],
    pub score: u32,
}

impl<'a> GameConfig<'a> {
    /// The locked cells as rows of cells.
    pub open spec fn grid(&self) -> Seq<Seq<Cell>> {
        grid_of(self.built_tetrominoes)
    }

    /// The game as it begins: the empty board drawn, nothing locked, nothing
    /// marked in the occupancy grid but the floor, no score, and a fresh
    /// piece.
    pub open spec fn fresh(&self) -> bool {
        &&& forall|r: int, c: int|
            0 <= r < HEIGHT && 0 <= c < WIDTH ==> (#[trigger] self.screen[r][c])@ == backdrop_glyph(
                c,
            )
        &&& forall|r: int, c: int|
            0 <= r < HEIGHT && 0 <= c < WIDTH ==> (#[trigger] self.built_tetrominoes[r][c])@
                == Cell::blank()
        &&& forall|r: int, c: int|
            0 <= r < BORDER_ROWS && 0 <= c < WIDTH ==> self.game_borders[r][c] == (r == HEIGHT)
        &&& self.score == 0
        &&& freshly_spawned(self.current_tetromino@)
    }

    /// The occupancy grid is in step with the board: above the floor a
    /// position is marked exactly when the board's cell there is occupied,
    /// and the whole floor is marked.
    pub open spec fn in_step(&self) -> bool {
        &&& forall|r: int, c: int|
            0 <= r < HEIGHT && 0 <= c < WIDTH ==> self.game_borders[r][c] == (
            #[trigger] self.grid()[r][c]).occupied()
        &&& forall|c: int| 0 <= c < WIDTH ==> self.game_borders[HEIGHT as int][c]
    }

    /// The game is in order: the occupancy grid is in step with the board,
    /// and the falling piece is well formed.
    pub open spec fn valid(&self) -> bool {
        self.in_step() && self.current_tetromino@.well_formed()
    }

    /// Gravity and what follows it can be carried out: the step down where
    /// one is due, the writing of a piece that locked onto the board, and
    /// the taking out of the complete rows.
    pub open spec fn can_advance(&self, fall: bool) -> bool {
        let piece = fallen(self.current_tetromino@, fall, self.game_borders);
        &&& fall ==> self.current_tetromino@.movable(0, 1, self.game_borders)
        &&& piece.stationary ==> all_on_board(piece.cells())
        &&& settleable(landed(self.grid(), piece), self.score as int)
    }

    /// A game as it begins.
    pub fn new() -> (game: GameConfig<'static>)
        ensures
            game.fresh(),
            game.valid(),
    {
        let mut screen: [[&'static str; WIDTH]; HEIGHT] = [[""; WIDTH]; HEIGHT];
        create_screen(&mut screen);
        let mut game_borders: [[bool; WIDTH]; BORDER_ROWS] = [[false; WIDTH]; BORDER_ROWS];
        let mut x: usize = 0;
        while x < WIDTH
            invariant
                x <= WIDTH,
                forall|r: int, c: int|
                    0 <= r < BORDER_ROWS && 0 <= c < WIDTH ==> game_borders[r][c] == (r == HEIGHT && c
                        < x),
            decreases WIDTH - x,
        {
            game_borders[HEIGHT][x] = true;
            x = x + 1;
        }
        let mut current_tetromino: Tetromino = Tetromino::blank_tetromino(0);
        create_tetronimo(&mut current_tetromino);
        GameConfig {
            screen,
            current_tetromino,
            game_borders,
            built_tetrominoes: [[TetrominoCharacter::default(); WIDTH]; HEIGHT],
            score: 0,
        }
    }

    /// Carries out the player's request on the falling piece, if it can be
    /// carried out, and says whether it could. Nothing but the piece changes,
    /// and the piece only where the request could be carried out.
    pub fn apply(&mut self, command: Command) -> (done: bool)
        ensures
            done == commandable(old(self).current_tetromino@, command, old(self).game_borders),
            done ==> final(self).current_tetromino@ == commanded(
                old(self).current_tetromino@,
                command,
                old(self).game_borders,
            ),
            !done ==> final(self).current_tetromino == old(self).current_tetromino,
            final(self).screen == old(self).screen,
            final(self).game_borders == old(self).game_borders,
            final(self).built_tetrominoes == old(self).built_tetrominoes,
            final(self).score == old(self).score,
            old(self).valid() ==> final(self).valid(),
    {
        match command {
            Command::Left => {
                if !self.current_tetromino.can_move(-1, 0, &self.game_borders) {
                    return false;
                }
                self.current_tetromino.move_tetromino(-1, 0, &mut self.game_borders);
            },
            Command::Right => {
                if !self.current_tetromino.can_move(1, 0, &self.game_borders) {
                    return false;
                }
                self.current_tetromino.move_tetromino(1, 0, &mut self.game_borders);
            },
            Command::Down => {
                if !self.current_tetromino.can_move(0, 1, &self.game_borders) {
                    return false;
                }
                self.current_tetromino.move_tetromino(0, 1, &mut self.game_borders);
            },
            Command::Turn => {
                if !self.current_tetromino.can_rotate(90) {
                    return false;
                }
                self.current_tetromino.rotate(90, &mut self.game_borders);
            },
            _ => {},
        }
        proof {
            if old(self).in_step() {
                assert forall|r: int, c: int|
                    0 <= r < HEIGHT && 0 <= c < WIDTH implies self.game_borders[r][c]
                    == (#[trigger] self.grid()[r][c]).occupied() by {
                    assert(old(self).game_borders[r][c] == old(self).grid()[r][c].occupied());
                }
            }
        }
        true
    }
    /// Lets gravity have its turn and settles what follows from it, if all
    /// of it can be carried out, and says whether it could; if not, nothing
    /// changes. Where a step down is due, the piece is asked to move down.
    /// A piece that has locked is written onto the board. The complete rows
    /// are taken out and paid for, and the occupancy grid is brought in line
    /// with the board. In the end a fresh piece takes the place of one that
    /// has locked.
    pub fn advance(&mut self, fall: bool) -> (done: bool)
        ensures
            done == old(self).can_advance(fall),
            !done ==> *final(self) == *old(self),
            done ==> {
                let piece = fallen(old(self).current_tetromino@, fall, old(self).game_borders);
                let grid = landed(old(self).grid(), piece);
                &&& final(self).grid() == settled(grid)
                &&& final(self).score == old(self).score + 100 * complete_rows(grid)
                &&& forall|r: int, c: int|
                    0 <= r < HEIGHT && 0 <= c < WIDTH ==> final(self).game_borders[r][c] == (
                    #[trigger] settled(grid)[r][c]).occupied()
                &&& final(self).game_borders[HEIGHT as int] == old(self).game_borders[HEIGHT as int]
                &&& final(self).screen == old(self).screen
                &&& if piece.stationary {
                    freshly_spawned(final(self).current_tetromino@)
                } else {
                    final(self).current_tetromino@ == piece
                }
            },
            old(self).valid() ==> final(self).valid(),
    {
        if fall && !self.current_tetromino.can_move(0, 1, &self.game_borders) {
            return false;
        }
        let locks: bool = self.current_tetromino.stationary || (fall
            && self.current_tetromino.rests(&self.game_borders));
        if locks {
            if !fits_board(&self.current_tetromino) {
                return false;
            }
            let mut trial: [[TetrominoCharacter; WIDTH]; HEIGHT] = self.built_tetrominoes;
            merge_cells(&self.current_tetromino, &mut trial);
            if !can_settle(&trial, self.score) {
                return false;
            }
        } else {
            if !can_settle(&self.built_tetrominoes, self.score) {
                return false;
            }
        }
        if fall {
            self.current_tetromino.move_tetromino(0, 1, &mut self.game_borders);
        }
        move_to_built(&mut self.current_tetromino, &mut self.built_tetrominoes);
        check_complete_line(&mut self.built_tetrominoes, &mut self.score);
        remake_gameborders(&mut self.game_borders, &mut self.built_tetrominoes);
        if self.current_tetromino.stationary {
            create_tetronimo(&mut self.current_tetromino);
        }
        true
    }
}

} // verus!
