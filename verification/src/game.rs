//! The integer rules of the game: the map of walls, the key bindings, the
//! tick and the characters a ray is drawn with.

use vstd::prelude::*;

use crate::arith::lemma_row_major_index;
use crate::terminal::input::keys;
use crate::terminal::output::{BLACK_BOX_CHAR, DASH_CHAR, STRIP_BOX_CHAR};
use crate::vec2::Vec2;

verus! {

/// How the world is shown.
#[allow(non_camel_case_types)]
#[derive(Clone, Copy, Debug, PartialEq, Eq)]
pub enum view_mode {
    /// From above: the rays as lines on the map.
    mode_2d,
    /// First person: one column per ray.
    mode_3d,
    /// Both at once.
    mode_2d_and_3d,
}

/// Length of a game tick, in milliseconds.
pub const TICK_MILLIS: u128 = 600;

/// The value of a map square that stops a ray.
pub const WALL: i32 = 1;

/// The squares of the world, row after row, `topography_x` squares to a
/// row.
pub struct GameMap {
    topography: Vec<i32>,
    topography_y: i32,
    topography_x: i32,
}

/// The squares of a map, with its number of columns and rows.
pub struct MapView {
    pub squares: Seq<i32>,
    pub columns: int,
    pub rows: int,
}

/// The map the game starts on.
pub open spec fn starting_squares() -> Seq<i32> {
    seq![
        1, 1, 1, 1, 1, 1, 1, 1, 0, 0,
        1, 0, 0, 0, 0, 0, 0, 1, 0, 0,
        1, 0, 0, 1, 1, 0, 0, 1, 0, 0,
        1, 0, 0, 0, 0, 0, 0, 1, 0, 0,
        1, 1, 1, 1, 0, 0, 0, 1, 0, 0,
        1, 1, 1, 1, 1, 1, 1, 1, 0, 0,
        1, 1, 1, 1, 1, 0, 0, 1, 0, 0,
        1, 1, 1, 1, 1, 0, 0, 1, 0, 0,
        1, 1, 1, 1, 1, 0, 0, 1, 0, 0,
        1, 1, 1, 1, 1, 0, 0, 0, 0, 0,
    ]
}

/// Whether the square in column `x` and row `y` of the starting map is a
/// wall: the map is walled on the left, on the top and on column 7 (but
/// for the bottom row), has a two-square pillar in row 2, a ledge in row 4,
/// a full wall along row 5 and a block below it; columns 8 and 9 are open.
pub open spec fn starting_wall(x: int, y: int) -> bool {
    if y == 0 || y == 5 {
        x <= 7
    } else if y == 1 || y == 3 {
        x == 0 || x == 7
    } else if y == 2 {
        x == 0 || x == 3 || x == 4 || x == 7
    } else if y == 4 {
        x <= 3 || x == 7
    } else if y == 9 {
        x <= 4
    } else {
        x <= 4 || x == 7
    }
}

proof fn lemma_starting_layout()
    ensures
        forall|x: int, y: int|
            0 <= x < 10 && 0 <= y < 10 ==> #[trigger] starting_squares()[10 * y + x] == (if starting_wall(
                x,
                y,
            ) {
                WALL
            } else {
                0
            }),
{
    assert forall|x: int, y: int| 0 <= x < 10 && 0 <= y < 10 implies #[trigger] starting_squares()[10
        * y + x] == (if starting_wall(x, y) {
        WALL
    } else {
        0
    }) by {
        if y == 0 {
                if x == 0 {
                    assert(starting_squares()[0] == 1);
                } else if x == 1 {
                    assert(starting_squares()[1] == 1);
                } else if x == 2 {
                    assert(starting_squares()[2] == 1);
                } else if x == 3 {
                    assert(starting_squares()[3] == 1);
                } else if x == 4 {
                    assert(starting_squares()[4] == 1);
                } else if x == 5 {
                    assert(starting_squares()[5] == 1);
                } else if x == 6 {
                    assert(starting_squares()[6] == 1);
                } else if x == 7 {
                    assert(starting_squares()[7] == 1);
                } else if x == 8 {
                    assert(starting_squares()[8] == 0);
                } else if x == 9 {
                    assert(starting_squares()[9] == 0);
                }
            } else if y == 1 {
                if x == 0 {
                    assert(starting_squares()[10] == 1);
                } else if x == 1 {
                    assert(starting_squares()[11] == 0);
                } else if x == 2 {
                    assert(starting_squares()[12] == 0);
                } else if x == 3 {
                    assert(starting_squares()[13] == 0);
                } else if x == 4 {
                    assert(starting_squares()[14] == 0);
                } else if x == 5 {
                    assert(starting_squares()[15] == 0);
                } else if x == 6 {
                    assert(starting_squares()[16] == 0);
                } else if x == 7 {
                    assert(starting_squares()[17] == 1);
                } else if x == 8 {
                    assert(starting_squares()[18] == 0);
                } else if x == 9 {
                    assert(starting_squares()[19] == 0);
                }
            } else if y == 2 {
                if x == 0 {
                    assert(starting_squares()[20] == 1);
                } else if x == 1 {
                    assert(starting_squares()[21] == 0);
                } else if x == 2 {
                    assert(starting_squares()[22] == 0);
                } else if x == 3 {
                    assert(starting_squares()[23] == 1);
                } else if x == 4 {
                    assert(starting_squares()[24] == 1);
                } else if x == 5 {
                    assert(starting_squares()[25] == 0);
                } else if x == 6 {
                    assert(starting_squares()[26] == 0);
                } else if x == 7 {
                    assert(starting_squares()[27] == 1);
                } else if x == 8 {
                    assert(starting_squares()[28] == 0);
                } else if x == 9 {
                    assert(starting_squares()[29] == 0);
                }
            } else if y == 3 {
                if x == 0 {
                    assert(starting_squares()[30] == 1);
                } else if x == 1 {
                    assert(starting_squares()[31] == 0);
                } else if x == 2 {
                    assert(starting_squares()[32] == 0);
                } else if x == 3 {
                    assert(starting_squares()[33] == 0);
                } else if x == 4 {
                    assert(starting_squares()[34] == 0);
                } else if x == 5 {
                    assert(starting_squares()[35] == 0);
                } else if x == 6 {
                    assert(starting_squares()[36] == 0);
                } else if x == 7 {
                    assert(starting_squares()[37] == 1);
                } else if x == 8 {
                    assert(starting_squares()[38] == 0);
                } else if x == 9 {
                    assert(starting_squares()[39] == 0);
                }
            } else if y == 4 {
                if x == 0 {
                    assert(starting_squares()[40] == 1);
                } else if x == 1 {
                    assert(starting_squares()[41] == 1);
                } else if x == 2 {
                    assert(starting_squares()[42] == 1);
                } else if x == 3 {
                    assert(starting_squares()[43] == 1);
                } else if x == 4 {
                    assert(starting_squares()[44] == 0);
                } else if x == 5 {
                    assert(starting_squares()[45] == 0);
                } else if x == 6 {
                    assert(starting_squares()[46] == 0);
                } else if x == 7 {
                    assert(starting_squares()[47] == 1);
                } else if x == 8 {
                    assert(starting_squares()[48] == 0);
                } else if x == 9 {
                    assert(starting_squares()[49] == 0);
                }
            } else if y == 5 {
                if x == 0 {
                    assert(starting_squares()[50] == 1);
                } else if x == 1 {
                    assert(starting_squares()[51] == 1);
                } else if x == 2 {
                    assert(starting_squares()[52] == 1);
                } else if x == 3 {
                    assert(starting_squares()[53] == 1);
                } else if x == 4 {
                    assert(starting_squares()[54] == 1);
                } else if x == 5 {
                    assert(starting_squares()[55] == 1);
                } else if x == 6 {
                    assert(starting_squares()[56] == 1);
                } else if x == 7 {
                    assert(starting_squares()[57] == 1);
                } else if x == 8 {
                    assert(starting_squares()[58] == 0);
                } else if x == 9 {
                    assert(starting_squares()[59] == 0);
                }
            } else if y == 6 {
                if x == 0 {
                    assert(starting_squares()[60] == 1);
                } else if x == 1 {
                    assert(starting_squares()[61] == 1);
                } else if x == 2 {
                    assert(starting_squares()[62] == 1);
                } else if x == 3 {
                    assert(starting_squares()[63] == 1);
                } else if x == 4 {
                    assert(starting_squares()[64] == 1);
                } else if x == 5 {
                    assert(starting_squares()[65] == 0);
                } else if x == 6 {
                    assert(starting_squares()[66] == 0);
                } else if x == 7 {
                    assert(starting_squares()[67] == 1);
                } else if x == 8 {
                    assert(starting_squares()[68] == 0);
                } else if x == 9 {
                    assert(starting_squares()[69] == 0);
                }
            } else if y == 7 {
                if x == 0 {
                    assert(starting_squares()[70] == 1);
                } else if x == 1 {
                    assert(starting_squares()[71] == 1);
                } else if x == 2 {
                    assert(starting_squares()[72] == 1);
                } else if x == 3 {
                    assert(starting_squares()[73] == 1);
                } else if x == 4 {
                    assert(starting_squares()[74] == 1);
                } else if x == 5 {
                    assert(starting_squares()[75] == 0);
                } else if x == 6 {
                    assert(starting_squares()[76] == 0);
                } else if x == 7 {
                    assert(starting_squares()[77] == 1);
                } else if x == 8 {
                    assert(starting_squares()[78] == 0);
                } else if x == 9 {
                    assert(starting_squares()[79] == 0);
                }
            } else if y == 8 {
                if x == 0 {
                    assert(starting_squares()[80] == 1);
                } else if x == 1 {
                    assert(starting_squares()[81] == 1);
                } else if x == 2 {
                    assert(starting_squares()[82] == 1);
                } else if x == 3 {
                    assert(starting_squares()[83] == 1);
                } else if x == 4 {
                    assert(starting_squares()[84] == 1);
                } else if x == 5 {
                    assert(starting_squares()[85] == 0);
                } else if x == 6 {
                    assert(starting_squares()[86] == 0);
                } else if x == 7 {
                    assert(starting_squares()[87] == 1);
                } else if x == 8 {
                    assert(starting_squares()[88] == 0);
                } else if x == 9 {
                    assert(starting_squares()[89] == 0);
                }
            } else if y == 9 {
                if x == 0 {
                    assert(starting_squares()[90] == 1);
                } else if x == 1 {
                    assert(starting_squares()[91] == 1);
                } else if x == 2 {
                    assert(starting_squares()[92] == 1);
                } else if x == 3 {
                    assert(starting_squares()[93] == 1);
                } else if x == 4 {
                    assert(starting_squares()[94] == 1);
                } else if x == 5 {
                    assert(starting_squares()[95] == 0);
                } else if x == 6 {
                    assert(starting_squares()[96] == 0);
                } else if x == 7 {
                    assert(starting_squares()[97] == 0);
                } else if x == 8 {
                    assert(starting_squares()[98] == 0);
                } else if x == 9 {
                    assert(starting_squares()[99] == 0);
                }
            }
    }
}

/// The number of the square at `square` in the row-after-row order, as the
/// game computes it: each coordinate is taken as a `usize` (a negative one
/// wraps to a large number) and the cells are counted without wrapping.
pub open spec fn flat_index(columns: i32, square: Vec2<i32>) -> int {
    (columns as usize) as int * (square.y as usize) as int + (square.x as usize) as int
}

impl MapView {
    /// The value of the square in column `x` and row `y`.
    pub open spec fn square(self, x: int, y: int) -> i32 {
        self.squares[self.columns * y + x]
    }

    pub open spec fn wf(self) -> bool {
        &&& 0 <= self.columns
        &&& 0 <= self.rows
        &&& self.squares.len() == self.columns * self.rows
    }
}

impl View for GameMap {
    type V = MapView;

    closed spec fn view(&self) -> MapView {
        MapView {
            squares: self.topography@,
            columns: self.topography_x as int,
            rows: self.topography_y as int,
        }
    }
}

impl GameMap {
    #[verifier::type_invariant]
    spec fn squares_fit(self) -> bool {
        self@.wf()
    }

    /// The ten by ten map the game starts on.
    pub fn starting_map() -> (m: GameMap)
        ensures
            m@.wf(),
            m@.columns == 10,
            m@.rows == 10,
            m@.squares == starting_squares(),
            forall|x: int, y: int|
                0 <= x < 10 && 0 <= y < 10 ==> #[trigger] m@.square(x, y) == (if starting_wall(x, y) {
                    WALL
                } else {
                    0
                }),
            m@.square(3, 2) == WALL && m@.square(4, 2) == WALL,
    {
        let topography = vec![
            1, 1, 1, 1, 1, 1, 1, 1, 0, 0,
            1, 0, 0, 0, 0, 0, 0, 1, 0, 0,
            1, 0, 0, 1, 1, 0, 0, 1, 0, 0,
            1, 0, 0, 0, 0, 0, 0, 1, 0, 0,
            1, 1, 1, 1, 0, 0, 0, 1, 0, 0,
            1, 1, 1, 1, 1, 1, 1, 1, 0, 0,
            1, 1, 1, 1, 1, 0, 0, 1, 0, 0,
            1, 1, 1, 1, 1, 0, 0, 1, 0, 0,
            1, 1, 1, 1, 1, 0, 0, 1, 0, 0,
            1, 1, 1, 1, 1, 0, 0, 0, 0, 0,
        ];
        let m = GameMap { topography, topography_y: 10, topography_x: 10 };
        assert(m.topography@ =~= starting_squares());
        proof {
            lemma_starting_layout();
        }
        m
    }

    /// The number of columns of the map.
    pub fn columns(&self) -> (c: i32)
        ensures
            c == self@.columns,
    {
        self.topography_x
    }

    /// Whether a ray entering `square` stops there: the square's number
    /// lies past the map, or the square is a wall. A square inside the map
    /// stops the ray exactly when it is a wall; one past the end of a row
    /// is counted into the next row.
    pub fn blocks_ray(&self, square: Vec2<i32>) -> (blocked: bool)
        requires
            flat_index(self@.columns as i32, square) <= usize::MAX,
        ensures
            blocked == (flat_index(self@.columns as i32, square) >= self@.squares.len()
                || self@.squares[flat_index(self@.columns as i32, square)] == WALL),
            0 <= square.x < self@.columns && 0 <= square.y < self@.rows ==> blocked == (
            self@.square(square.x as int, square.y as int) == WALL),
    {
        proof {
            use_type_invariant(self);
            if 0 <= square.x < self@.columns && 0 <= square.y < self@.rows {
                lemma_row_major_index(
                    self@.columns,
                    self@.rows,
                    square.x as int,
                    square.y as int,
                );
            }
        }
        let topography_index = self.topography_x as usize * square.y as usize
            + square.x as usize;
        topography_index >= self.topography.len() || self.topography[topography_index] == WALL
    }
}

/// A move of the player for one frame: a step in each direction and a turn,
/// each -1, 0 or 1.
#[derive(Clone, Copy, Debug, PartialEq, Eq)]
pub struct PlayerStep {
    pub dx: i32,
    pub dy: i32,
    pub turn: i32,
}

/// 1 if the condition holds, else 0.
pub open spec fn one_if(b: bool) -> int {
    if b {
        1
    } else {
        0
    }
}

/// The move for the key `input`: `W` and `S` step along y, `D` and `A`
/// along x, `E` and `Q` turn.
pub fn player_step(input: keys::KEY) -> (step: PlayerStep)
    ensures
        step.dy == one_if(input == keys::KEY_W) - one_if(input == keys::KEY_S),
        step.dx == one_if(input == keys::KEY_D) - one_if(input == keys::KEY_A),
        step.turn == one_if(input == keys::KEY_E) - one_if(input == keys::KEY_Q),
{
    let mut step = PlayerStep { dx: 0, dy: 0, turn: 0 };
    if input == keys::KEY_W {
        step.dy = step.dy + 1;
    }
    if input == keys::KEY_S {
        step.dy = step.dy - 1;
    }
    if input == keys::KEY_A {
        step.dx = step.dx - 1;
    }
    if input == keys::KEY_D {
        step.dx = step.dx + 1;
    }
    if input == keys::KEY_E {
        step.turn = step.turn + 1;
    }
    if input == keys::KEY_Q {
        step.turn = step.turn - 1;
    }
    step
}

/// Whether a whole tick has passed since the last one, after
/// `elapsed_millis` milliseconds.
pub fn tick_elapsed(elapsed_millis: u128) -> (elapsed: bool)
    ensures
        elapsed == (elapsed_millis >= TICK_MILLIS),
{
    let ticks = elapsed_millis / TICK_MILLIS;
    ticks >= 1
}

/// The character of a ray drawn on the map: blocks where it hit a wall
/// across the y axis, dashes across the x axis.
pub fn map_ray_char(hit_on_x_axis: bool) -> (ch: u8)
    ensures
        ch == (if hit_on_x_axis {
            DASH_CHAR
        } else {
            BLACK_BOX_CHAR
        }),
{
    if !hit_on_x_axis {
        BLACK_BOX_CHAR
    } else {
        DASH_CHAR
    }
}

/// The character of a wall column in the first-person view: blocks where
/// the ray hit across the y axis, strips across the x axis.
pub fn column_char(hit_on_x_axis: bool) -> (ch: u8)
    ensures
        ch == (if hit_on_x_axis {
            STRIP_BOX_CHAR
        } else {
            BLACK_BOX_CHAR
        }),
{
    if !hit_on_x_axis {
        BLACK_BOX_CHAR
    } else {
        STRIP_BOX_CHAR
    }
}

/// Whether the mode draws the rays on the map.
pub fn shows_map(mode: view_mode) -> (shown: bool)
    ensures
        shown == (mode == view_mode::mode_2d || mode == view_mode::mode_2d_and_3d),
{
    match mode {
        view_mode::mode_2d => true,
        view_mode::mode_3d => false,
        view_mode::mode_2d_and_3d => true,
    }
}

/// Whether the mode draws the first-person columns.
pub fn shows_columns(mode: view_mode) -> (shown: bool)
    ensures
        shown == (mode == view_mode::mode_3d || mode == view_mode::mode_2d_and_3d),
{
    match mode {
        view_mode::mode_2d => false,
        view_mode::mode_3d => true,
        view_mode::mode_2d_and_3d => true,
    }
}

} // verus!
