//! The maze: wall flags for each cell, and their drawing in a buffer of
//! characters that everything else reads.

pub mod tree;

use vstd::prelude::*;
use vstd::pervasive::unreached;
use knossos::maze::{AsciiNarrow, HuntAndKill, OrthogonalMazeBuilder};
use crate::entities::position::Dimensions;
use crate::game_context::random;
use crate::maze::tree::{connected, lemma_connected_opened, spanning_tree};
use crate::video::{Pos, Size};
use crate::video::buffer::{cell_index, lemma_cell_index, lemma_cell_index_injective, Buffer, ATTR_NONE};
use crate::video::charmaps::{
    MAZE_ACROSS, MAZE_BOTTOM, MAZE_BOTTOM_LEFT, MAZE_BOTTOM_RIGHT, MAZE_BOTTOM_T, MAZE_CROSS,
    MAZE_DOWN, MAZE_LEFT, MAZE_LEFT_T, MAZE_NONE, MAZE_RIGHT, MAZE_RIGHT_T, MAZE_TOP,
    MAZE_TOP_LEFT, MAZE_TOP_RIGHT, MAZE_TOP_T, MAZE_WALLS_END, MAZE_WALLS_START, SPACE,
};
use crate::video::wrapping::{wrap_dec, wrap_inc, SizeWrapping};

verus! {

/// Rows of open floor in a maze cell.
pub const MAZE_CELL_ROWS: Size = 9;

/// Columns of open floor in a maze cell.
pub const MAZE_CELL_COLS: Size = 16;

/// Rows of characters that a maze cell takes: its floor and the wall
/// above it.
pub const CELL_HEIGHT: Size = 10;

/// Columns of characters that a maze cell takes: its floor and the wall
/// to its left.
pub const CELL_WIDTH: Size = 17;

/// The most rows of cells whose characters a coordinate can still count.
pub const MAX_CELL_ROWS: Size = 6553;

/// The most columns of cells whose characters a coordinate can still
/// count.
pub const MAX_CELL_COLS: Size = 3855;

/// The two walls that a maze cell owns: the one above it and the one to
/// its left. The walls below and to the right belong to the neighbours.
#[derive(Clone, Copy, Debug, PartialEq, Eq, Structural)]
pub struct Walls {
    pub top: bool,
    pub left: bool,
}

/// The wall flags of a grid of maze cells whose edges wrap.
pub struct MazeGrid {
    rows: Size,
    cols: Size,
    grid: Vec<Walls>,
}

/// A cell without walls.
pub open spec fn no_walls() -> Walls {
    Walls { top: false, left: false }
}

/// The glyph for a junction of walls, by the arms that meet there: 8 for
/// the arm that goes up, 4 for the one to the right, 2 for the one that
/// goes down, 1 for the one to the left.
pub open spec fn junction_glyph(arms: int) -> u8 {
    if arms == 0 {
        MAZE_NONE
    } else if arms == 1 {
        MAZE_LEFT
    } else if arms == 2 {
        MAZE_BOTTOM
    } else if arms == 3 {
        MAZE_TOP_RIGHT
    } else if arms == 4 {
        MAZE_RIGHT
    } else if arms == 5 {
        MAZE_ACROSS
    } else if arms == 6 {
        MAZE_TOP_LEFT
    } else if arms == 7 {
        MAZE_TOP_T
    } else if arms == 8 {
        MAZE_TOP
    } else if arms == 9 {
        MAZE_BOTTOM_LEFT
    } else if arms == 10 {
        MAZE_DOWN
    } else if arms == 11 {
        MAZE_RIGHT_T
    } else if arms == 12 {
        MAZE_BOTTOM_RIGHT
    } else if arms == 13 {
        MAZE_BOTTOM_T
    } else if arms == 14 {
        MAZE_LEFT_T
    } else {
        MAZE_CROSS
    }
}

/// Whether a glyph code is one of the wall glyphs.
pub open spec fn is_wall_glyph(ch: u8) -> bool {
    MAZE_WALLS_START <= ch <= MAZE_WALLS_END
}

impl MazeGrid {
    /// The grid holds one pair of flags for each cell.
    pub closed spec fn wf(&self) -> bool {
        self.grid@.len() == self.rows * self.cols
    }

    /// Rows of cells.
    pub closed spec fn height(&self) -> int {
        self.rows as int
    }

    /// Columns of cells.
    pub closed spec fn width(&self) -> int {
        self.cols as int
    }

    /// Whether (`row`, `col`) is a cell of the grid.
    pub open spec fn holds(&self, row: int, col: int) -> bool {
        0 <= row < self.height() && 0 <= col < self.width()
    }

    /// The walls of the cell at (`row`, `col`); none outside the grid.
    pub closed spec fn walls(&self, row: int, col: int) -> Walls {
        if 0 <= row < self.rows && 0 <= col < self.cols {
            self.grid@[cell_index(self.cols as int, row, col)]
        } else {
            no_walls()
        }
    }

    /// The arms of the junction at the top left corner of a cell: up goes
    /// the left wall of the cell above, right goes the cell's own top
    /// wall, down goes its own left wall, left goes the top wall of the
    /// cell to the left. The neighbours are taken round the edges.
    pub open spec fn arms(&self, row: int, col: int) -> int {
        let above = wrap_dec(row, self.height());
        let beside = wrap_dec(col, self.width());
        (if self.walls(above, col).left {
            8int
        } else {
            0int
        }) + (if self.walls(row, col).top {
            4int
        } else {
            0int
        }) + (if self.walls(row, col).left {
            2int
        } else {
            0int
        }) + (if self.walls(row, beside).top {
            1int
        } else {
            0int
        })
    }

    /// A grid of cells without walls.
    pub fn new(rows: Size, cols: Size) -> (grid: MazeGrid)
        ensures
            grid.wf(),
            grid.height() == rows,
            grid.width() == cols,
            forall|row: int, col: int| #[trigger] grid.walls(row, col) == no_walls(),
    {
        assert(rows * cols <= 0xffff * 0xffff) by (nonlinear_arith)
            requires
                rows <= 0xffff,
                cols <= 0xffff,
        ;
        let cells: usize = rows as usize * cols as usize;
        let grid = MazeGrid { rows, cols, grid: vec![Walls { top: false, left: false }; cells] };
        proof {
            assert forall|row: int, col: int| #[trigger] grid.walls(row, col) == no_walls() by {
                if 0 <= row < rows && 0 <= col < cols {
                    lemma_cell_index(rows as int, cols as int, row, col);
                }
            }
        }
        grid
    }

    /// The place of a cell in the flags.
    fn offset(&self, row: Pos, col: Pos) -> (i: usize)
        requires
            self.wf(),
            row < self.rows,
            col < self.cols,
        ensures
            i == cell_index(self.cols as int, row as int, col as int),
            i < self.grid@.len(),
    {
        proof {
            lemma_cell_index(self.rows as int, self.cols as int, row as int, col as int);
            assert(row * self.cols <= 0xffff * 0xffff) by (nonlinear_arith)
                requires
                    row <= 0xffff,
                    self.cols <= 0xffff,
            ;
        }
        row as usize * self.cols as usize + col as usize
    }

    /// The walls of the cell at (`row`, `col`); none outside the grid.
    pub fn get(&self, row: Pos, col: Pos) -> (walls: Walls)
        requires
            self.wf(),
        ensures
            walls == self.walls(row as int, col as int),
            !self.holds(row as int, col as int) ==> walls == no_walls(),
    {
        if row < self.rows && col < self.cols {
            let i: usize = self.offset(row, col);
            self.grid[i]
        } else {
            Walls { top: false, left: false }
        }
    }

    /// Gives the cell at (`row`, `col`) these walls; outside the grid
    /// nothing happens.
    pub fn set(&mut self, row: Pos, col: Pos, walls: Walls)
        requires
            old(self).wf(),
        ensures
            final(self).wf(),
            final(self).height() == old(self).height(),
            final(self).width() == old(self).width(),
            forall|r: int, c: int| #[trigger]
                final(self).walls(r, c) == (if r == row && c == col && old(self).holds(r, c) {
                    walls
                } else {
                    old(self).walls(r, c)
                }),
    {
        if row < self.rows && col < self.cols {
            let i: usize = self.offset(row, col);
            self.grid[i] = walls;
            proof {
                assert forall|r: int, c: int| #[trigger]
                    self.walls(r, c) == (if r == row && c == col && old(self).holds(r, c) {
                        walls
                    } else {
                        old(self).walls(r, c)
                    }) by {
                    if 0 <= r < self.rows && 0 <= c < self.cols {
                        lemma_cell_index(self.rows as int, self.cols as int, r, c);
                        if cell_index(self.cols as int, r, c) == i {
                            lemma_cell_index_injective(
                                self.cols as int,
                                r,
                                c,
                                row as int,
                                col as int,
                            );
                        }
                    }
                }
            }
        }
    }

    /// Takes both walls from the cell at (`row`, `col`); outside the grid
    /// nothing happens.
    pub fn clear(&mut self, row: Pos, col: Pos)
        requires
            old(self).wf(),
        ensures
            final(self).wf(),
            final(self).height() == old(self).height(),
            final(self).width() == old(self).width(),
            forall|r: int, c: int| #[trigger]
                final(self).walls(r, c) == (if r == row && c == col {
                    no_walls()
                } else {
                    old(self).walls(r, c)
                }),
    {
        self.set(row, col, Walls { top: false, left: false });
    }

    /// The glyph for the top left corner of the cell at (`row`, `col`),
    /// which joins the walls that meet there.
    pub fn joiner(&self, row: Pos, col: Pos) -> (glyph: u8)
        requires
            self.wf(),
            self.holds(row as int, col as int),
        ensures
            glyph == junction_glyph(self.arms(row as int, col as int)),
            0 <= self.arms(row as int, col as int) < 16,
    {
        let row_1: Pos = if row == 0 {
            self.rows - 1
        } else {
            row - 1
        };
        let col_1: Pos = if col == 0 {
            self.cols - 1
        } else {
            col - 1
        };
        let mut wall_index: usize = 0;
        if self.get(row_1, col).left {
            wall_index += 8;
        }
        if self.get(row, col).top {
            wall_index += 4;
        }
        if self.get(row, col).left {
            wall_index += 2;
        }
        if self.get(row, col_1).top {
            wall_index += 1;
        }
        let wall_chars: [u8; 16] = [
            MAZE_NONE,
            MAZE_LEFT,
            MAZE_BOTTOM,
            MAZE_TOP_RIGHT,
            MAZE_RIGHT,
            MAZE_ACROSS,
            MAZE_TOP_LEFT,
            MAZE_TOP_T,
            MAZE_TOP,
            MAZE_BOTTOM_LEFT,
            MAZE_DOWN,
            MAZE_RIGHT_T,
            MAZE_BOTTOM_RIGHT,
            MAZE_BOTTOM_T,
            MAZE_LEFT_T,
            MAZE_CROSS,
        ];
        wall_chars[wall_index]
    }

    /// How many rows of cells the grid has.
    pub fn rows(&self) -> (rows: Size)
        ensures
            rows == self.height(),
    {
        self.rows
    }

    /// How many columns of cells the grid has.
    pub fn cols(&self) -> (cols: Size)
        ensures
            cols == self.width(),
    {
        self.cols
    }
}

/// Whether a roll of the percentile die opens a cell at this density:
/// at density 0 every roll does, else the rolls above the density.
pub open spec fn opens(density: usize, roll: u8) -> bool {
    density == 0 || roll > density
}

/// The row of cells that a row of characters belongs to.
pub open spec fn cell_row_of(row: int) -> int {
    row / (CELL_HEIGHT as int)
}

/// The column of cells that a column of characters belongs to.
pub open spec fn cell_col_of(col: int) -> int {
    col / (CELL_WIDTH as int)
}

/// The glyph that the drawing of `grid` has at (`row`, `col`): at the top
/// left corner of a cell the junction of the walls that meet there, along
/// its top edge a horizontal wall if the cell has its top wall, along its
/// left edge a vertical wall if it has its left wall, and a space
/// everywhere else.
pub open spec fn wall_glyph(grid: &MazeGrid, row: int, col: int) -> u8 {
    let cell_row = cell_row_of(row);
    let cell_col = cell_col_of(col);
    let walls = grid.walls(cell_row, cell_col);
    let corner_row = row % (CELL_HEIGHT as int) == 0;
    let corner_col = col % (CELL_WIDTH as int) == 0;
    if corner_row && corner_col {
        junction_glyph(grid.arms(cell_row, cell_col))
    } else if corner_row {
        if walls.top {
            MAZE_ACROSS
        } else {
            SPACE
        }
    } else if corner_col {
        if walls.left {
            MAZE_DOWN
        } else {
            SPACE
        }
    } else {
        SPACE
    }
}

impl MazeGrid {
    /// Whether the grid is closed along its first row and its first
    /// column: every cell of row 0 has its top wall and every cell of
    /// column 0 its left wall. On the torus these are the walls between
    /// the last row and the first, and between the last column and the
    /// first.
    pub open spec fn walled_in(&self) -> bool {
        &&& forall|c: int| 0 <= c < self.width() ==> (#[trigger] self.walls(0, c)).top
        &&& forall|r: int| 0 <= r < self.height() ==> (#[trigger] self.walls(r, 0)).left
    }

    /// The walls of the grid as a function of the cell.
    pub open spec fn flags(&self) -> spec_fn(int, int) -> Walls {
        |row: int, col: int| self.walls(row, col)
    }

    /// Whether every cell of the grid can be reached from every other
    /// through walls that are open.
    pub open spec fn connected(&self) -> bool {
        connected(self.flags(), self.height(), self.width())
    }

    /// Whether the passages of the grid form a spanning tree: every cell
    /// can be reached from every other, and there is one passage fewer
    /// than there are cells.
    pub open spec fn spanning_tree(&self) -> bool {
        spanning_tree(self.flags(), self.height(), self.width())
    }

    /// Outside the grid no cell has a wall.
    pub proof fn lemma_outside(&self, row: int, col: int)
        ensures
            !self.holds(row, col) ==> self.walls(row, col) == no_walls(),
    {
    }

    /// Whether no cell has a wall.
    pub open spec fn open_everywhere(&self) -> bool {
        forall|row: int, col: int| #[trigger] self.walls(row, col) == no_walls()
    }

    /// Opens cells by the roll of a die: the cell that is number `i`,
    /// counting row after row, loses both walls if roll `i` opens it at
    /// this density, and keeps them otherwise.
    pub fn thin(&mut self, density: usize, rolls: &Vec<u8>)
        requires
            old(self).wf(),
            rolls@.len() == old(self).height() * old(self).width(),
        ensures
            final(self).wf(),
            final(self).height() == old(self).height(),
            final(self).width() == old(self).width(),
            forall|r: int, c: int| #[trigger]
                final(self).walls(r, c) == (if old(self).holds(r, c) && opens(
                    density,
                    rolls@[cell_index(old(self).width(), r, c)],
                ) {
                    no_walls()
                } else {
                    old(self).walls(r, c)
                }),
            density == 0 ==> final(self).open_everywhere(),
            (forall|i: int| 0 <= i < rolls@.len() ==> rolls@[i] <= density) && density > 0
                ==> forall|r: int, c: int| #[trigger]
                final(self).walls(r, c) == old(self).walls(r, c),
            (forall|i: int| 0 <= i < rolls@.len() ==> rolls@[i] <= density) && density > 0
                ==> final(self).flags() == old(self).flags(),
            old(self).connected() ==> final(self).connected(),
    {
        let mut row: Size = 0;
        while row < self.rows
            invariant
                self.wf(),
                self.rows == old(self).rows,
                self.cols == old(self).cols,
                rolls@.len() == self.rows * self.cols,
                row <= self.rows,
                forall|r: int, c: int| #[trigger]
                    self.walls(r, c) == (if old(self).holds(r, c) && r < row && opens(
                        density,
                        rolls@[cell_index(self.cols as int, r, c)],
                    ) {
                        no_walls()
                    } else {
                        old(self).walls(r, c)
                    }),
            decreases self.rows - row,
        {
            let mut col: Size = 0;
            while col < self.cols
                invariant
                    self.wf(),
                    self.rows == old(self).rows,
                    self.cols == old(self).cols,
                    rolls@.len() == self.rows * self.cols,
                    row < self.rows,
                    col <= self.cols,
                    forall|r: int, c: int| #[trigger]
                        self.walls(r, c) == (if old(self).holds(r, c) && (r < row || (r == row && c
                            < col)) && opens(density, rolls@[cell_index(self.cols as int, r, c)]) {
                            no_walls()
                        } else {
                            old(self).walls(r, c)
                        }),
                decreases self.cols - col,
            {
                let i: usize = self.offset(row, col);
                let ghost before = *self;
                if density == 0 || rolls[i] as usize > density {
                    self.clear(row, col);
                }
                proof {
                    assert forall|r: int, c: int| #[trigger]
                        self.walls(r, c) == (if old(self).holds(r, c) && (r < row || (r == row && c
                            < col + 1)) && opens(
                            density,
                            rolls@[cell_index(self.cols as int, r, c)],
                        ) {
                            no_walls()
                        } else {
                            old(self).walls(r, c)
                        }) by {
                        let _ = before.walls(r, c);
                    }
                }
                col += 1;
            }
            row += 1;
        }
        proof {
            if (forall|i: int| 0 <= i < rolls@.len() ==> rolls@[i] <= density) && density > 0 {
                assert forall|r: int, c: int| #[trigger]
                    self.walls(r, c) == old(self).walls(r, c) by {
                    if old(self).holds(r, c) {
                        lemma_cell_index(self.rows as int, self.cols as int, r, c);
                    }
                }
                assert(self.flags() =~= old(self).flags());
            }
            if old(self).connected() {
                assert forall|r: int, c: int| (#[trigger] (self.flags())(r, c)).top implies (old(
                    self,
                ).flags())(r, c).top by {
                    let _ = self.walls(r, c);
                }
                assert forall|r: int, c: int| (#[trigger] (self.flags())(r, c)).left implies (old(
                    self,
                ).flags())(r, c).left by {
                    let _ = self.walls(r, c);
                }
                lemma_connected_opened(
                    old(self).flags(),
                    self.flags(),
                    self.height(),
                    self.width(),
                );
            }
        }
    }
}

/// A maze: a buffer of characters in which some glyphs are walls.
///
/// A maze of `h` by `w` cells is `10 h` by `17 w` characters: each cell
/// has nine rows and sixteen columns of floor, a wall above and a wall to
/// the left. The edges wrap.
#[derive(Clone, Debug)]
pub struct Maze {
    /// Rows of cells.
    pub cell_rows: Size,
    /// Columns of cells.
    pub cell_cols: Size,
    /// Rows and columns of characters.
    pub dimensions: Dimensions,
    pub buffer: Buffer,
}

impl Maze {
    /// The buffer has the size of the maze, which is that of its cells:
    /// at least two by two of them.
    pub open spec fn wf(&self) -> bool {
        &&& 2 <= self.cell_rows <= MAX_CELL_ROWS
        &&& 2 <= self.cell_cols <= MAX_CELL_COLS
        &&& self.dimensions.rows == CELL_HEIGHT * self.cell_rows
        &&& self.dimensions.cols == CELL_WIDTH * self.cell_cols
        &&& self.buffer.wf()
        &&& self.buffer.rows == self.dimensions.rows
        &&& self.buffer.cols == self.dimensions.cols
    }

    /// Whether the character at (`row`, `col`) is a wall; outside the maze
    /// nothing is.
    pub open spec fn wall_at(&self, row: int, col: int) -> bool {
        is_wall_glyph(self.buffer.char_at(row, col))
    }

    /// Whether one of the four characters of the square whose top left
    /// corner is (`row`, `col`) is a wall; the square wraps round the
    /// edges.
    pub open spec fn wall_in_quad(&self, row: int, col: int) -> bool {
        let row2 = wrap_inc(row, self.dimensions.rows as int);
        let col2 = wrap_inc(col, self.dimensions.cols as int);
        self.wall_at(row, col) || self.wall_at(row, col2) || self.wall_at(row2, col)
            || self.wall_at(row2, col2)
    }

    /// Whether the buffer holds the drawing of `grid` and nothing else.
    pub open spec fn drawn_from(&self, grid: &MazeGrid) -> bool {
        &&& forall|row: int, col: int|
            self.buffer.holds(row, col) ==> #[trigger] self.buffer.char_at(row, col) == wall_glyph(
                grid,
                row,
                col,
            )
        &&& forall|row: int, col: int|
            self.buffer.holds(row, col) ==> #[trigger] self.buffer.attr_at(row, col) == ATTR_NONE
    }

    /// An empty maze of `cell_rows` by `cell_cols` cells.
    pub fn new(cell_rows: Size, cell_cols: Size) -> (maze: Maze)
        requires
            2 <= cell_rows <= MAX_CELL_ROWS,
            2 <= cell_cols <= MAX_CELL_COLS,
        ensures
            maze.wf(),
            maze.cell_rows == cell_rows,
            maze.cell_cols == cell_cols,
            maze.buffer.blank(),
            forall|row: int, col: int| !#[trigger] maze.wall_at(row, col),
    {
        assert(MAZE_CELL_ROWS + 1 == CELL_HEIGHT && MAZE_CELL_COLS + 1 == CELL_WIDTH);
        assert(CELL_HEIGHT * cell_rows <= 0xffff && CELL_WIDTH * cell_cols <= 0xffff);
        let rows: Size = (MAZE_CELL_ROWS + 1) * cell_rows;
        let cols: Size = (MAZE_CELL_COLS + 1) * cell_cols;
        Maze { cell_rows, cell_cols, dimensions: Dimensions { rows, cols }, buffer: Buffer::new(rows, cols) }
    }

    /// Rows of characters.
    pub fn rows(&self) -> (rows: Size)
        ensures
            rows == self.dimensions.rows,
    {
        self.dimensions.rows
    }

    /// Columns of characters.
    pub fn cols(&self) -> (cols: Size)
        ensures
            cols == self.dimensions.cols,
    {
        self.dimensions.cols
    }

    /// Whether the character at (`row`, `col`) is a wall.
    pub fn is_wall(&self, row: Pos, col: Pos) -> (wall: bool)
        requires
            self.buffer.wf(),
        ensures
            wall == self.wall_at(row as int, col as int),
    {
        let ch: u8 = self.buffer.get_char(row, col);
        MAZE_WALLS_START <= ch && ch <= MAZE_WALLS_END
    }

    /// Whether the square of four characters at (`row`, `col`), the
    /// footprint of a large entity, touches a wall.
    pub fn is_wall_quad(&self, row: Pos, col: Pos) -> (wall: bool)
        requires
            self.buffer.wf(),
            self.dimensions.wf(),
        ensures
            wall == self.wall_in_quad(row as int, col as int),
    {
        let row2: Pos = row.inc(self.dimensions.rows);
        let col2: Pos = col.inc(self.dimensions.cols);
        self.is_wall(row, col) || self.is_wall(row, col2) || self.is_wall(row2, col)
            || self.is_wall(row2, col2)
    }
}

/// Whether the character at (`row`, `col`) belongs to the cell
/// (`cell_row`, `cell_col`).
pub open spec fn in_cell(row: int, col: int, cell_row: int, cell_col: int) -> bool {
    cell_row_of(row) == cell_row && cell_col_of(col) == cell_col
}

/// Whether the character at (`row`, `col`) belongs to a cell that comes
/// before (`cell_row`, `cell_col`), counting row after row.
pub open spec fn in_earlier_cell(row: int, col: int, cell_row: int, cell_col: int) -> bool {
    cell_row_of(row) < cell_row || (cell_row_of(row) == cell_row && cell_col_of(col) < cell_col)
}

impl Maze {
    /// Draws one cell of `grid` into floor that is still blank: its
    /// junction, then its top wall, then its left wall.
    fn draw_cell(&mut self, grid: &MazeGrid, cell_row: Size, cell_col: Size)
        requires
            old(self).wf(),
            grid.wf(),
            grid.height() == old(self).cell_rows,
            grid.width() == old(self).cell_cols,
            cell_row < old(self).cell_rows,
            cell_col < old(self).cell_cols,
            forall|r: int, c: int|
                old(self).buffer.holds(r, c) && in_cell(r, c, cell_row as int, cell_col as int)
                    ==> #[trigger] old(self).buffer.char_at(r, c) == SPACE,
            forall|r: int, c: int|
                old(self).buffer.holds(r, c) ==> #[trigger] old(self).buffer.attr_at(r, c)
                    == ATTR_NONE,
        ensures
            final(self).wf(),
            final(self).cell_rows == old(self).cell_rows,
            final(self).cell_cols == old(self).cell_cols,
            final(self).dimensions == old(self).dimensions,
            forall|r: int, c: int|
                old(self).buffer.holds(r, c) ==> #[trigger] final(self).buffer.char_at(r, c) == (
                if in_cell(r, c, cell_row as int, cell_col as int) {
                    wall_glyph(grid, r, c)
                } else {
                    old(self).buffer.char_at(r, c)
                }),
            forall|r: int, c: int|
                old(self).buffer.holds(r, c) ==> #[trigger] final(self).buffer.attr_at(r, c)
                    == ATTR_NONE,
    {
        assert(CELL_HEIGHT == 10 && CELL_WIDTH == 17 && MAZE_CELL_ROWS == 9 && MAZE_CELL_COLS == 16);
        let row: Size = cell_row * (MAZE_CELL_ROWS + 1);
        let col: Size = cell_col * (MAZE_CELL_COLS + 1);
        let walls: Walls = grid.get(cell_row, cell_col);
        let glyph: u8 = grid.joiner(cell_row, cell_col);
        self.buffer.set_chattr(row, col, glyph, ATTR_NONE);
        let ghost cornered = self.buffer;
        assert forall|r: int, c: int| old(self).buffer.holds(r, c) implies #[trigger] cornered.char_at(
            r,
            c,
        ) == (if r == row && c == col {
            wall_glyph(grid, r, c)
        } else {
            old(self).buffer.char_at(r, c)
        }) by {}
        if walls.top {
            let mut col_index: Size = 1;
            while col_index <= MAZE_CELL_COLS
                invariant
                    self.wf(),
                    old(self).wf(),
                    self.cell_rows == old(self).cell_rows,
                    self.cell_cols == old(self).cell_cols,
                    self.dimensions == old(self).dimensions,
                    MAZE_CELL_COLS == 16,
                    row == cell_row * 10,
                    col == cell_col * 17,
                    cell_col < self.cell_cols,
                    1 <= col_index <= 17,
                    forall|r: int, c: int|
                        old(self).buffer.holds(r, c) ==> #[trigger] self.buffer.char_at(r, c) == (
                        if r == row && col < c < col + col_index {
                            MAZE_ACROSS
                        } else {
                            cornered.char_at(r, c)
                        }),
                    forall|r: int, c: int|
                        old(self).buffer.holds(r, c) ==> #[trigger] self.buffer.attr_at(r, c)
                            == ATTR_NONE,
                decreases 17 - col_index,
            {
                let ghost before = self.buffer;
                self.buffer.set_chattr(row, col + col_index, MAZE_ACROSS, ATTR_NONE);
                proof {
                    assert forall|r: int, c: int|
                        old(self).buffer.holds(r, c) implies #[trigger] self.buffer.char_at(r, c)
                        == (if r == row && col < c < col + col_index + 1 {
                        MAZE_ACROSS
                    } else {
                        cornered.char_at(r, c)
                    }) by {
                        let _ = before.char_at(r, c);
                    }
                    assert forall|r: int, c: int|
                        old(self).buffer.holds(r, c) implies #[trigger] self.buffer.attr_at(r, c)
                        == ATTR_NONE by {
                        let _ = before.attr_at(r, c);
                    }
                }
                col_index += 1;
            }
        }
        let ghost topped = self.buffer;
        assert forall|r: int, c: int| old(self).buffer.holds(r, c) implies #[trigger] topped.char_at(
            r,
            c,
        ) == (if r == row && col <= c < col + 17 {
            wall_glyph(grid, r, c)
        } else {
            old(self).buffer.char_at(r, c)
        }) by {
            let _ = cornered.char_at(r, c);
        }
        if walls.left {
            let mut row_index: Size = 1;
            while row_index <= MAZE_CELL_ROWS
                invariant
                    self.wf(),
                    old(self).wf(),
                    self.cell_rows == old(self).cell_rows,
                    self.cell_cols == old(self).cell_cols,
                    self.dimensions == old(self).dimensions,
                    MAZE_CELL_ROWS == 9,
                    row == cell_row * 10,
                    col == cell_col * 17,
                    cell_row < self.cell_rows,
                    1 <= row_index <= 10,
                    forall|r: int, c: int|
                        old(self).buffer.holds(r, c) ==> #[trigger] self.buffer.char_at(r, c) == (
                        if c == col && row < r < row + row_index {
                            MAZE_DOWN
                        } else {
                            topped.char_at(r, c)
                        }),
                    forall|r: int, c: int|
                        old(self).buffer.holds(r, c) ==> #[trigger] self.buffer.attr_at(r, c)
                            == ATTR_NONE,
                decreases 10 - row_index,
            {
                let ghost before = self.buffer;
                self.buffer.set_chattr(row + row_index, col, MAZE_DOWN, ATTR_NONE);
                proof {
                    assert forall|r: int, c: int|
                        old(self).buffer.holds(r, c) implies #[trigger] self.buffer.char_at(r, c)
                        == (if c == col && row < r < row + row_index + 1 {
                        MAZE_DOWN
                    } else {
                        topped.char_at(r, c)
                    }) by {
                        let _ = before.char_at(r, c);
                    }
                    assert forall|r: int, c: int|
                        old(self).buffer.holds(r, c) implies #[trigger] self.buffer.attr_at(r, c)
                        == ATTR_NONE by {
                        let _ = before.attr_at(r, c);
                    }
                }
                row_index += 1;
            }
        }
        proof {
            assert forall|r: int, c: int|
                old(self).buffer.holds(r, c) implies #[trigger] self.buffer.char_at(r, c) == (
            if in_cell(r, c, cell_row as int, cell_col as int) {
                wall_glyph(grid, r, c)
            } else {
                old(self).buffer.char_at(r, c)
            }) by {
                let _ = topped.char_at(r, c);
            }
        }
    }

    /// Draws the walls of `grid` into the buffer, over what was there:
    /// after it every character is the glyph of the drawing, without
    /// attribute.
    pub fn draw_walls(&mut self, grid: &MazeGrid)
        requires
            old(self).wf(),
            grid.wf(),
            grid.height() == old(self).cell_rows,
            grid.width() == old(self).cell_cols,
        ensures
            final(self).wf(),
            final(self).cell_rows == old(self).cell_rows,
            final(self).cell_cols == old(self).cell_cols,
            final(self).dimensions == old(self).dimensions,
            final(self).drawn_from(grid),
            grid.open_everywhere() ==> forall|row: int, col: int|
                !#[trigger] final(self).wall_at(row, col),
    {
        self.buffer.clear();
        let mut cell_row: Size = 0;
        while cell_row < self.cell_rows
            invariant
                self.wf(),
                grid.wf(),
                grid.height() == self.cell_rows,
                grid.width() == self.cell_cols,
                self.cell_rows == old(self).cell_rows,
                self.cell_cols == old(self).cell_cols,
                self.dimensions == old(self).dimensions,
                cell_row <= self.cell_rows,
                forall|r: int, c: int|
                    self.buffer.holds(r, c) ==> #[trigger] self.buffer.char_at(r, c) == (
                    if in_earlier_cell(r, c, cell_row as int, 0) {
                        wall_glyph(grid, r, c)
                    } else {
                        SPACE
                    }),
                forall|r: int, c: int|
                    self.buffer.holds(r, c) ==> #[trigger] self.buffer.attr_at(r, c) == ATTR_NONE,
            decreases self.cell_rows - cell_row,
        {
            let mut cell_col: Size = 0;
            while cell_col < self.cell_cols
                invariant
                    self.wf(),
                    grid.wf(),
                    grid.height() == self.cell_rows,
                    grid.width() == self.cell_cols,
                    self.cell_rows == old(self).cell_rows,
                    self.cell_cols == old(self).cell_cols,
                    self.dimensions == old(self).dimensions,
                    cell_row < self.cell_rows,
                    cell_col <= self.cell_cols,
                    forall|r: int, c: int|
                        self.buffer.holds(r, c) ==> #[trigger] self.buffer.char_at(r, c) == (
                        if in_earlier_cell(r, c, cell_row as int, cell_col as int) {
                            wall_glyph(grid, r, c)
                        } else {
                            SPACE
                        }),
                    forall|r: int, c: int|
                        self.buffer.holds(r, c) ==> #[trigger] self.buffer.attr_at(r, c)
                            == ATTR_NONE,
                decreases self.cell_cols - cell_col,
            {
                let ghost before = self.buffer;
                self.draw_cell(grid, cell_row, cell_col);
                proof {
                    assert forall|r: int, c: int|
                        self.buffer.holds(r, c) implies #[trigger] self.buffer.char_at(r, c) == (
                    if in_earlier_cell(r, c, cell_row as int, cell_col + 1) {
                        wall_glyph(grid, r, c)
                    } else {
                        SPACE
                    }) by {
                        let _ = before.char_at(r, c);
                    }
                }
                cell_col += 1;
            }
            proof {
                assert(CELL_WIDTH == 17 && CELL_HEIGHT == 10);
                assert forall|r: int, c: int|
                    self.buffer.holds(r, c) implies #[trigger] self.buffer.char_at(r, c) == (
                if in_earlier_cell(r, c, cell_row + 1, 0) {
                    wall_glyph(grid, r, c)
                } else {
                    SPACE
                }) by {}
            }
            cell_row += 1;
        }
        proof {
            assert(CELL_WIDTH == 17 && CELL_HEIGHT == 10);
            assert forall|row: int, col: int|
                self.buffer.holds(row, col) implies #[trigger] self.buffer.char_at(row, col)
                == wall_glyph(grid, row, col) by {}
            if grid.open_everywhere() {
                assert forall|row: int, col: int| !#[trigger] self.wall_at(row, col) by {
                    if self.buffer.holds(row, col) {
                        let _ = grid.walls(cell_row_of(row), cell_col_of(col));
                        let _ = grid.walls(
                            wrap_dec(cell_row_of(row), grid.height()),
                            cell_col_of(col),
                        );
                        let _ = grid.walls(
                            cell_row_of(row),
                            wrap_dec(cell_col_of(col), grid.width()),
                        );
                    }
                }
            }
        }
    }
}

/// In a drawing, the mark of a wall that runs across.
pub const DRAWN_ACROSS: u8 = 0x5f;

/// In a drawing, the mark of a wall that runs down.
pub const DRAWN_DOWN: u8 = 0x7c;

/// How many bytes the narrow drawing of a maze takes: a line for the top
/// border and one for each row of cells, each of two characters for a
/// cell, one for the left border and the end of the line.
pub open spec fn drawing_len(rows: int, cols: int) -> int {
    (rows + 1) * (2 * cols + 2)
}

/// Where a narrow drawing shows whether the cell (`row`, `col`) has its
/// top wall: in the line above the cell's own, under the cell.
pub open spec fn top_mark(cols: int, row: int, col: int) -> int {
    row * (2 * cols + 2) + 1 + 2 * col
}

/// Where a narrow drawing shows whether the cell (`row`, `col`) has its
/// left wall: in the cell's own line, before the cell.
pub open spec fn left_mark(cols: int, row: int, col: int) -> int {
    (row + 1) * (2 * cols + 2) + 2 * col
}

/// The marks of a cell lie within the drawing.
pub proof fn lemma_marks(rows: int, cols: int, row: int, col: int)
    requires
        0 <= row < rows,
        0 <= col < cols,
    ensures
        0 <= row * (2 * cols + 2),
        (row + 1) * (2 * cols + 2) == row * (2 * cols + 2) + 2 * cols + 2,
        0 <= top_mark(cols, row, col) < drawing_len(rows, cols),
        0 <= left_mark(cols, row, col) < drawing_len(rows, cols),
{
    let line = 2 * cols + 2;
    assert(0 <= row * line) by (nonlinear_arith)
        requires
            0 <= row,
            0 <= line,
    ;
    assert((row + 1) * line == row * line + line) by (nonlinear_arith);
    assert((row + 2) * line == row * line + 2 * line) by (nonlinear_arith);
    assert((row + 2) * line <= (rows + 1) * line) by (nonlinear_arith)
        requires
            row + 2 <= rows + 1,
            0 <= line,
    ;
}

/// The walls that a narrow drawing of a maze of `rows` by `cols` cells
/// shows, as a function of the cell: a cell has its top wall where the
/// drawing shows an underscore at its top mark, and its left wall where
/// it shows a bar at its left mark. Outside the grid no cell has a wall.
pub open spec fn drawn_walls(text: Seq<u8>, rows: int, cols: int) -> spec_fn(int, int) -> Walls {
    |row: int, col: int|
        if 0 <= row < rows && 0 <= col < cols {
            Walls {
                top: text[top_mark(cols, row, col)] == DRAWN_ACROSS,
                left: text[left_mark(cols, row, col)] == DRAWN_DOWN,
            }
        } else {
            no_walls()
        }
}

/// Whether a narrow drawing of a maze of `rows` by `cols` cells shows a
/// spanning tree: going by the marks that are open, every cell can be
/// reached from every other, and the open marks are one fewer than the
/// cells.
pub open spec fn drawn_tree(text: Seq<u8>, rows: int, cols: int) -> bool {
    spanning_tree(drawn_walls(text, rows, cols), rows, cols)
}

impl MazeGrid {
    /// Reads the walls out of a narrow drawing of a maze of `rows` by
    /// `cols` cells, as knossos makes them: a cell has its top wall where
    /// the line above shows an underscore under it, and its left wall
    /// where its own line shows a bar before it. A text of another length
    /// is no such drawing.
    pub fn from_drawing(rows: Size, cols: Size, text: &Vec<u8>) -> (out: Option<MazeGrid>)
        ensures
            out is Some <==> text@.len() == drawing_len(rows as int, cols as int),
            out matches Some(grid) ==> {
                &&& grid.wf()
                &&& grid.height() == rows
                &&& grid.width() == cols
                &&& forall|r: int, c: int| #[trigger]
                    grid.walls(r, c) == (if grid.holds(r, c) {
                        Walls {
                            top: text@[top_mark(cols as int, r, c)] == DRAWN_ACROSS,
                            left: text@[left_mark(cols as int, r, c)] == DRAWN_DOWN,
                        }
                    } else {
                        no_walls()
                    })
                &&& grid.flags() == drawn_walls(text@, rows as int, cols as int)
            },
    {
        let line: u64 = 2 * (cols as u64) + 2;
        assert((rows + 1) * (2 * cols + 2) <= 0x10000 * 0x20000) by (nonlinear_arith)
            requires
                rows <= 0xffff,
                cols <= 0xffff,
        ;
        if text.len() as u64 != (rows as u64 + 1) * line {
            return None;
        }
        let len: usize = text.len();
        let mut grid = MazeGrid::new(rows, cols);
        let mut row: Size = 0;
        while row < rows
            invariant
                len == text@.len(),
                grid.wf(),
                grid.height() == rows,
                grid.width() == cols,
                line == 2 * cols + 2,
                text@.len() == drawing_len(rows as int, cols as int),
                row <= rows,
                forall|r: int, c: int| #[trigger]
                    grid.walls(r, c) == (if grid.holds(r, c) && r < row {
                        Walls {
                            top: text@[top_mark(cols as int, r, c)] == DRAWN_ACROSS,
                            left: text@[left_mark(cols as int, r, c)] == DRAWN_DOWN,
                        }
                    } else {
                        no_walls()
                    }),
            decreases rows - row,
        {
            let mut col: Size = 0;
            while col < cols
                invariant
                    len == text@.len(),
                    grid.wf(),
                    grid.height() == rows,
                    grid.width() == cols,
                    line == 2 * cols + 2,
                    text@.len() == drawing_len(rows as int, cols as int),
                    row < rows,
                    col <= cols,
                    forall|r: int, c: int| #[trigger]
                        grid.walls(r, c) == (if grid.holds(r, c) && (r < row || (r == row && c
                            < col)) {
                            Walls {
                                top: text@[top_mark(cols as int, r, c)] == DRAWN_ACROSS,
                                left: text@[left_mark(cols as int, r, c)] == DRAWN_DOWN,
                            }
                        } else {
                            no_walls()
                        }),
                decreases cols - col,
            {
                proof {
                    lemma_marks(rows as int, cols as int, row as int, col as int);
                    assert(row * line <= 0xffff * 0x20000) by (nonlinear_arith)
                        requires
                            row <= 0xffff,
                            line <= 0x20000,
                    ;
                }
                let above: u64 = row as u64 * line;
                proof {
                    assert(above == row * (2 * cols + 2)) by (nonlinear_arith)
                        requires
                            above == row * line,
                            line == 2 * cols + 2,
                    ;
                    assert(above + 1 + 2 * col == top_mark(cols as int, row as int, col as int));
                    assert(above + line + 2 * col == left_mark(cols as int, row as int, col as int));
                }
                let top: usize = (above + 1 + 2 * (col as u64)) as usize;
                let left: usize = (above + line + 2 * (col as u64)) as usize;
                let walls = Walls { top: text[top] == DRAWN_ACROSS, left: text[left] == DRAWN_DOWN };
                let ghost before = grid;
                grid.set(row, col, walls);
                proof {
                    assert forall|r: int, c: int| #[trigger]
                        grid.walls(r, c) == (if grid.holds(r, c) && (r < row || (r == row && c < col
                            + 1)) {
                            Walls {
                                top: text@[top_mark(cols as int, r, c)] == DRAWN_ACROSS,
                                left: text@[left_mark(cols as int, r, c)] == DRAWN_DOWN,
                            }
                        } else {
                            no_walls()
                        }) by {
                        let _ = before.walls(r, c);
                    }
                }
                col += 1;
            }
            row += 1;
        }
        proof {
            assert(grid.flags() =~= drawn_walls(text@, rows as int, cols as int)) by {
                assert forall|r: int, c: int| (grid.flags())(r, c) == #[trigger] drawn_walls(
                    text@,
                    rows as int,
                    cols as int,
                )(r, c) by {
                    let _ = grid.walls(r, c);
                }
            }
        }
        Some(grid)
    }
}

/// The narrow drawing of a fresh maze of `height` by `width` cells.
///
/// Calls knossos: `OrthogonalMazeBuilder` with the `HuntAndKill`
/// algorithm, and `OrthogonalMaze::format` with the `AsciiNarrow`
/// formatter, whose text it hands on as bytes. The maze differs from call
/// to call. Not proved, but shown by the formatter's source of every
/// drawing: the length of the text (a line for the top border and one for
/// each row, each of `2 * width + 1` characters and a line feed); that
/// the top border is a run of underscores over every cell of the first
/// row; and that every row begins with a bar. Not proved either, but
/// shown by the algorithm's source of every maze: that its passages form
/// a spanning tree. Every passage that hunt-and-kill carves joins a cell
/// that it has not visited yet to one that it has, and it goes on until
/// it has visited every cell; the formatter shows a passage upwards as no
/// underscore at the top mark and a passage to the left as no bar at the
/// left mark. An axis without cells makes knossos panic, which `requires`
/// leaves out.
#[verifier::external_body]
fn hunt_and_kill_drawing(height: usize, width: usize) -> (text: Vec<u8>)
    requires
        0 < height <= 0xffff,
        0 < width <= 0xffff,
    ensures
        text@.len() == drawing_len(height as int, width as int),
        forall|c: int|
            0 <= c < width ==> text@[#[trigger] top_mark(width as int, 0, c)] == DRAWN_ACROSS,
        forall|r: int|
            0 <= r < height ==> text@[#[trigger] left_mark(width as int, r, 0)] == DRAWN_DOWN,
        drawn_tree(text@, height as int, width as int),
{
    OrthogonalMazeBuilder::new()
        .algorithm(Box::new(HuntAndKill::new()))
        .height(height)
        .width(width)
        .build()
        .format(AsciiNarrow)
        .into_inner()
        .into_bytes()
}

/// The walls of a fresh maze of `rows` by `cols` cells, as knossos
/// generates it with its hunt-and-kill algorithm, read back from its
/// drawing. The maze is closed along its first row and its first column,
/// and its passages form a spanning tree; which tree is up to knossos
/// and to chance.
pub fn create_maze_grid(rows: Size, cols: Size) -> (grid: MazeGrid)
    requires
        rows > 0,
        cols > 0,
    ensures
        grid.wf(),
        grid.height() == rows,
        grid.width() == cols,
        grid.walled_in(),
        grid.spanning_tree(),
{
    let text: Vec<u8> = hunt_and_kill_drawing(rows as usize, cols as usize);
    match MazeGrid::from_drawing(rows, cols, &text) {
        Some(grid) => grid,
        None => unreached(),
    }
}

/// Whether every roll is a percentage: from 1 to 100.
pub open spec fn percentages(rolls: Seq<u8>) -> bool {
    forall|i: int| 0 <= i < rolls.len() ==> 1 <= #[trigger] rolls[i] <= 100
}

/// One roll of the percentile die for each of `count` cells.
pub fn roll_percentages(count: usize) -> (rolls: Vec<u8>)
    ensures
        rolls@.len() == count,
        percentages(rolls@),
{
    let mut rolls: Vec<u8> = Vec::new();
    while rolls.len() < count
        invariant
            rolls@.len() <= count,
            percentages(rolls@),
        decreases count - rolls@.len(),
    {
        let roll: u16 = random(1, 100);
        rolls.push(roll as u8);
    }
    rolls
}

impl Maze {
    /// Makes this maze from a maze without loops and a roll of the
    /// percentile die for each cell: opens the cells whose roll says so
    /// at this density, and draws what is left. Returns the walls that
    /// were drawn.
    ///
    /// At density 0 every cell is opened and no wall is left; at density
    /// 100 or more none is opened. The same walls and rolls give the same
    /// maze.
    pub fn generate_from(&mut self, tree: MazeGrid, rolls: &Vec<u8>, density: usize) -> (grid:
        MazeGrid)
        requires
            old(self).wf(),
            tree.wf(),
            tree.height() == old(self).cell_rows,
            tree.width() == old(self).cell_cols,
            rolls@.len() == tree.height() * tree.width(),
        ensures
            final(self).wf(),
            final(self).cell_rows == old(self).cell_rows,
            final(self).cell_cols == old(self).cell_cols,
            final(self).dimensions == old(self).dimensions,
            grid.wf(),
            grid.height() == tree.height(),
            grid.width() == tree.width(),
            forall|r: int, c: int| #[trigger]
                grid.walls(r, c) == (if tree.holds(r, c) && opens(
                    density,
                    rolls@[cell_index(tree.width(), r, c)],
                ) {
                    no_walls()
                } else {
                    tree.walls(r, c)
                }),
            final(self).drawn_from(&grid),
            density == 0 ==> grid.open_everywhere() && forall|row: int, col: int|
                !#[trigger] final(self).wall_at(row, col),
            density >= 100 && percentages(rolls@) ==> forall|r: int, c: int| #[trigger]
                grid.walls(r, c) == tree.walls(r, c),
            density >= 100 && percentages(rolls@) ==> grid.flags() == tree.flags(),
            tree.connected() ==> grid.connected(),
            density >= 100 && percentages(rolls@) && tree.spanning_tree()
                ==> grid.spanning_tree(),
    {
        let mut grid = tree;
        grid.thin(density, rolls);
        self.draw_walls(&grid);
        grid
    }

    /// Whether the maze is one that was generated at this density. Its
    /// buffer holds the drawing of walls through which every cell can be
    /// reached from every other. At density 100 or more the passages
    /// form a spanning tree, closed along the first row and the first
    /// column: the maze without loops as it came from knossos. At density
    /// 0 there is no wall at all.
    pub open spec fn generated(&self, density: usize) -> bool {
        &&& exists|grid: MazeGrid|
            {
                &&& grid.wf()
                &&& grid.height() == self.cell_rows
                &&& grid.width() == self.cell_cols
                &&& #[trigger] self.drawn_from(&grid)
                &&& grid.connected()
                &&& density >= 100 ==> grid.walled_in() && grid.spanning_tree()
            }
        &&& density == 0 ==> forall|row: int, col: int| !#[trigger] self.wall_at(row, col)
        &&& density >= 100 ==> self.fenced()
    }

    /// Whether the first row and the first column of characters are walls
    /// all along.
    pub open spec fn fenced(&self) -> bool {
        &&& forall|col: int| 0 <= col < self.dimensions.cols ==> #[trigger] self.wall_at(0, col)
        &&& forall|row: int| 0 <= row < self.dimensions.rows ==> #[trigger] self.wall_at(row, 0)
    }

    /// The drawing of a grid that is closed along its first row and its
    /// first column has walls all along its first row and its first
    /// column of characters.
    pub proof fn lemma_fenced(&self, grid: &MazeGrid)
        requires
            self.wf(),
            grid.wf(),
            grid.height() == self.cell_rows,
            grid.width() == self.cell_cols,
            self.drawn_from(grid),
            grid.walled_in(),
        ensures
            self.fenced(),
    {
        assert(CELL_HEIGHT == 10 && CELL_WIDTH == 17);
        assert forall|col: int| 0 <= col < self.dimensions.cols implies #[trigger] self.wall_at(
            0,
            col,
        ) by {
            let _ = self.buffer.char_at(0, col);
            let _ = grid.walls(0, cell_col_of(col));
        }
        assert forall|row: int| 0 <= row < self.dimensions.rows implies #[trigger] self.wall_at(
            row,
            0,
        ) by {
            let _ = self.buffer.char_at(row, 0);
            let _ = grid.walls(cell_row_of(row), 0);
        }
    }

    /// Makes this maze anew: a maze without loops from knossos, opened up
    /// by the roll of a die for each cell: at density 100 no cell is
    /// opened, at density 0 every cell. At every density every cell can
    /// be reached from every other.
    pub fn generate(&mut self, density: usize)
        requires
            old(self).wf(),
        ensures
            final(self).wf(),
            final(self).cell_rows == old(self).cell_rows,
            final(self).cell_cols == old(self).cell_cols,
            final(self).dimensions == old(self).dimensions,
            final(self).generated(density),
    {
        let tree: MazeGrid = create_maze_grid(self.cell_rows, self.cell_cols);
        assert(self.cell_rows * self.cell_cols <= 0xffff * 0xffff) by (nonlinear_arith)
            requires
                self.cell_rows <= 0xffff,
                self.cell_cols <= 0xffff,
        ;
        let rolls: Vec<u8> = roll_percentages(self.cell_rows as usize * self.cell_cols as usize);
        let grid: MazeGrid = self.generate_from(tree, &rolls, density);
        proof {
            assert(self.drawn_from(&grid));
            if density >= 100 {
                assert(grid.walled_in());
                self.lemma_fenced(&grid);
            }
        }
    }
}

} // verus!
