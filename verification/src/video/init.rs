//! What a session is started with.

use vstd::prelude::*;
use crate::video::{Pixels, Size, CHAR_CELL_HEIGHT, CHAR_CELL_WIDTH};

verus! {

/// The narrowest window that is accepted, in pixels.
pub const MIN_WINDOW_WIDTH: Pixels = 640;

/// The lowest window that is accepted, in pixels.
pub const MIN_WINDOW_HEIGHT: Pixels = 480;

/// The choices that a session is started with. What is `None` is left
/// to the defaults.
#[derive(Debug, Clone, Copy, PartialEq, Eq, Structural)]
pub struct InitOptions {
    pub display_index: Option<usize>,
    pub window_width: Option<usize>,
    pub window_height: Option<usize>,
    pub scale: Option<usize>,
    /// Rows of maze cells.
    pub maze_height: Option<Size>,
    /// Columns of maze cells.
    pub maze_width: Option<Size>,
    /// The share of its walls that the maze keeps, in percent.
    pub density: Option<usize>,
    pub factories: Option<usize>,
    pub quiet: bool,
}

impl InitOptions {
    /// Nothing chosen.
    pub open spec fn blank() -> InitOptions {
        InitOptions {
            display_index: None,
            window_width: None,
            window_height: None,
            scale: None,
            maze_height: None,
            maze_width: None,
            density: None,
            factories: None,
            quiet: false,
        }
    }

    /// Nothing chosen.
    pub fn new() -> (opts: InitOptions)
        ensures
            opts == InitOptions::blank(),
    {
        InitOptions {
            display_index: None,
            window_width: None,
            window_height: None,
            scale: None,
            maze_height: None,
            maze_width: None,
            density: None,
            factories: None,
            quiet: false,
        }
    }

    /// Chooses the display, if one is given.
    pub fn display_index(self, index: Option<usize>) -> (opts: InitOptions)
        ensures
            opts == (InitOptions {
                display_index: if index is Some {
                    index
                } else {
                    self.display_index
                },
                ..self
            }),
    {
        let mut opts = self;
        if let Some(index) = index {
            opts.display_index = Some(index);
        }
        opts
    }

    /// Chooses the width of the window, if one of at least 640 pixels is
    /// given: the largest multiple of the width of a character cell
    /// within it.
    pub fn window_width(self, width: Option<Pixels>) -> (opts: InitOptions)
        ensures
            opts == (InitOptions {
                window_width: match width {
                    Some(w) if w >= MIN_WINDOW_WIDTH => Some((w - w % CHAR_CELL_WIDTH) as usize),
                    _ => self.window_width,
                },
                ..self
            }),
    {
        let mut opts = self;
        if let Some(width) = width {
            if width >= MIN_WINDOW_WIDTH {
                opts.window_width = Some(width - width % CHAR_CELL_WIDTH);
            }
        }
        opts
    }

    /// Chooses the height of the window, if one of at least 480 pixels is
    /// given: the largest multiple of the height of a character cell
    /// within it.
    pub fn window_height(self, height: Option<Pixels>) -> (opts: InitOptions)
        ensures
            opts == (InitOptions {
                window_height: match height {
                    Some(h) if h >= MIN_WINDOW_HEIGHT => Some((h - h % CHAR_CELL_HEIGHT) as usize),
                    _ => self.window_height,
                },
                ..self
            }),
    {
        let mut opts = self;
        if let Some(height) = height {
            if height >= MIN_WINDOW_HEIGHT {
                opts.window_height = Some(height - height % CHAR_CELL_HEIGHT);
            }
        }
        opts
    }

    /// Sets the scale of a pixel.
    pub fn scale(self, scale: Option<usize>) -> (opts: InitOptions)
        ensures
            opts == (InitOptions { scale, ..self }),
    {
        let mut opts = self;
        opts.scale = scale;
        opts
    }

    /// Sets the rows of maze cells.
    pub fn maze_height(self, maze_height: Option<Size>) -> (opts: InitOptions)
        ensures
            opts == (InitOptions { maze_height, ..self }),
    {
        let mut opts = self;
        opts.maze_height = maze_height;
        opts
    }

    /// Sets the columns of maze cells.
    pub fn maze_width(self, maze_width: Option<Size>) -> (opts: InitOptions)
        ensures
            opts == (InitOptions { maze_width, ..self }),
    {
        let mut opts = self;
        opts.maze_width = maze_width;
        opts
    }

    /// Sets the density of the maze.
    pub fn density(self, density: Option<usize>) -> (opts: InitOptions)
        ensures
            opts == (InitOptions { density, ..self }),
    {
        let mut opts = self;
        opts.density = density;
        opts
    }

    /// Sets the number of factories.
    pub fn factories(self, factories: Option<usize>) -> (opts: InitOptions)
        ensures
            opts == (InitOptions { factories, ..self }),
    {
        let mut opts = self;
        opts.factories = factories;
        opts
    }

    /// Turns the sound off or on.
    pub fn quiet(self, quiet: bool) -> (opts: InitOptions)
        ensures
            opts == (InitOptions { quiet, ..self }),
    {
        let mut opts = self;
        opts.quiet = quiet;
        opts
    }
}

impl Default for InitOptions {
    fn default() -> (opts: InitOptions)
        ensures
            opts == InitOptions::blank(),
    {
        InitOptions::new()
    }
}

/// The largest scale of a pixel.
pub const MAX_SCALE: usize = 4;

/// The most columns of characters that a screen shows before the pixels
/// are scaled up.
pub const WIDE_SCREEN_COLS: usize = 80;

/// The scale of a pixel for a window that is `width` pixels wide: the
/// scale that was chosen, held between 1 and 4; or where none was chosen,
/// the smallest scale at which the window shows no more than eighty
/// columns, and 4 if there is none.
pub open spec fn scale_for(chosen: Option<usize>, width: usize) -> int {
    match chosen {
        Some(scale) => if scale < 1 {
            1
        } else if scale > MAX_SCALE {
            MAX_SCALE as int
        } else {
            scale as int
        },
        None => if width / 1 / CHAR_CELL_WIDTH <= WIDE_SCREEN_COLS {
            1
        } else if width / 2 / CHAR_CELL_WIDTH <= WIDE_SCREEN_COLS {
            2
        } else if width / 3 / CHAR_CELL_WIDTH <= WIDE_SCREEN_COLS {
            3
        } else {
            4
        },
    }
}

/// How many characters fit into `pixels` pixels, `cell` of them to a
/// character at scale 1: no more than a coordinate can count.
pub open spec fn cells_in(pixels: usize, cell: usize, scale: usize) -> int {
    let cells = pixels / cell / scale;
    if cells > Size::MAX {
        Size::MAX as int
    } else {
        cells as int
    }
}

/// The scale of a pixel for a window that is `width` pixels wide.
pub fn choose_scale(chosen: Option<usize>, width: usize) -> (scale: usize)
    ensures
        scale == scale_for(chosen, width),
        1 <= scale <= MAX_SCALE,
{
    assert(CHAR_CELL_WIDTH == 8 && WIDE_SCREEN_COLS == 80 && MAX_SCALE == 4);
    match chosen {
        Some(scale) => {
            if scale < 1 {
                1
            } else if scale > MAX_SCALE {
                MAX_SCALE
            } else {
                scale
            }
        },
        None => {
            let mut scale: usize = 1;
            while scale < MAX_SCALE
                invariant
                    chosen is None,
                    CHAR_CELL_WIDTH == 8 && WIDE_SCREEN_COLS == 80 && MAX_SCALE == 4,
                    1 <= scale <= MAX_SCALE,
                    scale > 1 ==> width / 1 / CHAR_CELL_WIDTH > WIDE_SCREEN_COLS,
                    scale > 2 ==> width / 2 / CHAR_CELL_WIDTH > WIDE_SCREEN_COLS,
                    scale > 3 ==> width / 3 / CHAR_CELL_WIDTH > WIDE_SCREEN_COLS,
                decreases MAX_SCALE - scale,
            {
                if width / scale / CHAR_CELL_WIDTH <= WIDE_SCREEN_COLS {
                    return scale;
                }
                scale += 1;
            }
            scale
        },
    }
}

/// The rows of characters that a window of `height` pixels shows at
/// `scale`.
pub fn screen_rows(height: usize, scale: usize) -> (rows: Size)
    requires
        scale >= 1,
    ensures
        rows == cells_in(height, CHAR_CELL_HEIGHT, scale),
{
    assert(CHAR_CELL_HEIGHT == 12);
    let rows: usize = height / CHAR_CELL_HEIGHT / scale;
    if rows > Size::MAX as usize {
        Size::MAX
    } else {
        rows as Size
    }
}

/// The columns of characters that a window of `width` pixels shows at
/// `scale`.
pub fn screen_cols(width: usize, scale: usize) -> (cols: Size)
    requires
        scale >= 1,
    ensures
        cols == cells_in(width, CHAR_CELL_WIDTH, scale),
{
    assert(CHAR_CELL_WIDTH == 8);
    let cols: usize = width / CHAR_CELL_WIDTH / scale;
    if cols > Size::MAX as usize {
        Size::MAX
    } else {
        cols as Size
    }
}

} // verus!
