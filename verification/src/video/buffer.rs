//! A grid of character cells, each a glyph code and an attribute.

use vstd::prelude::*;
use vstd::string::StrSliceExecFns;
use crate::video::Size;
use crate::video::charmaps::SPACE;
use crate::video::wrapping::{lemma_wrap_inc_by_step, wrap_inc, wrap_inc_by, SizeWrapping};

verus! {

/// No attribute: the glyph as it is.
pub const ATTR_NONE: u8 = 0x00;

/// The glyph with ink and paper exchanged.
pub const ATTR_REVERSE: u8 = 0x01;

/// The glyph at half brightness.
pub const ATTR_DIM: u8 = 0x02;

/// The bits of an attribute that mean anything.
pub const ATTR_MASK: u8 = 0x03;

/// How many attributes there are.
pub const ATTR_COMBOS: usize = 4;

/// A grid of `rows` by `cols` cells, stored row after row.
#[derive(Clone, Debug)]
pub struct Buffer {
    pub rows: Size,
    pub cols: Size,
    pub characters: Vec<u8>,
    pub attributes: Vec<u8>,
}

/// Where the cell at (`row`, `col`) lies in a grid of `cols` columns
/// stored row after row.
pub open spec fn cell_index(cols: int, row: int, col: int) -> int {
    row * cols + col
}

/// The cells of a grid have their places within its storage, one each.
pub proof fn lemma_cell_index(rows: int, cols: int, row: int, col: int)
    requires
        0 <= row < rows,
        0 <= col < cols,
    ensures
        0 <= cell_index(cols, row, col) < rows * cols,
        cell_index(cols, row, col) / cols == row,
        cell_index(cols, row, col) % cols == col,
{
    assert(0 <= row * cols + col < rows * cols) by (nonlinear_arith)
        requires
            0 <= row < rows,
            0 <= col < cols,
    ;
    vstd::arithmetic::div_mod::lemma_fundamental_div_mod_converse(
        cell_index(cols, row, col),
        cols,
        row,
        col,
    );
}

/// Two cells of a grid that share a place are one cell.
pub proof fn lemma_cell_index_injective(cols: int, row1: int, col1: int, row2: int, col2: int)
    requires
        0 <= col1 < cols,
        0 <= col2 < cols,
        cell_index(cols, row1, col1) == cell_index(cols, row2, col2),
    ensures
        row1 == row2,
        col1 == col2,
{
    assert(row1 == row2) by (nonlinear_arith)
        requires
            0 <= col1 < cols,
            0 <= col2 < cols,
            row1 * cols + col1 == row2 * cols + col2,
    ;
}

impl Buffer {
    /// Both planes hold one byte for each cell.
    pub open spec fn wf(&self) -> bool {
        &&& self.characters@.len() == self.rows * self.cols
        &&& self.attributes@.len() == self.rows * self.cols
    }

    /// Whether (`row`, `col`) is a cell of the grid.
    pub open spec fn holds(&self, row: int, col: int) -> bool {
        0 <= row < self.rows && 0 <= col < self.cols
    }

    /// The glyph at (`row`, `col`); 0 outside the grid.
    pub open spec fn char_at(&self, row: int, col: int) -> u8 {
        if self.holds(row, col) {
            self.characters@[cell_index(self.cols as int, row, col)]
        } else {
            0
        }
    }

    /// The attribute at (`row`, `col`); 0 outside the grid.
    pub open spec fn attr_at(&self, row: int, col: int) -> u8 {
        if self.holds(row, col) {
            self.attributes@[cell_index(self.cols as int, row, col)]
        } else {
            0
        }
    }

    /// Whether the two grids have one size.
    pub open spec fn same_size(&self, other: &Buffer) -> bool {
        self.rows == other.rows && self.cols == other.cols
    }

    /// Whether every cell is a space without attribute.
    pub open spec fn blank(&self) -> bool {
        &&& forall|row: int, col: int|
            self.holds(row, col) ==> #[trigger] self.char_at(row, col) == SPACE
        &&& forall|row: int, col: int|
            self.holds(row, col) ==> #[trigger] self.attr_at(row, col) == ATTR_NONE
    }

    /// The place of a cell in the two planes.
    fn offset(&self, row: Size, col: Size) -> (i: usize)
        requires
            self.wf(),
            self.holds(row as int, col as int),
        ensures
            i == cell_index(self.cols as int, row as int, col as int),
            i < self.characters@.len(),
            i < self.attributes@.len(),
    {
        proof {
            lemma_cell_index(self.rows as int, self.cols as int, row as int, col as int);
            assert(self.rows * self.cols <= 0xffff * 0xffff) by (nonlinear_arith)
                requires
                    self.rows <= 0xffff,
                    self.cols <= 0xffff,
            ;
            assert(row * self.cols <= 0xffff * 0xffff) by (nonlinear_arith)
                requires
                    row <= 0xffff,
                    self.cols <= 0xffff,
            ;
        }
        row as usize * self.cols as usize + col as usize
    }

    /// A grid of spaces without attributes.
    pub fn new(rows: Size, cols: Size) -> (buffer: Buffer)
        ensures
            buffer.wf(),
            buffer.rows == rows,
            buffer.cols == cols,
            buffer.blank(),
    {
        assert(rows * cols <= 0xffff * 0xffff) by (nonlinear_arith)
            requires
                rows <= 0xffff,
                cols <= 0xffff,
        ;
        let cells: usize = rows as usize * cols as usize;
        let mut buffer = Buffer {
            rows,
            cols,
            characters: vec![0u8; cells],
            attributes: vec![0u8; cells],
        };
        buffer.clear();
        buffer
    }

    /// Turns every cell into a space without attribute.
    pub fn clear(&mut self)
        requires
            old(self).wf(),
        ensures
            final(self).wf(),
            final(self).same_size(old(self)),
            final(self).blank(),
    {
        let cells: usize = self.characters.len();
        let mut i: usize = 0;
        while i < cells
            invariant
                i <= cells,
                cells == self.characters@.len(),
                cells == self.attributes@.len(),
                self.rows == old(self).rows,
                self.cols == old(self).cols,
                forall|k: int| 0 <= k < i ==> self.characters@[k] == SPACE,
                forall|k: int| 0 <= k < i ==> self.attributes@[k] == ATTR_NONE,
            decreases cells - i,
        {
            self.characters[i] = SPACE;
            self.attributes[i] = ATTR_NONE;
            i += 1;
        }
        proof {
            assert forall|row: int, col: int| self.holds(row, col) implies #[trigger] self.char_at(
                row,
                col,
            ) == SPACE by {
                lemma_cell_index(self.rows as int, self.cols as int, row, col);
            }
            assert forall|row: int, col: int| self.holds(row, col) implies #[trigger] self.attr_at(
                row,
                col,
            ) == ATTR_NONE by {
                lemma_cell_index(self.rows as int, self.cols as int, row, col);
            }
        }
    }

    /// Writes a glyph; outside the grid nothing happens.
    pub fn set_char(&mut self, row: Size, col: Size, ch: u8)
        requires
            old(self).wf(),
        ensures
            final(self).wf(),
            final(self).same_size(old(self)),
            final(self).attributes == old(self).attributes,
            !old(self).holds(row as int, col as int) ==> *final(self) == *old(self),
            old(self).holds(row as int, col as int) ==> final(self).characters@ == old(
                self,
            ).characters@.update(cell_index(old(self).cols as int, row as int, col as int), ch),
            forall|r: int, c: int|
                old(self).holds(r, c) ==> #[trigger] final(self).char_at(r, c) == (if r == row && c
                    == col {
                    ch
                } else {
                    old(self).char_at(r, c)
                }),
    {
        if row < self.rows && col < self.cols {
            let i: usize = self.offset(row, col);
            self.characters[i] = ch;
            proof {
                assert forall|r: int, c: int| old(self).holds(r, c) implies #[trigger] self.char_at(
                    r,
                    c,
                ) == (if r == row && c == col {
                    ch
                } else {
                    old(self).char_at(r, c)
                }) by {
                    lemma_cell_index(self.rows as int, self.cols as int, r, c);
                    if cell_index(self.cols as int, r, c) == i {
                        lemma_cell_index_injective(self.cols as int, r, c, row as int, col as int);
                    }
                }
            }
        }
    }

    /// The glyph at (`row`, `col`); 0 outside the grid.
    pub fn get_char(&self, row: Size, col: Size) -> (ch: u8)
        requires
            self.wf(),
        ensures
            ch == self.char_at(row as int, col as int),
    {
        if row < self.rows && col < self.cols {
            let i: usize = self.offset(row, col);
            self.characters[i]
        } else {
            0
        }
    }

    /// Writes the meaningful bits of an attribute; outside the grid
    /// nothing happens.
    pub fn set_attr(&mut self, row: Size, col: Size, attr: u8)
        requires
            old(self).wf(),
        ensures
            final(self).wf(),
            final(self).same_size(old(self)),
            final(self).characters == old(self).characters,
            !old(self).holds(row as int, col as int) ==> *final(self) == *old(self),
            old(self).holds(row as int, col as int) ==> final(self).attributes@ == old(
                self,
            ).attributes@.update(
                cell_index(old(self).cols as int, row as int, col as int),
                attr & ATTR_MASK,
            ),
            forall|r: int, c: int|
                old(self).holds(r, c) ==> #[trigger] final(self).attr_at(r, c) == (if r == row && c
                    == col {
                    attr & ATTR_MASK
                } else {
                    old(self).attr_at(r, c)
                }),
    {
        if row < self.rows && col < self.cols {
            let i: usize = self.offset(row, col);
            self.attributes[i] = attr & ATTR_MASK;
            proof {
                assert forall|r: int, c: int| old(self).holds(r, c) implies #[trigger] self.attr_at(
                    r,
                    c,
                ) == (if r == row && c == col {
                    attr & ATTR_MASK
                } else {
                    old(self).attr_at(r, c)
                }) by {
                    lemma_cell_index(self.rows as int, self.cols as int, r, c);
                    if cell_index(self.cols as int, r, c) == i {
                        lemma_cell_index_injective(self.cols as int, r, c, row as int, col as int);
                    }
                }
            }
        }
    }

    /// The attribute at (`row`, `col`); 0 outside the grid.
    pub fn get_attr(&self, row: Size, col: Size) -> (attr: u8)
        requires
            self.wf(),
        ensures
            attr == self.attr_at(row as int, col as int),
    {
        if row < self.rows && col < self.cols {
            let i: usize = self.offset(row, col);
            self.attributes[i]
        } else {
            0
        }
    }

    /// Writes a glyph and its attribute as given; outside the grid nothing
    /// happens.
    pub fn set_chattr(&mut self, row: Size, col: Size, ch: u8, attr: u8)
        requires
            old(self).wf(),
        ensures
            final(self).wf(),
            final(self).same_size(old(self)),
            !old(self).holds(row as int, col as int) ==> *final(self) == *old(self),
            final(self).wrote(old(self), row as int, col as int, ch, attr),
    {
        if row < self.rows && col < self.cols {
            self.set_ca(row, col, ch, attr);
        }
    }

    /// Whether this grid is `before` with one cell written: every cell as
    /// before, but (`row`, `col`), if it is a cell, holds `ch` and `attr`.
    pub open spec fn wrote(&self, before: &Buffer, row: int, col: int, ch: u8, attr: u8) -> bool {
        &&& forall|r: int, c: int|
            before.holds(r, c) ==> #[trigger] self.char_at(r, c) == (if r == row && c == col {
                ch
            } else {
                before.char_at(r, c)
            })
        &&& forall|r: int, c: int|
            before.holds(r, c) ==> #[trigger] self.attr_at(r, c) == (if r == row && c == col {
                attr
            } else {
                before.attr_at(r, c)
            })
    }

    /// Writes one cell of the grid.
    fn set_ca(&mut self, row: Size, col: Size, ch: u8, attr: u8)
        requires
            old(self).wf(),
            old(self).holds(row as int, col as int),
        ensures
            final(self).wf(),
            final(self).same_size(old(self)),
            final(self).wrote(old(self), row as int, col as int, ch, attr),
    {
        let i: usize = self.offset(row, col);
        self.characters[i] = ch;
        self.attributes[i] = attr;
        proof {
            assert forall|r: int, c: int| old(self).holds(r, c) implies #[trigger] self.char_at(
                r,
                c,
            ) == (if r == row && c == col {
                ch
            } else {
                old(self).char_at(r, c)
            }) by {
                lemma_cell_index(self.rows as int, self.cols as int, r, c);
                if cell_index(self.cols as int, r, c) == i {
                    lemma_cell_index_injective(self.cols as int, r, c, row as int, col as int);
                }
            }
            assert forall|r: int, c: int| old(self).holds(r, c) implies #[trigger] self.attr_at(
                r,
                c,
            ) == (if r == row && c == col {
                attr
            } else {
                old(self).attr_at(r, c)
            }) by {
                lemma_cell_index(self.rows as int, self.cols as int, r, c);
                if cell_index(self.cols as int, r, c) == i {
                    lemma_cell_index_injective(self.cols as int, r, c, row as int, col as int);
                }
            }
        }
    }

    /// What a cell holds after a large glyph was written at (`row1`,
    /// `col1`): the code `ch` there, `ch + 1` to its right, `ch + 2`
    /// below it and `ch + 3` across, each wrapping round the edge of the
    /// grid; where two of the four coincide, the later one; elsewhere what
    /// `before` held.
    pub open spec fn quad_char(before: &Buffer, row1: int, col1: int, ch: u8, r: int, c: int) -> u8 {
        let row2 = wrap_inc(row1, before.rows as int);
        let col2 = wrap_inc(col1, before.cols as int);
        if r == row2 && c == col2 {
            (ch + 3) as u8
        } else if r == row2 && c == col1 {
            (ch + 2) as u8
        } else if r == row1 && c == col2 {
            (ch + 1) as u8
        } else if r == row1 && c == col1 {
            ch
        } else {
            before.char_at(r, c)
        }
    }

    /// What the attribute of a cell is after a large glyph was written at
    /// (`row1`, `col1`) with `attr`.
    pub open spec fn quad_attr(before: &Buffer, row1: int, col1: int, attr: u8, r: int, c: int) -> u8 {
        let row2 = wrap_inc(row1, before.rows as int);
        let col2 = wrap_inc(col1, before.cols as int);
        if (r == row1 || r == row2) && (c == col1 || c == col2) {
            attr
        } else {
            before.attr_at(r, c)
        }
    }

    /// Whether this grid is `before` with a large glyph written at
    /// (`row1`, `col1`); with the corner outside the grid, whether it is
    /// as `before`.
    pub open spec fn wrote_quad(&self, before: &Buffer, row1: int, col1: int, ch: u8, attr: u8) -> bool {
        &&& forall|r: int, c: int|
            before.holds(r, c) ==> #[trigger] self.char_at(r, c) == (if before.holds(row1, col1) {
                Self::quad_char(before, row1, col1, ch, r, c)
            } else {
                before.char_at(r, c)
            })
        &&& forall|r: int, c: int|
            before.holds(r, c) ==> #[trigger] self.attr_at(r, c) == (if before.holds(row1, col1) {
                Self::quad_attr(before, row1, col1, attr, r, c)
            } else {
                before.attr_at(r, c)
            })
    }

    /// Writes a large glyph: four cells in a square whose top left corner
    /// is (`row1`, `col1`), wrapping round the edges. With the corner
    /// outside the grid nothing happens.
    pub fn set_quad(&mut self, row1: Size, col1: Size, ch: u8, attr: u8)
        requires
            old(self).wf(),
            ch <= 252,
        ensures
            final(self).wf(),
            final(self).same_size(old(self)),
            !old(self).holds(row1 as int, col1 as int) ==> *final(self) == *old(self),
            final(self).wrote_quad(old(self), row1 as int, col1 as int, ch, attr),
    {
        if row1 < self.rows && col1 < self.cols {
            let row2: Size = row1.inc(self.rows);
            let col2: Size = col1.inc(self.cols);
            self.set_ca(row1, col1, ch, attr);
            let ghost first = *self;
            self.set_ca(row1, col2, ch + 1, attr);
            let ghost second = *self;
            self.set_ca(row2, col1, ch + 2, attr);
            let ghost third = *self;
            self.set_ca(row2, col2, ch + 3, attr);
            proof {
                assert forall|r: int, c: int| old(self).holds(r, c) implies #[trigger] self.char_at(
                    r,
                    c,
                ) == Self::quad_char(old(self), row1 as int, col1 as int, ch, r, c) by {
                    let _ = first.char_at(r, c);
                    let _ = second.char_at(r, c);
                    let _ = third.char_at(r, c);
                }
                assert forall|r: int, c: int| old(self).holds(r, c) implies #[trigger] self.attr_at(
                    r,
                    c,
                ) == Self::quad_attr(old(self), row1 as int, col1 as int, attr, r, c) by {
                    let _ = first.attr_at(r, c);
                    let _ = second.attr_at(r, c);
                    let _ = third.attr_at(r, c);
                }
            }
        }
    }

    /// The glyph and the attribute at (`row`, `col`); zeros outside the
    /// grid.
    pub fn get_chattr(&self, row: Size, col: Size) -> (cell: (u8, u8))
        requires
            self.wf(),
        ensures
            cell.0 == self.char_at(row as int, col as int),
            cell.1 == self.attr_at(row as int, col as int),
    {
        if row < self.rows && col < self.cols {
            let i: usize = self.offset(row, col);
            (self.characters[i], self.attributes[i])
        } else {
            (0, 0)
        }
    }

    /// Exchanges the contents of two grids of one size.
    pub fn swap(&mut self, other: &mut Buffer)
        requires
            old(self).wf(),
            old(other).wf(),
            old(self).same_size(old(other)),
        ensures
            final(self).wf(),
            final(other).wf(),
            final(self).same_size(old(self)),
            final(other).same_size(old(other)),
            final(self).characters == old(other).characters,
            final(self).attributes == old(other).attributes,
            final(other).characters == old(self).characters,
            final(other).attributes == old(self).attributes,
    {
        core::mem::swap(&mut self.characters, &mut other.characters);
        core::mem::swap(&mut self.attributes, &mut other.attributes);
    }

    /// The glyph code that stands for a character of a text: its lowest
    /// eight bits.
    pub open spec fn glyph_of(c: char) -> u8 {
        (c as u32 & 0xff) as u8
    }

    /// Writes a text into one row, left to right from (`row`, `col`), with
    /// the meaningful bits of `attr`; what falls outside the grid is
    /// dropped.
    pub fn print(&mut self, row: Size, col: Size, attr: u8, s: &str)
        requires
            old(self).wf(),
        ensures
            final(self).wf(),
            final(self).same_size(old(self)),
            forall|r: int, c: int|
                old(self).holds(r, c) ==> #[trigger] final(self).char_at(r, c) == (if r == row
                    && col <= c < col + s@.len() {
                    Self::glyph_of(s@[c - col])
                } else {
                    old(self).char_at(r, c)
                }),
            forall|r: int, c: int|
                old(self).holds(r, c) ==> #[trigger] final(self).attr_at(r, c) == (if r == row
                    && col <= c < col + s@.len() {
                    attr & ATTR_MASK
                } else {
                    old(self).attr_at(r, c)
                }),
    {
        let len: usize = s.unicode_len();
        let room: usize = if col < self.cols {
            (self.cols - col) as usize
        } else {
            0
        };
        let mut i: usize = 0;
        while i < len && i < room
            invariant
                room == (if col < self.cols {
                    self.cols - col
                } else {
                    0
                }),
                self.wf(),
                self.same_size(old(self)),
                len == s@.len(),
                i <= len,
                forall|r: int, c: int|
                    old(self).holds(r, c) ==> #[trigger] self.char_at(r, c) == (if r == row && col
                        <= c < col + i {
                        Self::glyph_of(s@[c - col])
                    } else {
                        old(self).char_at(r, c)
                    }),
                forall|r: int, c: int|
                    old(self).holds(r, c) ==> #[trigger] self.attr_at(r, c) == (if r == row && col
                        <= c < col + i {
                        attr & ATTR_MASK
                    } else {
                        old(self).attr_at(r, c)
                    }),
            decreases len - i,
        {
            let ch: char = s.get_char(i);
            let point: u32 = ch as u32;
            let code: u32 = point & 0xff;
            assert(code < 256) by (bit_vector)
                requires
                    code == point & 0xff,
            ;
            let at: Size = (col as usize + i) as Size;
            let ghost before = *self;
            self.set_char(row, at, code as u8);
            let ghost between = *self;
            self.set_attr(row, at, attr);
            proof {
                assert forall|r: int, c: int| old(self).holds(r, c) implies #[trigger] self.char_at(
                    r,
                    c,
                ) == (if r == row && col <= c < col + i + 1 {
                    Self::glyph_of(s@[c - col])
                } else {
                    old(self).char_at(r, c)
                }) by {
                    let _ = before.char_at(r, c);
                    let _ = between.char_at(r, c);
                }
                assert forall|r: int, c: int| old(self).holds(r, c) implies #[trigger] self.attr_at(
                    r,
                    c,
                ) == (if r == row && col <= c < col + i + 1 {
                    attr & ATTR_MASK
                } else {
                    old(self).attr_at(r, c)
                }) by {
                    let _ = before.attr_at(r, c);
                }
            }
            i += 1;
        }
    }

    /// Copies a window of this grid into the rows of `dst` from `dst_row`
    /// down. The window starts at (`src_row`, `src_col`) and wraps round
    /// the edges of this grid; a start outside this grid reads as zeros
    /// until it has wrapped.
    pub fn copy_buffer(&self, src_row: Size, src_col: Size, dst: &mut Buffer, dst_row: Size)
        requires
            self.wf(),
            self.rows > 0,
            self.cols > 0,
            old(dst).wf(),
        ensures
            final(dst).wf(),
            final(dst).same_size(old(dst)),
            forall|r: int, c: int|
                old(dst).holds(r, c) ==> #[trigger] final(dst).char_at(r, c) == (if r >= dst_row {
                    self.char_at(
                        wrap_inc_by(src_row as int, self.rows as int, (r - dst_row) as nat),
                        wrap_inc_by(src_col as int, self.cols as int, c as nat),
                    )
                } else {
                    old(dst).char_at(r, c)
                }),
            forall|r: int, c: int|
                old(dst).holds(r, c) ==> #[trigger] final(dst).attr_at(r, c) == (if r >= dst_row {
                    self.attr_at(
                        wrap_inc_by(src_row as int, self.rows as int, (r - dst_row) as nat),
                        wrap_inc_by(src_col as int, self.cols as int, c as nat),
                    ) & ATTR_MASK
                } else {
                    old(dst).attr_at(r, c)
                }),
    {
        let mut from_row: Size = src_row;
        let mut to_row: Size = dst_row;
        while to_row < dst.rows
            invariant
                self.wf(),
                self.rows > 0,
                self.cols > 0,
                dst.wf(),
                dst.same_size(old(dst)),
                dst_row <= to_row,
                to_row <= dst.rows || to_row == dst_row,
                from_row == wrap_inc_by(
                    src_row as int,
                    self.rows as int,
                    (to_row - dst_row) as nat,
                ),
                forall|r: int, c: int|
                    old(dst).holds(r, c) ==> #[trigger] dst.char_at(r, c) == (if dst_row <= r
                        < to_row {
                        self.char_at(
                            wrap_inc_by(src_row as int, self.rows as int, (r - dst_row) as nat),
                            wrap_inc_by(src_col as int, self.cols as int, c as nat),
                        )
                    } else {
                        old(dst).char_at(r, c)
                    }),
                forall|r: int, c: int|
                    old(dst).holds(r, c) ==> #[trigger] dst.attr_at(r, c) == (if dst_row <= r
                        < to_row {
                        self.attr_at(
                            wrap_inc_by(src_row as int, self.rows as int, (r - dst_row) as nat),
                            wrap_inc_by(src_col as int, self.cols as int, c as nat),
                        ) & ATTR_MASK
                    } else {
                        old(dst).attr_at(r, c)
                    }),
            decreases dst.rows - to_row,
        {
            let mut from_col: Size = src_col;
            let mut to_col: Size = 0;
            while to_col < dst.cols
                invariant
                    self.wf(),
                    self.rows > 0,
                    self.cols > 0,
                    dst.wf(),
                    dst.same_size(old(dst)),
                    dst_row <= to_row < dst.rows,
                    to_col <= dst.cols,
                    from_row == wrap_inc_by(
                        src_row as int,
                        self.rows as int,
                        (to_row - dst_row) as nat,
                    ),
                    from_col == wrap_inc_by(src_col as int, self.cols as int, to_col as nat),
                    forall|r: int, c: int|
                        old(dst).holds(r, c) ==> #[trigger] dst.char_at(r, c) == (if dst_row <= r
                            < to_row || (r == to_row && c < to_col) {
                            self.char_at(
                                wrap_inc_by(src_row as int, self.rows as int, (r - dst_row) as nat),
                                wrap_inc_by(src_col as int, self.cols as int, c as nat),
                            )
                        } else {
                            old(dst).char_at(r, c)
                        }),
                    forall|r: int, c: int|
                        old(dst).holds(r, c) ==> #[trigger] dst.attr_at(r, c) == (if dst_row <= r
                            < to_row || (r == to_row && c < to_col) {
                            self.attr_at(
                                wrap_inc_by(src_row as int, self.rows as int, (r - dst_row) as nat),
                                wrap_inc_by(src_col as int, self.cols as int, c as nat),
                            ) & ATTR_MASK
                        } else {
                            old(dst).attr_at(r, c)
                        }),
                decreases dst.cols - to_col,
            {
                let ghost before = *dst;
                dst.set_char(to_row, to_col, self.get_char(from_row, from_col));
                let ghost between = *dst;
                dst.set_attr(to_row, to_col, self.get_attr(from_row, from_col));
                proof {
                    lemma_wrap_inc_by_step(src_col as int, self.cols as int, to_col as nat);
                    assert forall|r: int, c: int| old(dst).holds(r, c) implies #[trigger] dst.char_at(
                        r,
                        c,
                    ) == (if dst_row <= r < to_row || (r == to_row && c < to_col + 1) {
                        self.char_at(
                            wrap_inc_by(src_row as int, self.rows as int, (r - dst_row) as nat),
                            wrap_inc_by(src_col as int, self.cols as int, c as nat),
                        )
                    } else {
                        old(dst).char_at(r, c)
                    }) by {
                        let _ = before.char_at(r, c);
                        let _ = between.char_at(r, c);
                    }
                    assert forall|r: int, c: int| old(dst).holds(r, c) implies #[trigger] dst.attr_at(
                        r,
                        c,
                    ) == (if dst_row <= r < to_row || (r == to_row && c < to_col + 1) {
                        self.attr_at(
                            wrap_inc_by(src_row as int, self.rows as int, (r - dst_row) as nat),
                            wrap_inc_by(src_col as int, self.cols as int, c as nat),
                        ) & ATTR_MASK
                    } else {
                        old(dst).attr_at(r, c)
                    }) by {
                        let _ = before.attr_at(r, c);
                    }
                }
                from_col = from_col.inc(self.cols);
                to_col += 1;
            }
            proof {
                lemma_wrap_inc_by_step(src_row as int, self.rows as int, (to_row - dst_row) as nat);
            }
            from_row = from_row.inc(self.rows);
            to_row += 1;
        }
    }

    /// Copies every cell into a grid of the same size.
    pub fn copy_to(&self, dst: &mut Buffer)
        requires
            self.wf(),
            old(dst).wf(),
            self.same_size(old(dst)),
        ensures
            final(dst).wf(),
            final(dst).same_size(self),
            final(dst).characters@ == self.characters@,
            final(dst).attributes@ == self.attributes@,
    {
        let cells: usize = self.characters.len();
        let mut i: usize = 0;
        while i < cells
            invariant
                i <= cells,
                cells == self.characters@.len(),
                cells == self.attributes@.len(),
                cells == dst.characters@.len(),
                cells == dst.attributes@.len(),
                dst.rows == old(dst).rows,
                dst.cols == old(dst).cols,
                forall|k: int| 0 <= k < i ==> dst.characters@[k] == self.characters@[k],
                forall|k: int| 0 <= k < i ==> dst.attributes@[k] == self.attributes@[k],
            decreases cells - i,
        {
            dst.characters[i] = self.characters[i];
            dst.attributes[i] = self.attributes[i];
            i += 1;
        }
        assert(dst.characters@ =~= self.characters@);
        assert(dst.attributes@ =~= self.attributes@);
    }
}

} // verus!
