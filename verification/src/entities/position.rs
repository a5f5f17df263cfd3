//! Positions on a torus: stepping, distance and the way to a target.

use vstd::prelude::*;
use crate::entities::dir::{includes, opposite, lemma_opposite, Direction, UP, DOWN, LEFT, RIGHT};
use crate::video::{Pos, Size};
use crate::video::wrapping::{
    wrap_inc, wrap_dec, wrap_inc_by, wrap_dec_by, lemma_wrap_inc_mod, lemma_wrap_dec_mod,
    lemma_wrap_inverse,
};

verus! {

/// The size of a character grid whose edges wrap.
#[derive(Debug, Clone, Copy)]
pub struct Dimensions {
    pub rows: Size,
    pub cols: Size,
}

/// A cell of a character grid.
#[derive(Debug, Clone, Copy, PartialEq, Eq, Structural)]
pub struct Position {
    pub row: Pos,
    pub col: Pos,
}

impl Dimensions {
    /// A grid has at least one row and one column.
    pub open spec fn wf(self) -> bool {
        self.rows > 0 && self.cols > 0
    }
}

/// The shorter way between two cells of an axis of `n` cells: direct, or
/// round the edge.
pub open spec fn axis_distance(a: int, b: int, n: int) -> int {
    let direct = if a >= b {
        a - b
    } else {
        b - a
    };
    if direct <= n - direct {
        direct
    } else {
        n - direct
    }
}

/// The square of the distance between two cells of a torus.
pub open spec fn torus_distance_squared(from: Position, to: Position, dims: Dimensions) -> int {
    let dx = axis_distance(from.col as int, to.col as int, dims.cols as int);
    let dy = axis_distance(from.row as int, to.row as int, dims.rows as int);
    dx * dx + dy * dy
}

impl Position {
    /// Whether the cell lies on a grid of this size.
    pub open spec fn within(self, dims: Dimensions) -> bool {
        self.row < dims.rows && self.col < dims.cols
    }

    /// The cell `steps` columns to the left.
    pub open spec fn moved_left(self, steps: nat, dims: Dimensions) -> Position {
        Position { row: self.row, col: wrap_dec_by(self.col as int, dims.cols as int, steps) as Pos }
    }

    /// The cell `steps` columns to the right.
    pub open spec fn moved_right(self, steps: nat, dims: Dimensions) -> Position {
        Position { row: self.row, col: wrap_inc_by(self.col as int, dims.cols as int, steps) as Pos }
    }

    /// The cell `steps` rows up.
    pub open spec fn moved_up(self, steps: nat, dims: Dimensions) -> Position {
        Position { row: wrap_dec_by(self.row as int, dims.rows as int, steps) as Pos, col: self.col }
    }

    /// The cell `steps` rows down.
    pub open spec fn moved_down(self, steps: nat, dims: Dimensions) -> Position {
        Position { row: wrap_inc_by(self.row as int, dims.rows as int, steps) as Pos, col: self.col }
    }

    /// The neighbour to the left.
    pub open spec fn left_of(self, dims: Dimensions) -> Position {
        Position { row: self.row, col: wrap_dec(self.col as int, dims.cols as int) as Pos }
    }

    /// The neighbour to the right.
    pub open spec fn right_of(self, dims: Dimensions) -> Position {
        Position { row: self.row, col: wrap_inc(self.col as int, dims.cols as int) as Pos }
    }

    /// The neighbour above.
    pub open spec fn above(self, dims: Dimensions) -> Position {
        Position { row: wrap_dec(self.row as int, dims.rows as int) as Pos, col: self.col }
    }

    /// The neighbour below.
    pub open spec fn below(self, dims: Dimensions) -> Position {
        Position { row: wrap_inc(self.row as int, dims.rows as int) as Pos, col: self.col }
    }

    /// The cell one step away in every direction that `dir` holds, taken
    /// in the order up, down, left, right.
    pub open spec fn advanced(self, dir: Direction, dims: Dimensions) -> Position {
        let a = if includes(dir, UP) {
            self.above(dims)
        } else {
            self
        };
        let b = if includes(dir, DOWN) {
            a.below(dims)
        } else {
            a
        };
        let c = if includes(dir, LEFT) {
            b.left_of(dims)
        } else {
            b
        };
        if includes(dir, RIGHT) {
            c.right_of(dims)
        } else {
            c
        }
    }

    /// The square of the distance to `pos` on the torus.
    pub open spec fn distance_squared(self, pos: Position, dims: Dimensions) -> int {
        torus_distance_squared(self, pos, dims)
    }

    /// The step that brings this cell nearest to `pos`: the neighbour in
    /// that direction is no farther from `pos` than any other neighbour,
    /// and among equals up goes before down, down before left, left
    /// before right.
    pub open spec fn direction_towards(self, pos: Position, dims: Dimensions) -> Direction {
        let up = self.above(dims).distance_squared(pos, dims);
        let down = self.below(dims).distance_squared(pos, dims);
        let left = self.left_of(dims).distance_squared(pos, dims);
        let right = self.right_of(dims).distance_squared(pos, dims);
        if up <= down && up <= left && up <= right {
            UP
        } else if down <= left && down <= right {
            DOWN
        } else if left <= right {
            LEFT
        } else {
            RIGHT
        }
    }

    /// The neighbour to the left, wrapping to the last column.
    pub fn left(&self, dims: Dimensions) -> (out: Position)
        requires
            dims.wf(),
        ensures
            out == self.left_of(dims),
            self.within(dims) ==> out.within(dims) && out.col == (self.col - 1) % (dims.cols as int),
    {
        proof {
            if self.within(dims) {
                lemma_wrap_dec_mod(self.col as int, dims.cols as int);
            }
        }
        Position { row: self.row, col: if self.col == 0 {
            dims.cols - 1
        } else {
            self.col - 1
        } }
    }

    /// Moves `steps` columns to the left, wrapping round the edge.
    pub fn move_left(&mut self, steps: Size, dims: Dimensions)
        requires
            dims.wf(),
        ensures
            *final(self) == old(self).moved_left(steps as nat, dims),
            old(self).within(dims) ==> final(self).within(dims) && final(self).col == (old(self).col
                - steps) % (dims.cols as int),
    {
        let mut steps: Size = steps;
        let ghost total = steps;
        while steps > 0
            invariant
                dims.wf(),
                self.row == old(self).row,
                steps <= total,
                old(self).moved_left(total as nat, dims) == self.moved_left(steps as nat, dims),
            decreases steps,
        {
            self.col = if self.col == 0 {
                dims.cols - 1
            } else {
                self.col - 1
            };
            steps -= 1;
        }
        proof {
            if old(self).within(dims) {
                crate::video::wrapping::lemma_wrap_dec_by_mod(
                    old(self).col as int,
                    dims.cols as int,
                    total as nat,
                );
            }
        }
    }

    /// The neighbour to the right, wrapping to column 0.
    pub fn right(&self, dims: Dimensions) -> (out: Position)
        requires
            dims.wf(),
        ensures
            out == self.right_of(dims),
            self.within(dims) ==> out.within(dims) && out.col == (self.col + 1) % (dims.cols as int),
    {
        proof {
            if self.within(dims) {
                lemma_wrap_inc_mod(self.col as int, dims.cols as int);
            }
        }
        Position { row: self.row, col: if self.col < dims.cols - 1 {
            self.col + 1
        } else {
            0
        } }
    }

    /// Moves `steps` columns to the right, wrapping round the edge.
    pub fn move_right(&mut self, steps: Size, dims: Dimensions)
        requires
            dims.wf(),
        ensures
            *final(self) == old(self).moved_right(steps as nat, dims),
            old(self).within(dims) ==> final(self).within(dims) && final(self).col == (old(
                self,
            ).col + steps) % (dims.cols as int),
    {
        let mut steps: Size = steps;
        let ghost total = steps;
        while steps > 0
            invariant
                dims.wf(),
                self.row == old(self).row,
                steps <= total,
                old(self).moved_right(total as nat, dims) == self.moved_right(steps as nat, dims),
            decreases steps,
        {
            self.col = if self.col < dims.cols - 1 {
                self.col + 1
            } else {
                0
            };
            steps -= 1;
        }
        proof {
            if old(self).within(dims) {
                crate::video::wrapping::lemma_wrap_inc_by_mod(
                    old(self).col as int,
                    dims.cols as int,
                    total as nat,
                );
            }
        }
    }

    /// The neighbour above, wrapping to the last row.
    pub fn up(&self, dims: Dimensions) -> (out: Position)
        requires
            dims.wf(),
        ensures
            out == self.above(dims),
            self.within(dims) ==> out.within(dims) && out.row == (self.row - 1) % (dims.rows as int),
    {
        proof {
            if self.within(dims) {
                lemma_wrap_dec_mod(self.row as int, dims.rows as int);
            }
        }
        Position { row: if self.row > 0 {
            self.row - 1
        } else {
            dims.rows - 1
        }, col: self.col }
    }

    /// Moves `steps` rows up, wrapping round the edge.
    pub fn move_up(&mut self, steps: Size, dims: Dimensions)
        requires
            dims.wf(),
        ensures
            *final(self) == old(self).moved_up(steps as nat, dims),
            old(self).within(dims) ==> final(self).within(dims) && final(self).row == (old(self).row
                - steps) % (dims.rows as int),
    {
        let mut steps: Size = steps;
        let ghost total = steps;
        while steps > 0
            invariant
                dims.wf(),
                self.col == old(self).col,
                steps <= total,
                old(self).moved_up(total as nat, dims) == self.moved_up(steps as nat, dims),
            decreases steps,
        {
            self.row = if self.row > 0 {
                self.row - 1
            } else {
                dims.rows - 1
            };
            steps -= 1;
        }
        proof {
            if old(self).within(dims) {
                crate::video::wrapping::lemma_wrap_dec_by_mod(
                    old(self).row as int,
                    dims.rows as int,
                    total as nat,
                );
            }
        }
    }

    /// The neighbour below, wrapping to row 0.
    pub fn down(&self, dims: Dimensions) -> (out: Position)
        requires
            dims.wf(),
        ensures
            out == self.below(dims),
            self.within(dims) ==> out.within(dims) && out.row == (self.row + 1) % (dims.rows as int),
    {
        proof {
            if self.within(dims) {
                lemma_wrap_inc_mod(self.row as int, dims.rows as int);
            }
        }
        Position { row: if self.row < dims.rows - 1 {
            self.row + 1
        } else {
            0
        }, col: self.col }
    }

    /// Moves `steps` rows down, wrapping round the edge.
    pub fn move_down(&mut self, steps: Size, dims: Dimensions)
        requires
            dims.wf(),
        ensures
            *final(self) == old(self).moved_down(steps as nat, dims),
            old(self).within(dims) ==> final(self).within(dims) && final(self).row == (old(self).row
                + steps) % (dims.rows as int),
    {
        let mut steps: Size = steps;
        let ghost total = steps;
        while steps > 0
            invariant
                dims.wf(),
                self.col == old(self).col,
                steps <= total,
                old(self).moved_down(total as nat, dims) == self.moved_down(steps as nat, dims),
            decreases steps,
        {
            self.row = if self.row < dims.rows - 1 {
                self.row + 1
            } else {
                0
            };
            steps -= 1;
        }
        proof {
            if old(self).within(dims) {
                crate::video::wrapping::lemma_wrap_inc_by_mod(
                    old(self).row as int,
                    dims.rows as int,
                    total as nat,
                );
            }
        }
    }

    /// One step in every direction that `dir` holds.
    pub fn advance(self, dir: Direction, dims: Dimensions) -> (out: Position)
        requires
            dims.wf(),
        ensures
            out == self.advanced(dir, dims),
            self.within(dims) ==> out.within(dims),
    {
        let mut pos: Position = self;
        if dir & UP != 0 {
            pos = pos.up(dims);
        }
        if dir & DOWN != 0 {
            pos = pos.down(dims);
        }
        if dir & LEFT != 0 {
            pos = pos.left(dims);
        }
        if dir & RIGHT != 0 {
            pos = pos.right(dims);
        }
        pos
    }

    /// The square of the distance to `pos`, the shorter way round each
    /// axis of the torus.
    pub fn distance_squared_to(&self, pos: Position, dims: Dimensions) -> (d: u32)
        requires
            dims.wf(),
            self.within(dims),
            pos.within(dims),
        ensures
            d == self.distance_squared(pos, dims),
    {
        distance_squared(*self, pos, dims)
    }

    /// The single direction whose step brings this cell nearest to `pos`.
    pub fn direction_to(&self, pos: Position, dims: Dimensions) -> (dir: Direction)
        requires
            dims.wf(),
            self.within(dims),
            pos.within(dims),
        ensures
            dir == self.direction_towards(pos, dims),
            dir == UP || dir == DOWN || dir == LEFT || dir == RIGHT,
            forall|other: Direction|
                other == UP || other == DOWN || other == LEFT || other == RIGHT
                    ==> self.advanced(dir, dims).distance_squared(pos, dims)
                    <= #[trigger] self.advanced(other, dims).distance_squared(pos, dims),
    {
        let dist_up: u32 = self.up(dims).distance_squared_to(pos, dims);
        let dist_down: u32 = self.down(dims).distance_squared_to(pos, dims);
        let dist_left: u32 = self.left(dims).distance_squared_to(pos, dims);
        let dist_right: u32 = self.right(dims).distance_squared_to(pos, dims);
        proof {
            lemma_single_steps(*self, dims);
        }
        if dist_up <= dist_down && dist_up <= dist_left && dist_up <= dist_right {
            UP
        } else if dist_down <= dist_left && dist_down <= dist_right {
            DOWN
        } else if dist_left <= dist_right {
            LEFT
        } else {
            RIGHT
        }
    }
}

/// The square of the distance between two cells of a torus.
pub fn distance_squared(pos1: Position, pos2: Position, dims: Dimensions) -> (d: u32)
    requires
        dims.wf(),
        pos1.within(dims),
        pos2.within(dims),
    ensures
        d == torus_distance_squared(pos1, pos2, dims),
{
    let x1: u32 = pos1.col as u32;
    let x2: u32 = pos2.col as u32;
    let y1: u32 = pos1.row as u32;
    let y2: u32 = pos2.row as u32;
    let w: u32 = dims.cols as u32;
    let h: u32 = dims.rows as u32;
    let dx: u32 = if x1 >= x2 {
        x1 - x2
    } else {
        x2 - x1
    };
    let dy: u32 = if y1 >= y2 {
        y1 - y2
    } else {
        y2 - y1
    };
    let mx: u32 = if dx <= w - dx {
        dx
    } else {
        w - dx
    };
    let my: u32 = if dy <= h - dy {
        dy
    } else {
        h - dy
    };
    assert(mx * mx + my * my <= u32::MAX) by (nonlinear_arith)
        requires
            mx <= 32767,
            my <= 32767,
    ;
    mx * mx + my * my
}

/// A step in a single direction is the step to that neighbour.
pub proof fn lemma_single_steps(pos: Position, dims: Dimensions)
    ensures
        pos.advanced(UP, dims) == pos.above(dims),
        pos.advanced(DOWN, dims) == pos.below(dims),
        pos.advanced(LEFT, dims) == pos.left_of(dims),
        pos.advanced(RIGHT, dims) == pos.right_of(dims),
        pos.advanced(crate::entities::dir::NONE, dims) == pos,
{
    assert(0x08u8 & 0x08 != 0 && 0x08u8 & 0x04 == 0 && 0x08u8 & 0x02 == 0 && 0x08u8 & 0x01 == 0)
        by (bit_vector);
    assert(0x04u8 & 0x08 == 0 && 0x04u8 & 0x04 != 0 && 0x04u8 & 0x02 == 0 && 0x04u8 & 0x01 == 0)
        by (bit_vector);
    assert(0x02u8 & 0x08 == 0 && 0x02u8 & 0x04 == 0 && 0x02u8 & 0x02 != 0 && 0x02u8 & 0x01 == 0)
        by (bit_vector);
    assert(0x01u8 & 0x08 == 0 && 0x01u8 & 0x04 == 0 && 0x01u8 & 0x02 == 0 && 0x01u8 & 0x01 != 0)
        by (bit_vector);
    assert(0x00u8 & 0x08 == 0 && 0x00u8 & 0x04 == 0 && 0x00u8 & 0x02 == 0 && 0x00u8 & 0x01 == 0)
        by (bit_vector);
}

/// The torus is closed under movement: a step in any direction from a
/// cell of the grid ends on a cell of the grid, and a step back in the
/// opposite direction ends where the first began.
pub proof fn lemma_advance_opposite(pos: Position, dir: Direction, dims: Dimensions)
    requires
        dims.wf(),
        pos.within(dims),
    ensures
        pos.advanced(dir, dims).within(dims),
        pos.advanced(dir, dims).advanced(opposite(dir), dims) == pos,
{
    lemma_opposite(dir);
    lemma_wrap_inverse(pos.row as int, dims.rows as int);
    lemma_wrap_inverse(pos.col as int, dims.cols as int);
    let there = pos.advanced(dir, dims);
    lemma_wrap_inverse(there.row as int, dims.rows as int);
    lemma_wrap_inverse(there.col as int, dims.cols as int);
    if includes(dir, UP) && includes(dir, DOWN) {
    }
    if includes(dir, LEFT) && includes(dir, RIGHT) {
    }
}

} // verus!
