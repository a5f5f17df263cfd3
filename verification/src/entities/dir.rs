//! Directions as a mask of four bits; a diagonal is two bits together.

use vstd::prelude::*;

verus! {

/// A set of the four directions, one bit each.
pub type Direction = u8;

/// No direction.
pub const NONE: Direction = 0x00;

pub const UP: Direction = 0x08;

pub const DOWN: Direction = 0x04;

pub const LEFT: Direction = 0x02;

pub const RIGHT: Direction = 0x01;

/// Up and left.
pub const UP_LEFT: Direction = 0x0a;

/// Up and right.
pub const UP_RIGHT: Direction = 0x09;

/// Down and left.
pub const DOWN_LEFT: Direction = 0x06;

/// Down and right.
pub const DOWN_RIGHT: Direction = 0x05;

/// Whether `dir` holds the bit (or one of the bits) of `bit`.
pub open spec fn includes(dir: Direction, bit: Direction) -> bool {
    dir & bit != 0
}

/// `dir` without the pairs that cancel: up with down, left with right.
pub open spec fn effective(dir: Direction) -> Direction {
    let vertical = if includes(dir, UP) && includes(dir, DOWN) {
        dir & !(UP | DOWN)
    } else {
        dir
    };
    if includes(vertical, LEFT) && includes(vertical, RIGHT) {
        vertical & !(LEFT | RIGHT)
    } else {
        vertical
    }
}

/// The direction that undoes `dir`: up and down change places, and so do
/// left and right.
pub open spec fn opposite(dir: Direction) -> Direction {
    (if includes(dir, UP) { DOWN } else { NONE })
        | (if includes(dir, DOWN) { UP } else { NONE })
        | (if includes(dir, LEFT) { RIGHT } else { NONE })
        | (if includes(dir, RIGHT) { LEFT } else { NONE })
}

/// What `stop_dir` returns: a single direction stays, a diagonal faces
/// its horizontal part, anything else faces up.
pub open spec fn stop_dir_value(dir: Direction) -> Direction {
    if dir == UP || dir == DOWN || dir == LEFT || dir == RIGHT {
        dir
    } else if dir == UP_LEFT || dir == DOWN_LEFT {
        LEFT
    } else if dir == UP_RIGHT || dir == DOWN_RIGHT {
        RIGHT
    } else {
        UP
    }
}

/// The direction to face once movement in `dir` has stopped.
pub fn stop_dir(dir: Direction) -> (facing: Direction)
    ensures
        facing == stop_dir_value(dir),
        facing == UP || facing == DOWN || facing == LEFT || facing == RIGHT,
{
    if dir == UP || dir == DOWN || dir == LEFT || dir == RIGHT {
        dir
    } else if dir == UP_LEFT || dir == DOWN_LEFT {
        LEFT
    } else if dir == UP_RIGHT || dir == DOWN_RIGHT {
        RIGHT
    } else {
        UP
    }
}

/// Strips the pairs that cancel from `dir`.
pub fn effective_dir(dir: Direction) -> (out: Direction)
    ensures
        out == effective(dir),
        !(includes(out, UP) && includes(out, DOWN)),
        !(includes(out, LEFT) && includes(out, RIGHT)),
        out & !dir == 0,
{
    let mut out: Direction = dir;
    if (out & UP) != 0 && (out & DOWN) != 0 {
        out &= !(UP | DOWN);
    }
    if (out & LEFT) != 0 && (out & RIGHT) != 0 {
        out &= !(LEFT | RIGHT);
    }
    proof {
        lemma_effective(dir);
    }
    out
}

/// What is left after the cancelling holds no pair that cancels, and no
/// bit that `dir` did not hold.
pub proof fn lemma_effective(dir: Direction)
    ensures
        !(includes(effective(dir), UP) && includes(effective(dir), DOWN)),
        !(includes(effective(dir), LEFT) && includes(effective(dir), RIGHT)),
        effective(dir) & !dir == 0,
        includes(effective(dir), UP) ==> includes(dir, UP) && !includes(dir, DOWN),
        includes(effective(dir), DOWN) ==> includes(dir, DOWN) && !includes(dir, UP),
        includes(effective(dir), LEFT) ==> includes(dir, LEFT) && !includes(dir, RIGHT),
        includes(effective(dir), RIGHT) ==> includes(dir, RIGHT) && !includes(dir, LEFT),
{
    let e = effective(dir);
    assert(e == {
        let v = if dir & 0x08 != 0 && dir & 0x04 != 0 {
            dir & !(0x08u8 | 0x04u8)
        } else {
            dir
        };
        if v & 0x02 != 0 && v & 0x01 != 0 {
            v & !(0x02u8 | 0x01u8)
        } else {
            v
        }
    });
    assert({
        let v = if dir & 0x08 != 0 && dir & 0x04 != 0 {
            dir & !(0x08u8 | 0x04u8)
        } else {
            dir
        };
        let e = if v & 0x02 != 0 && v & 0x01 != 0 {
            v & !(0x02u8 | 0x01u8)
        } else {
            v
        };
        &&& !(e & 0x08 != 0 && e & 0x04 != 0)
        &&& !(e & 0x02 != 0 && e & 0x01 != 0)
        &&& e & !dir == 0
        &&& (e & 0x08 != 0 ==> dir & 0x08 != 0 && !(dir & 0x04 != 0))
        &&& (e & 0x04 != 0 ==> dir & 0x04 != 0 && !(dir & 0x08 != 0))
        &&& (e & 0x02 != 0 ==> dir & 0x02 != 0 && !(dir & 0x01 != 0))
        &&& (e & 0x01 != 0 ==> dir & 0x01 != 0 && !(dir & 0x02 != 0))
    }) by (bit_vector);
}

/// The opposite direction holds a bit exactly where `dir` holds the bit
/// across from it.
pub proof fn lemma_opposite(dir: Direction)
    ensures
        includes(opposite(dir), UP) == includes(dir, DOWN),
        includes(opposite(dir), DOWN) == includes(dir, UP),
        includes(opposite(dir), LEFT) == includes(dir, RIGHT),
        includes(opposite(dir), RIGHT) == includes(dir, LEFT),
{
    let a: u8 = if includes(dir, UP) { DOWN } else { NONE };
    let b: u8 = if includes(dir, DOWN) { UP } else { NONE };
    let c: u8 = if includes(dir, LEFT) { RIGHT } else { NONE };
    let d: u8 = if includes(dir, RIGHT) { LEFT } else { NONE };
    assert(opposite(dir) == a | b | c | d);
    assert((a == 0x04 || a == 0) && (b == 0x08 || b == 0) && (c == 0x01 || c == 0) && (d == 0x02
        || d == 0));
    assert({
        let o = a | b | c | d;
        &&& (o & 0x08 != 0) == (b == 0x08)
        &&& (o & 0x04 != 0) == (a == 0x04)
        &&& (o & 0x02 != 0) == (d == 0x02)
        &&& (o & 0x01 != 0) == (c == 0x01)
    }) by (bit_vector)
        requires
            (a == 0x04 || a == 0) && (b == 0x08 || b == 0) && (c == 0x01 || c == 0) && (d == 0x02
                || d == 0),
    ;
}

} // verus!
