//! Bullets: they fly straight until they meet a wall.

use vstd::prelude::*;
use crate::config::{Timestamp, later, BULLET_UPDATE_MS};
use crate::entities::{Entity, EntityAction, State};
use crate::entities::dir::{
    Direction, DOWN, DOWN_LEFT, DOWN_RIGHT, LEFT, RIGHT, UP, UP_LEFT, UP_RIGHT,
};
use crate::entities::player::{advance_cycle, next_cycle};
use crate::entities::position::{Dimensions, Position};
use crate::game_context::Action;
use crate::maze::Maze;
use crate::video::buffer::ATTR_NONE;
use crate::video::charmaps::{
    BULLET_DOWN, BULLET_DOWN_LEFT, BULLET_DOWN_RIGHT, BULLET_LEFT, BULLET_RIGHT, BULLET_UP,
    BULLET_UP_LEFT, BULLET_UP_RIGHT, LIL_BOOM_A1, LIL_BOOM_A2,
};
use crate::video::wrapping::{wrap_dec, wrap_inc, SizeWrapping};

verus! {

/// A bullet in flight.
#[derive(Debug, Clone, Copy, PartialEq, Eq, Structural)]
pub struct Bullet {
    /// The time from which the next update is due.
    pub next_update: Timestamp,
    pub pos: Position,
    pub dir: Direction,
    pub state: State,
    /// The frame of its animation: 0 to 3.
    pub cycle: u8,
    /// Updates that the bullet has flown through; it stops counting at
    /// the largest number it can hold.
    pub lifetime: u32,
}

/// Whether `dir` is one of the eight ways a bullet can fly.
pub open spec fn flies(dir: Direction) -> bool {
    dir == UP || dir == DOWN || dir == LEFT || dir == RIGHT || dir == UP_LEFT || dir == UP_RIGHT
        || dir == DOWN_LEFT || dir == DOWN_RIGHT
}

/// The cell that a bullet at `pos` reaches with one step on its way; a
/// bullet that flies no way stays.
pub open spec fn bullet_step(pos: Position, dir: Direction, dims: Dimensions) -> Position {
    let up = wrap_dec(pos.row as int, dims.rows as int) as u16;
    let down = wrap_inc(pos.row as int, dims.rows as int) as u16;
    let left = wrap_dec(pos.col as int, dims.cols as int) as u16;
    let right = wrap_inc(pos.col as int, dims.cols as int) as u16;
    if dir == DOWN {
        Position { row: down, col: pos.col }
    } else if dir == DOWN_LEFT {
        Position { row: down, col: left }
    } else if dir == DOWN_RIGHT {
        Position { row: down, col: right }
    } else if dir == UP {
        Position { row: up, col: pos.col }
    } else if dir == UP_LEFT {
        Position { row: up, col: left }
    } else if dir == UP_RIGHT {
        Position { row: up, col: right }
    } else if dir == LEFT {
        Position { row: pos.row, col: left }
    } else if dir == RIGHT {
        Position { row: pos.row, col: right }
    } else {
        pos
    }
}

/// A bullet's step is the step that everything else takes: one cell in
/// each direction of its way, round the edges of the torus.
pub proof fn lemma_bullet_step(pos: Position, dir: Direction, dims: Dimensions)
    requires
        flies(dir),
    ensures
        bullet_step(pos, dir, dims) == pos.advanced(dir, dims),
{
    assert(0x08u8 & 0x08 != 0 && 0x08u8 & 0x04 == 0 && 0x08u8 & 0x02 == 0 && 0x08u8 & 0x01 == 0)
        by (bit_vector);
    assert(0x04u8 & 0x08 == 0 && 0x04u8 & 0x04 != 0 && 0x04u8 & 0x02 == 0 && 0x04u8 & 0x01 == 0)
        by (bit_vector);
    assert(0x02u8 & 0x08 == 0 && 0x02u8 & 0x04 == 0 && 0x02u8 & 0x02 != 0 && 0x02u8 & 0x01 == 0)
        by (bit_vector);
    assert(0x01u8 & 0x08 == 0 && 0x01u8 & 0x04 == 0 && 0x01u8 & 0x02 == 0 && 0x01u8 & 0x01 != 0)
        by (bit_vector);
    assert(0x0au8 & 0x08 != 0 && 0x0au8 & 0x04 == 0 && 0x0au8 & 0x02 != 0 && 0x0au8 & 0x01 == 0)
        by (bit_vector);
    assert(0x09u8 & 0x08 != 0 && 0x09u8 & 0x04 == 0 && 0x09u8 & 0x02 == 0 && 0x09u8 & 0x01 != 0)
        by (bit_vector);
    assert(0x06u8 & 0x08 == 0 && 0x06u8 & 0x04 != 0 && 0x06u8 & 0x02 != 0 && 0x06u8 & 0x01 == 0)
        by (bit_vector);
    assert(0x05u8 & 0x08 == 0 && 0x05u8 & 0x04 != 0 && 0x05u8 & 0x02 == 0 && 0x05u8 & 0x01 != 0)
        by (bit_vector);
}

impl Bullet {
    /// Whether a shot at `pos` hits the bullet: a live bullet is hit on its
    /// cell.
    pub open spec fn covers(&self, pos: Position, dims: Dimensions) -> bool {
        self.state == State::Alive && self.pos == pos
    }

    /// The bullet is on the grid and its animation within its frames.
    pub open spec fn wf(&self, dims: Dimensions) -> bool {
        self.pos.within(dims) && self.cycle <= 3
    }

    /// The bullet one update later, if no wall stops it: a step further,
    /// a frame on, a tick older.
    pub open spec fn flown(&self, now: u32, dims: Dimensions) -> Bullet {
        Bullet {
            next_update: (now + BULLET_UPDATE_MS) as u64,
            pos: bullet_step(self.pos, self.dir, dims),
            cycle: next_cycle(self.cycle),
            lifetime: if self.lifetime < u32::MAX {
                (self.lifetime + 1) as u32
            } else {
                self.lifetime
            },
            ..*self
        }
    }

    /// What `update_bullet` decides, once the update is due.
    pub open spec fn decision(&self, maze: &Maze, now: u32) -> Action {
        match self.state {
            State::Alive => {
                let next = self.flown(now, maze.dimensions);
                if maze.wall_at(next.pos.row as int, next.pos.col as int) {
                    Action::Delete
                } else {
                    Action::Update(Entity::Bullet(next))
                }
            },
            State::Dead => Action::Delete,
            _ => Action::Update(
                Entity::Bullet(
                    Bullet {
                        next_update: (now + BULLET_UPDATE_MS / 2) as u64,
                        state: self.state.after(),
                        ..*self
                    },
                ),
            ),
        }
    }
}

impl EntityAction for Bullet {
    open spec fn hits(&self, pos: Position, dims: Dimensions) -> bool {
        self.covers(pos, dims)
    }

    open spec fn exploded(&self) -> Bullet {
        Bullet { state: State::Exploding1, ..*self }
    }

    fn hit(&self, pos: Position, dims: Dimensions) -> (hit: bool) {
        self.state == State::Alive && self.pos == pos
    }

    fn explode(&mut self) {
        self.state = State::Exploding1;
    }
}

/// The glyph that shows a bullet.
pub open spec fn bullet_glyph(bullet: &Bullet) -> u8 {
    match bullet.state {
        State::Alive => {
            if bullet.dir == DOWN {
                BULLET_DOWN
            } else if bullet.dir == DOWN_LEFT {
                BULLET_DOWN_LEFT
            } else if bullet.dir == DOWN_RIGHT {
                BULLET_DOWN_RIGHT
            } else if bullet.dir == UP {
                BULLET_UP
            } else if bullet.dir == UP_LEFT {
                BULLET_UP_LEFT
            } else if bullet.dir == UP_RIGHT {
                BULLET_UP_RIGHT
            } else if bullet.dir == LEFT {
                BULLET_LEFT
            } else if bullet.dir == RIGHT {
                BULLET_RIGHT
            } else {
                0x3f
            }
        },
        State::Exploding1 => LIL_BOOM_A1,
        State::Exploding2 => LIL_BOOM_A2,
        State::Exploding3 => LIL_BOOM_A1,
        State::Dead => 0x2a,
    }
}

/// Draws a bullet into the maze: one glyph, by its state and its way.
pub fn render_bullet(bullet: &Bullet, maze: &mut Maze)
    requires
        old(maze).buffer.wf(),
    ensures
        final(maze).buffer.wf(),
        final(maze).buffer.same_size(&old(maze).buffer),
        final(maze).cell_rows == old(maze).cell_rows,
        final(maze).cell_cols == old(maze).cell_cols,
        final(maze).dimensions == old(maze).dimensions,
        final(maze).buffer.wrote(
            &old(maze).buffer,
            bullet.pos.row as int,
            bullet.pos.col as int,
            bullet_glyph(bullet),
            ATTR_NONE,
        ),
{
    let ch: u8 = match bullet.state {
        State::Alive => {
            if bullet.dir == DOWN {
                BULLET_DOWN
            } else if bullet.dir == DOWN_LEFT {
                BULLET_DOWN_LEFT
            } else if bullet.dir == DOWN_RIGHT {
                BULLET_DOWN_RIGHT
            } else if bullet.dir == UP {
                BULLET_UP
            } else if bullet.dir == UP_LEFT {
                BULLET_UP_LEFT
            } else if bullet.dir == UP_RIGHT {
                BULLET_UP_RIGHT
            } else if bullet.dir == LEFT {
                BULLET_LEFT
            } else if bullet.dir == RIGHT {
                BULLET_RIGHT
            } else {
                0x3f
            }
        },
        State::Exploding1 => LIL_BOOM_A1,
        State::Exploding2 => LIL_BOOM_A2,
        State::Exploding3 => LIL_BOOM_A1,
        State::Dead => 0x2a,
    };
    maze.buffer.set_chattr(bullet.pos.row, bullet.pos.col, ch, ATTR_NONE);
}

/// What becomes of a bullet at time `now`.
///
/// Before its update is due, nothing. A live bullet takes a step on its
/// way and is deleted if the step ends in a wall. An exploding bullet
/// goes on to the next frame after half its interval, and a dead one is
/// deleted.
pub fn update_bullet(bullet: &Bullet, maze: &Maze, now: u32) -> (action: Action)
    requires
        maze.wf(),
        bullet.wf(maze.dimensions),
    ensures
        action == (if (now as u64) < bullet.next_update {
            Action::Nothing
        } else {
            bullet.decision(maze, now)
        }),
        action matches Action::Update(entity) ==> entity.wf(maze.dimensions) && entity is Bullet,
        now >= bullet.next_update && bullet.state != State::Alive ==> action == Entity::Bullet(
            *bullet,
        ).burnt(now),
        !(action is New) && !(action is Attack),
{
    if (now as u64) < bullet.next_update {
        return Action::Nothing;
    }
    let bullet: Bullet = *bullet;
    let dims: Dimensions = maze.dimensions;
    match bullet.state {
        State::Alive => {
            let (row, col) = (bullet.pos.row, bullet.pos.col);
            let (rows, cols) = (maze.rows(), maze.cols());
            let (row, col) = if bullet.dir == DOWN {
                (row.inc(rows), col)
            } else if bullet.dir == DOWN_LEFT {
                (row.inc(rows), col.dec(cols))
            } else if bullet.dir == DOWN_RIGHT {
                (row.inc(rows), col.inc(cols))
            } else if bullet.dir == UP {
                (row.dec(rows), col)
            } else if bullet.dir == UP_LEFT {
                (row.dec(rows), col.dec(cols))
            } else if bullet.dir == UP_RIGHT {
                (row.dec(rows), col.inc(cols))
            } else if bullet.dir == LEFT {
                (row, col.dec(cols))
            } else if bullet.dir == RIGHT {
                (row, col.inc(cols))
            } else {
                (row, col)
            };
            if maze.is_wall(row, col) {
                Action::Delete
            } else {
                Action::Update(
                    Entity::Bullet(
                        Bullet {
                            next_update: later(now, BULLET_UPDATE_MS),
                            pos: Position { row, col },
                            cycle: advance_cycle(bullet.cycle),
                            lifetime: if bullet.lifetime < u32::MAX {
                                bullet.lifetime + 1
                            } else {
                                bullet.lifetime
                            },
                            ..bullet
                        },
                    ),
                )
            }
        },
        State::Exploding1 => Action::Update(
            Entity::Bullet(
                Bullet {
                    next_update: later(now, BULLET_UPDATE_MS / 2),
                    state: State::Exploding2,
                    ..bullet
                },
            ),
        ),
        State::Exploding2 => Action::Update(
            Entity::Bullet(
                Bullet {
                    next_update: later(now, BULLET_UPDATE_MS / 2),
                    state: State::Exploding3,
                    ..bullet
                },
            ),
        ),
        State::Exploding3 => Action::Update(
            Entity::Bullet(
                Bullet {
                    next_update: later(now, BULLET_UPDATE_MS / 2),
                    state: State::Dead,
                    ..bullet
                },
            ),
        ),
        State::Dead => Action::Delete,
    }
}

} // verus!
