//! The player's gun.

use vstd::prelude::*;
use crate::config::{later, PLAYER_FIRE_RATE_MS};
use crate::entities::{Entity, EntityAction, Kind, State};
use crate::entities::bullet::Bullet;
use crate::entities::dir::{
    effective, effective_dir, Direction, DOWN, DOWN_LEFT, DOWN_RIGHT, LEFT, RIGHT, UP, UP_LEFT,
    UP_RIGHT,
};
use crate::entities::position::{Dimensions, Position};
use crate::game_context::{lemma_count_push, GameContext, Sound};
use crate::game_context::hits::{first_target, Shot};
use crate::video::wrapping::{wrap_dec, wrap_inc, SizeWrapping};

verus! {

/// Where a bullet leaves the gun of a player at `pos` who fires in `dir`:
/// the cell just outside the player's square on that side. Downwards and
/// to the left the bullet leaves by the player's left column or top row,
/// upwards and to the right by the right column. There is no such cell
/// where `dir` is none of the eight ways a bullet can fly.
pub open spec fn muzzle(pos: Position, dir: Direction, dims: Dimensions) -> Option<Position> {
    let rows = dims.rows as int;
    let cols = dims.cols as int;
    let row = pos.row as int;
    let col = pos.col as int;
    let up = wrap_dec(row, rows) as u16;
    let down1 = wrap_inc(row, rows) as u16;
    let down2 = wrap_inc(down1 as int, rows) as u16;
    let left = wrap_dec(col, cols) as u16;
    let right1 = wrap_inc(col, cols) as u16;
    let right2 = wrap_inc(right1 as int, cols) as u16;
    if dir == DOWN {
        Some(Position { row: down2, col: pos.col })
    } else if dir == DOWN_LEFT {
        Some(Position { row: down1, col: left })
    } else if dir == DOWN_RIGHT {
        Some(Position { row: down1, col: right2 })
    } else if dir == UP {
        Some(Position { row: up, col: right1 })
    } else if dir == UP_LEFT {
        Some(Position { row: up, col: left })
    } else if dir == UP_RIGHT {
        Some(Position { row: up, col: right2 })
    } else if dir == LEFT {
        Some(Position { row: pos.row, col: left })
    } else if dir == RIGHT {
        Some(Position { row: pos.row, col: right2 })
    } else {
        None
    }
}

/// Where a bullet leaves the gun of a player at `pos` who fires in `dir`.
pub fn muzzle_of(pos: Position, dir: Direction, dims: Dimensions) -> (at: Option<Position>)
    requires
        dims.wf(),
    ensures
        at == muzzle(pos, dir, dims),
        pos.within(dims) && at is Some ==> at->0.within(dims),
{
    let (row, col) = (pos.row, pos.col);
    let (rows, cols) = (dims.rows, dims.cols);
    if dir == DOWN {
        Some(Position { row: row.inc(rows).inc(rows), col })
    } else if dir == DOWN_LEFT {
        Some(Position { row: row.inc(rows), col: col.dec(cols) })
    } else if dir == DOWN_RIGHT {
        Some(Position { row: row.inc(rows), col: col.inc(cols).inc(cols) })
    } else if dir == UP {
        Some(Position { row: row.dec(rows), col: col.inc(cols) })
    } else if dir == UP_LEFT {
        Some(Position { row: row.dec(rows), col: col.dec(cols) })
    } else if dir == UP_RIGHT {
        Some(Position { row: row.dec(rows), col: col.inc(cols).inc(cols) })
    } else if dir == LEFT {
        Some(Position { row, col: col.dec(cols) })
    } else if dir == RIGHT {
        Some(Position { row, col: col.inc(cols).inc(cols) })
    } else {
        None
    }
}

impl GameContext {
    /// Where a shot at time `now` would leave the gun: the player is
    /// alive, the gun is ready again, the firing keys point one of the
    /// eight ways, and the cell before the gun is no wall.
    pub open spec fn aim(&self, now: u32) -> Option<Position> {
        let player = self.player();
        if player.state == State::Alive && self.next_fire_time <= now {
            match muzzle(player.pos, effective(self.firing_dir), self.dims()) {
                Some(at) => if self.pristine_maze.wall_at(at.row as int, at.col as int) {
                    None
                } else {
                    Some(at)
                },
                None => None,
            }
        } else {
            None
        }
    }

    /// The first entity other than the player that stands on `at`; the
    /// number of entities if none does.
    pub open spec fn point_blank(&self, at: Position) -> int {
        first_target(
            self.entities@,
            Shot { index: self.entities@.len() as usize, pos: at, lifetime: 0 },
            self.dims(),
            1,
        )
    }

    /// The bullet that leaves the gun at `at` at time `now`.
    pub open spec fn round(&self, at: Position, now: u32) -> Bullet {
        Bullet {
            next_update: now as u64,
            pos: at,
            dir: effective(self.firing_dir),
            state: State::Alive,
            cycle: 0,
            lifetime: 0,
        }
    }

    /// Whether this is the session `before` after its gun was fired at
    /// time `now`. Where no shot can be taken, nothing has changed. Else
    /// the gun is ready again after its firing interval; what stood right
    /// before the gun has started to explode; and where nothing stood
    /// there, a bullet has joined the game and the shot is heard.
    pub open spec fn fired(&self, before: &GameContext, now: u32) -> bool {
        match before.aim(now) {
            None => *self == *before,
            Some(at) => {
                let target = before.point_blank(at);
                &&& 1 <= target <= before.entities@.len()
                &&& *self == (GameContext {
                    next_fire_time: (now + PLAYER_FIRE_RATE_MS) as u64,
                    entities: self.entities,
                    sounds: self.sounds,
                    ..*before
                })
                &&& self.entities@ == (if target < before.entities@.len() {
                    before.entities@.update(
                        target,
                        before.entities@[target].with_state(State::Exploding1),
                    )
                } else {
                    before.entities@.push(Entity::Bullet(before.round(at, now)))
                })
                &&& self.sounds@ == (if target < before.entities@.len() {
                    before.sounds@
                } else {
                    before.sounds@.push(Sound::Gunshot)
                })
            },
        }
    }

    /// Fires the gun, if a shot can be taken at time `now`. Something
    /// that stands right before the gun blows up at once, without
    /// scoring, and no bullet flies; else a bullet joins the game and the
    /// shot is heard. Either way the gun is ready again after its firing
    /// interval.
    #[verifier::loop_isolation(false)]
    pub fn fire(&mut self, now: u32)
        requires
            old(self).wf(),
        ensures
            final(self).wf(),
            old(self).scene().tallied() ==> final(self).scene().tallied(),
            final(self).fired(old(self), now),
    {
        let player = *self.get_player();
        if player.state != State::Alive || self.next_fire_time > now as u64 {
            return;
        }
        let dims: Dimensions = self.pristine_maze.dimensions;
        let dir: Direction = self.effective_firing_dir();
        match muzzle_of(player.pos, dir, dims) {
            None => {},
            Some(pos) => {
                if self.pristine_maze.is_wall(pos.row, pos.col) {
                    return;
                }
                self.next_fire_time = later(now, PLAYER_FIRE_RATE_MS);
                let count: usize = self.entities.len();
                let ghost shot = Shot { index: count, pos, lifetime: 0 };
                let mut index: usize = 1;
                while index < count
                    invariant
                        self.wf(),
                        dims == self.dims(),
                        count == self.entities@.len(),
                        self.entities@ == old(self).entities@,
                        *self == (GameContext {
                            next_fire_time: (now + PLAYER_FIRE_RATE_MS) as u64,
                            ..*old(self)
                        }),
                        self.sounds@ == old(self).sounds@,
                        shot == (Shot { index: count, pos, lifetime: 0 }),
                        1 <= index <= count,
                        first_target(self.entities@, shot, dims, 1) == first_target(
                            self.entities@,
                            shot,
                            dims,
                            index as int,
                        ),
                    decreases count - index,
                {
                    if self.entities[index].hit(pos, dims) {
                        self.explode_at(index);
                        return;
                    }
                    index += 1;
                }
                let bullet = Entity::Bullet(
                    Bullet {
                        next_update: now as u64,
                        pos,
                        dir,
                        state: State::Alive,
                        cycle: 0,
                        lifetime: 0,
                    },
                );
                proof {
                    lemma_count_push(self.entities@, bullet, Kind::Rat);
                    lemma_count_push(self.entities@, bullet, Kind::Brat);
                    lemma_count_push(self.entities@, bullet, Kind::Factory);
                }
                self.entities.push(bullet);
                self.sounds.push(Sound::Gunshot);
            },
        }
    }

    /// A firing key went down. A key that was not held yet is held now
    /// and fires the gun, if a shot can be taken.
    pub fn start_firing(&mut self, dir: Direction, now: u32)
        requires
            old(self).wf(),
        ensures
            final(self).wf(),
            old(self).scene().tallied() ==> final(self).scene().tallied(),
            old(self).firing_dir & dir != 0 ==> *final(self) == *old(self),
            old(self).firing_dir & dir == 0 ==> final(self).fired(
                &(GameContext { firing_dir: old(self).firing_dir | dir, ..*old(self) }),
                now,
            ),
    {
        if self.firing_dir & dir == 0 {
            self.firing_dir |= dir;
            self.fire(now);
        }
    }

    /// A firing key went up: it is held no more.
    pub fn stop_firing(&mut self, dir: Direction)
        ensures
            *final(self) == (GameContext { firing_dir: old(self).firing_dir & !dir, ..*old(self) }),
    {
        self.firing_dir &= !dir;
    }

    /// Where the firing keys that are held point once up has cancelled
    /// down and left has cancelled right.
    pub fn effective_firing_dir(&self) -> (dir: Direction)
        ensures
            dir == effective(self.firing_dir),
    {
        effective_dir(self.firing_dir)
    }
}

} // verus!
