//! Baby rats: small, quick, and after the player.

use vstd::prelude::*;
use crate::config::{Timestamp, later, BRAT_UPDATE_MS};
use crate::entities::{in_quad, quad_holds, random_wander, Entity, EntityAction, State, Wander};
use crate::entities::dir::{Direction, DOWN, LEFT, UP};
use crate::entities::player::{advance_cycle, next_cycle, Player};
use crate::entities::position::{Dimensions, Position};
use crate::entities::rat::{chase, player_dir};
use crate::game_context::Action;
use crate::maze::Maze;
use crate::video::Size;
use crate::video::buffer::ATTR_NONE;
use crate::video::charmaps::{
    BRATS_DOWN_A1, BRATS_DOWN_A2, BRATS_LEFT_A1, BRATS_LEFT_A2, BRATS_RIGHT_A1, BRATS_RIGHT_A2,
    BRATS_UP_A1, BRATS_UP_A2, LIL_BOOM_A1, LIL_BOOM_A2, SPACE,
};

verus! {

/// A baby rat. It fills one cell.
#[derive(Debug, Clone, Copy, PartialEq, Eq, Structural)]
pub struct Brat {
    /// The time from which the next update is due.
    pub next_update: Timestamp,
    /// Steps left before the baby rat turns at random.
    pub distance: Size,
    pub pos: Position,
    pub dir: Direction,
    pub state: State,
    /// The frame of its animation: 0 to 3.
    pub cycle: u8,
}

/// Whether a small entity at `pos` can take a step in `dir`: whether the
/// cell that it would come to is no wall.
pub open spec fn cell_free(maze: &Maze, pos: Position, dir: Direction) -> bool {
    let there = pos.advanced(dir, maze.dimensions);
    !maze.wall_at(there.row as int, there.col as int)
}

impl Brat {
    /// Whether a shot at `pos` hits the baby rat: a live one is hit on its
    /// cell.
    pub open spec fn covers(&self, pos: Position, dims: Dimensions) -> bool {
        self.state == State::Alive && self.pos == pos
    }

    /// The baby rat is on the grid and its animation within its frames.
    pub open spec fn wf(&self, dims: Dimensions) -> bool {
        self.pos.within(dims) && self.cycle <= 3
    }

    /// Takes a step in `dir`, whatever is there.
    pub fn advance(&mut self, dir: Direction, dims: Dimensions)
        requires
            dims.wf(),
        ensures
            *final(self) == (Brat { pos: old(self).pos.advanced(dir, dims), ..*old(self) }),
            old(self).pos.within(dims) ==> final(self).pos.within(dims),
    {
        self.pos = self.pos.advance(dir, dims);
    }

    /// Whether a step in `dir` would end on free floor.
    pub fn can_advance(&self, maze: &Maze, dir: Direction) -> (free: bool)
        requires
            maze.wf(),
        ensures
            free == cell_free(maze, self.pos, dir),
    {
        let there: Position = self.pos.advance(dir, maze.dimensions);
        !maze.is_wall(there.row, there.col)
    }

    /// The baby rat after a move at time `now`. It turns towards the
    /// player if it has the player in its sights. Then, with steps left
    /// and the way free, it takes a step; else it stays and starts on the
    /// stretch `wander`.
    pub open spec fn moved(&self, target: Position, now: u32, maze: &Maze, wander: Wander) -> Brat {
        let dir = match chase(maze, self.pos, target) {
            Some(dir) => dir,
            None => self.dir,
        };
        if self.distance == 0 || !cell_free(maze, self.pos, dir) {
            Brat {
                next_update: (now + BRAT_UPDATE_MS) as u64,
                cycle: next_cycle(self.cycle),
                dir: wander.dir,
                distance: wander.distance,
                ..*self
            }
        } else {
            Brat {
                next_update: (now + BRAT_UPDATE_MS) as u64,
                cycle: next_cycle(self.cycle),
                dir,
                distance: (self.distance - 1) as Size,
                pos: self.pos.advanced(dir, maze.dimensions),
                ..*self
            }
        }
    }

    /// What `update_brat` decides, once the update is due, if `wander` is
    /// the stretch that the baby rat would start on.
    pub open spec fn decision(
        &self,
        player: &Player,
        damage: usize,
        now: u32,
        maze: &Maze,
        wander: Wander,
    ) -> Action {
        match self.state {
            State::Alive => {
                if in_quad(player.pos, self.pos, maze.dimensions) {
                    Action::Attack(damage)
                } else {
                    Action::Update(Entity::Brat(self.moved(player.pos, now, maze, wander)))
                }
            },
            State::Dead => Action::Delete,
            _ => Action::Update(
                Entity::Brat(
                    Brat {
                        next_update: (now + BRAT_UPDATE_MS / 2) as u64,
                        state: self.state.after(),
                        ..*self
                    },
                ),
            ),
        }
    }
}

impl EntityAction for Brat {
    open spec fn hits(&self, pos: Position, dims: Dimensions) -> bool {
        self.covers(pos, dims)
    }

    open spec fn exploded(&self) -> Brat {
        Brat { state: State::Exploding1, ..*self }
    }

    fn hit(&self, pos: Position, dims: Dimensions) -> (hit: bool) {
        self.state == State::Alive && self.pos == pos
    }

    fn explode(&mut self) {
        self.state = State::Exploding1;
    }
}

/// The glyph that shows a baby rat.
pub open spec fn brat_glyph(brat: &Brat) -> u8 {
    match brat.state {
        State::Alive => {
            let second = brat.cycle & 0x1 != 0;
            if brat.dir == UP {
                if second {
                    BRATS_UP_A2
                } else {
                    BRATS_UP_A1
                }
            } else if brat.dir == DOWN {
                if second {
                    BRATS_DOWN_A2
                } else {
                    BRATS_DOWN_A1
                }
            } else if brat.dir == LEFT {
                if second {
                    BRATS_LEFT_A2
                } else {
                    BRATS_LEFT_A1
                }
            } else {
                if second {
                    BRATS_RIGHT_A2
                } else {
                    BRATS_RIGHT_A1
                }
            }
        },
        State::Exploding1 => LIL_BOOM_A1,
        State::Exploding2 => LIL_BOOM_A2,
        State::Exploding3 => LIL_BOOM_A1,
        State::Dead => SPACE,
    }
}

/// Draws a baby rat into the maze: one glyph, by its state, its way and
/// the frame of its animation.
pub fn render_brat(brat: &Brat, maze: &mut Maze)
    requires
        old(maze).buffer.wf(),
    ensures
        final(maze).buffer.wf(),
        final(maze).buffer.same_size(&old(maze).buffer),
        final(maze).cell_rows == old(maze).cell_rows,
        final(maze).cell_cols == old(maze).cell_cols,
        final(maze).dimensions == old(maze).dimensions,
        final(maze).buffer.wrote(
            &old(maze).buffer,
            brat.pos.row as int,
            brat.pos.col as int,
            brat_glyph(brat),
            ATTR_NONE,
        ),
{
    let ch: u8 = match brat.state {
        State::Alive => {
            let second: bool = brat.cycle & 0x1 != 0;
            if brat.dir == UP {
                if second {
                    BRATS_UP_A2
                } else {
                    BRATS_UP_A1
                }
            } else if brat.dir == DOWN {
                if second {
                    BRATS_DOWN_A2
                } else {
                    BRATS_DOWN_A1
                }
            } else if brat.dir == LEFT {
                if second {
                    BRATS_LEFT_A2
                } else {
                    BRATS_LEFT_A1
                }
            } else {
                if second {
                    BRATS_RIGHT_A2
                } else {
                    BRATS_RIGHT_A1
                }
            }
        },
        State::Exploding1 => LIL_BOOM_A1,
        State::Exploding2 => LIL_BOOM_A2,
        State::Exploding3 => LIL_BOOM_A1,
        State::Dead => SPACE,
    };
    maze.buffer.set_chattr(brat.pos.row, brat.pos.col, ch, ATTR_NONE);
}

/// What becomes of a baby rat at time `now`, if `wander` is the stretch
/// that it would start on.
///
/// Before its update is due, nothing. A live baby rat on one of the
/// player's cells attacks; else it moves. An exploding one goes on to the
/// next frame after half its interval, and a dead one is deleted.
pub fn update_brat_with(
    brat: &Brat,
    player: &Player,
    damage: usize,
    now: u32,
    maze: &Maze,
    wander: Wander,
) -> (action: Action)
    requires
        maze.wf(),
        brat.wf(maze.dimensions),
        player.pos.within(maze.dimensions),
    ensures
        action == (if (now as u64) < brat.next_update {
            Action::Nothing
        } else {
            brat.decision(player, damage, now, maze, wander)
        }),
        action matches Action::Update(entity) ==> entity.wf(maze.dimensions) && entity is Brat,
        now >= brat.next_update && brat.state != State::Alive ==> action == Entity::Brat(
            *brat,
        ).burnt(now),
        !(action is New),
{
    if (now as u64) < brat.next_update {
        return Action::Nothing;
    }
    let mut brat: Brat = *brat;
    let dims: Dimensions = maze.dimensions;
    match brat.state {
        State::Alive => {
            if hit_player_1(brat.pos, player, dims) {
                return Action::Attack(damage);
            }
            if let Some(dir) = player_dir(brat.pos, player.pos, maze) {
                brat.dir = dir;
            }
            if brat.distance == 0 || !brat.can_advance(maze, brat.dir) {
                brat.dir = wander.dir;
                brat.distance = wander.distance;
            } else {
                brat.advance(brat.dir, dims);
                brat.distance -= 1;
            }
            Action::Update(
                Entity::Brat(
                    Brat {
                        next_update: later(now, BRAT_UPDATE_MS),
                        cycle: advance_cycle(brat.cycle),
                        ..brat
                    },
                ),
            )
        },
        State::Exploding1 => Action::Update(
            Entity::Brat(
                Brat {
                    next_update: later(now, BRAT_UPDATE_MS / 2),
                    state: State::Exploding2,
                    ..brat
                },
            ),
        ),
        State::Exploding2 => Action::Update(
            Entity::Brat(
                Brat {
                    next_update: later(now, BRAT_UPDATE_MS / 2),
                    state: State::Exploding3,
                    ..brat
                },
            ),
        ),
        State::Exploding3 => Action::Update(
            Entity::Brat(Brat {
                next_update: later(now, BRAT_UPDATE_MS / 2),
                state: State::Dead,
                ..brat
            }),
        ),
        State::Dead => Action::Delete,
    }
}

/// What becomes of a baby rat at time `now`. Where it has to turn, it
/// turns at random, to walk a random five to fifteen steps.
pub fn update_brat(brat: &Brat, player: &Player, damage: usize, now: u32, maze: &Maze) -> (action:
    Action)
    requires
        maze.wf(),
        brat.wf(maze.dimensions),
        player.pos.within(maze.dimensions),
    ensures
        now < brat.next_update ==> action == Action::Nothing,
        now >= brat.next_update ==> exists|wander: Wander|
            wander.within(5, 15) && action == #[trigger] brat.decision(
                player,
                damage,
                now,
                maze,
                wander,
            ),
        action matches Action::Update(entity) ==> entity.wf(maze.dimensions) && entity is Brat,
        now >= brat.next_update && brat.state != State::Alive ==> action == Entity::Brat(
            *brat,
        ).burnt(now),
        !(action is New),
{
    let wander: Wander = random_wander(5, 15);
    let action = update_brat_with(brat, player, damage, now, maze, wander);
    proof {
        if now >= brat.next_update {
            assert(action == brat.decision(player, damage, now, maze, wander));
        }
    }
    action
}

/// Whether `pos` is one of the four cells that the player stands on,
/// alive or not.
pub fn hit_player_1(pos: Position, player: &Player, dims: Dimensions) -> (hit: bool)
    requires
        dims.wf(),
    ensures
        hit == in_quad(player.pos, pos, dims),
{
    quad_holds(player.pos, pos, dims)
}

} // verus!
