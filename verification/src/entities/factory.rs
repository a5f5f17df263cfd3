//! Factories: they stand still and turn out rats.

use vstd::prelude::*;
use crate::config::{Timestamp, later, FACTORY_UPDATE_MS};
use crate::entities::{in_quad, quad_holds, Entity, EntityAction, State};
use crate::entities::dir::{Direction, RIGHT};
use crate::entities::position::{Dimensions, Position};
use crate::entities::rat::Rat;
use crate::game_context::{random, Action};
use crate::maze::Maze;
use crate::video::Size;
use crate::video::buffer::ATTR_NONE;
use crate::video::charmaps::{BIG_BLANK_START, BIG_BOOM_A1, BIG_BOOM_A2, FACTORY_A1, FACTORY_A2};

verus! {

/// A factory of rats. It fills a square of four cells.
#[derive(Debug, Clone, Copy, PartialEq, Eq, Structural)]
pub struct Factory {
    /// The time from which the next update is due.
    pub next_update: Timestamp,
    pub pos: Position,
    /// The way that it faces. A factory does not move or turn.
    pub dir: Direction,
    pub state: State,
    /// The frame of its animation: 0 or 1.
    pub cycle: u8,
}

impl Factory {
    /// Whether a shot at `pos` hits the factory: a live factory is hit on
    /// any of its four cells.
    pub open spec fn covers(&self, pos: Position, dims: Dimensions) -> bool {
        self.state == State::Alive && in_quad(self.pos, pos, dims)
    }

    /// The factory is on the grid and its animation within its frames.
    pub open spec fn wf(&self, dims: Dimensions) -> bool {
        self.pos.within(dims) && self.cycle <= 1
    }

    /// The rat that leaves the factory at time `now` to walk `distance`
    /// steps: it sets out to the right.
    pub open spec fn product(&self, now: u32, distance: Size) -> Rat {
        Rat {
            next_update: now as u64,
            distance,
            pos: self.pos,
            dir: RIGHT,
            state: State::Alive,
            cycle: 0,
        }
    }

    /// What `update_factory` decides, once the update is due, if a new
    /// rat would walk `distance` steps first.
    pub open spec fn decision(&self, now: u32, make_rat: bool, distance: Size) -> Action {
        match self.state {
            State::Alive => {
                if make_rat {
                    Action::New(Entity::Rat(self.product(now, distance)))
                } else {
                    Action::Update(
                        Entity::Factory(
                            Factory {
                                next_update: (now + FACTORY_UPDATE_MS) as u64,
                                cycle: (1 - self.cycle) as u8,
                                ..*self
                            },
                        ),
                    )
                }
            },
            State::Dead => Action::Delete,
            _ => Action::Update(
                Entity::Factory(
                    Factory {
                        next_update: (now + FACTORY_UPDATE_MS / 2) as u64,
                        state: self.state.after(),
                        ..*self
                    },
                ),
            ),
        }
    }
}

impl EntityAction for Factory {
    open spec fn hits(&self, pos: Position, dims: Dimensions) -> bool {
        self.covers(pos, dims)
    }

    open spec fn exploded(&self) -> Factory {
        Factory { state: State::Exploding1, ..*self }
    }

    fn hit(&self, pos: Position, dims: Dimensions) -> (hit: bool) {
        if self.state != State::Alive {
            return false;
        }
        quad_holds(self.pos, pos, dims)
    }

    fn explode(&mut self) {
        self.state = State::Exploding1;
    }
}

/// The first of the four glyphs that show a factory.
pub open spec fn factory_glyph(factory: &Factory) -> u8 {
    match factory.state {
        State::Alive => if factory.cycle % 2 == 0 {
            FACTORY_A1
        } else {
            FACTORY_A2
        },
        State::Exploding1 => BIG_BOOM_A1,
        State::Exploding2 => BIG_BOOM_A2,
        State::Exploding3 => BIG_BOOM_A1,
        State::Dead => BIG_BLANK_START,
    }
}

/// Draws a factory into the maze: a large glyph, by its state and the
/// frame of its animation.
pub fn render_factory(factory: &Factory, maze: &mut Maze)
    requires
        old(maze).buffer.wf(),
    ensures
        final(maze).buffer.wf(),
        final(maze).buffer.same_size(&old(maze).buffer),
        final(maze).cell_rows == old(maze).cell_rows,
        final(maze).cell_cols == old(maze).cell_cols,
        final(maze).dimensions == old(maze).dimensions,
        final(maze).buffer.wrote_quad(
            &old(maze).buffer,
            factory.pos.row as int,
            factory.pos.col as int,
            factory_glyph(factory),
            ATTR_NONE,
        ),
{
    let ch: u8 = match factory.state {
        State::Alive => {
            if factory.cycle % 2 == 0 {
                FACTORY_A1
            } else {
                FACTORY_A2
            }
        },
        State::Exploding1 => BIG_BOOM_A1,
        State::Exploding2 => BIG_BOOM_A2,
        State::Exploding3 => BIG_BOOM_A1,
        State::Dead => BIG_BLANK_START,
    };
    maze.buffer.set_quad(factory.pos.row, factory.pos.col, ch, ATTR_NONE);
}

/// What becomes of a factory at time `now`, if a rat that it makes would
/// walk `distance` steps before it turns.
///
/// Before its update is due, nothing. A live factory makes a rat where it
/// stands if rats are wanted, and else shows the other frame of its
/// animation. An exploding factory goes on to the next frame after half
/// its interval, and a dead one is deleted.
pub fn update_factory_with(factory: &Factory, now: u32, make_rat: bool, distance: Size) -> (action:
    Action)
    requires
        factory.cycle <= 1,
    ensures
        action == (if (now as u64) < factory.next_update {
            Action::Nothing
        } else {
            factory.decision(now, make_rat, distance)
        }),
        action is Nothing || action is Delete || action is Update || action is New,
        now >= factory.next_update && factory.state != State::Alive ==> action == Entity::Factory(
            *factory,
        ).burnt(now),
        action matches Action::Update(entity) ==> entity matches Entity::Factory(next) && next.pos
            == factory.pos && next.cycle <= 1,
        action matches Action::New(entity) ==> entity matches Entity::Rat(rat) && rat.pos
            == factory.pos && rat.cycle == 0 && rat.dir == RIGHT,
{
    if (now as u64) < factory.next_update {
        return Action::Nothing;
    }
    let factory: Factory = *factory;
    match factory.state {
        State::Alive => {
            if make_rat {
                Action::New(
                    Entity::Rat(
                        Rat {
                            next_update: now as u64,
                            distance,
                            pos: factory.pos,
                            dir: RIGHT,
                            state: State::Alive,
                            cycle: 0,
                        },
                    ),
                )
            } else {
                let cycle: u8 = factory.cycle;
                assert((cycle + 1) as u8 & 0x1 == 1 - cycle) by (bit_vector)
                    requires
                        cycle <= 1,
                ;
                Action::Update(
                    Entity::Factory(
                        Factory {
                            next_update: later(now, FACTORY_UPDATE_MS),
                            cycle: (factory.cycle + 1) & 0x1,
                            ..factory
                        },
                    ),
                )
            }
        },
        State::Exploding1 => Action::Update(
            Entity::Factory(
                Factory {
                    next_update: later(now, FACTORY_UPDATE_MS / 2),
                    state: State::Exploding2,
                    ..factory
                },
            ),
        ),
        State::Exploding2 => Action::Update(
            Entity::Factory(
                Factory {
                    next_update: later(now, FACTORY_UPDATE_MS / 2),
                    state: State::Exploding3,
                    ..factory
                },
            ),
        ),
        State::Exploding3 => Action::Update(
            Entity::Factory(
                Factory {
                    next_update: later(now, FACTORY_UPDATE_MS / 2),
                    state: State::Dead,
                    ..factory
                },
            ),
        ),
        State::Dead => Action::Delete,
    }
}

/// What becomes of a factory at time `now`. A rat that it makes walks a
/// random five to fifteen steps before it turns.
pub fn update_factory(factory: &Factory, now: u32, make_rat: bool) -> (action: Action)
    requires
        factory.cycle <= 1,
    ensures
        now < factory.next_update ==> action == Action::Nothing,
        now >= factory.next_update ==> exists|distance: Size|
            5 <= distance <= 15 && action == #[trigger] factory.decision(now, make_rat, distance),
        action is Nothing || action is Delete || action is Update || action is New,
        now >= factory.next_update && factory.state != State::Alive ==> action == Entity::Factory(
            *factory,
        ).burnt(now),
        action matches Action::Update(entity) ==> entity matches Entity::Factory(next) && next.pos
            == factory.pos && next.cycle <= 1,
        action matches Action::New(entity) ==> entity matches Entity::Rat(rat) && rat.pos
            == factory.pos && rat.cycle == 0 && rat.dir == RIGHT,
{
    let distance: Size = random(5, 15);
    let action = update_factory_with(factory, now, make_rat, distance);
    proof {
        if now >= factory.next_update {
            assert(action == factory.decision(now, make_rat, distance));
        }
    }
    action
}

} // verus!
