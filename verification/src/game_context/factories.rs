//! Seeding the maze with factories.

use vstd::prelude::*;
use crate::config::{FACTORY_GAP_SQUARED, FACTORY_PLACEMENT_ATTEMPTS, FACTORY_PLAYER_GAP_SQUARED};
use crate::entities::{Entity, Kind, State};
use crate::entities::dir::RIGHT;
use crate::entities::factory::Factory;
use crate::entities::position::{Dimensions, Position};
use crate::game_context::{lemma_count_bound, lemma_count_push, random, Counters, GameContext};
use crate::maze::{CELL_HEIGHT, CELL_WIDTH, MAZE_CELL_COLS, MAZE_CELL_ROWS};

verus! {

/// Where the player starts: in the middle of the first cell of the maze.
pub open spec fn player_start() -> Position {
    Position { row: 4, col: 8 }
}

impl GameContext {
    /// Whether the factories among the first `n` entities all keep their
    /// distance from `pos`.
    pub open spec fn clear_of_factories(&self, pos: Position, n: int) -> bool {
        forall|i: int|
            0 <= i < n ==> ((#[trigger] self.entities@[i]) matches Entity::Factory(factory)
                ==> pos.distance_squared(factory.pos, self.dims()) >= FACTORY_GAP_SQUARED)
    }

    /// Whether a factory can be put at `pos`: the four cells of its
    /// square are free of walls, the place where the player starts is at
    /// least fifteen cells away, and every other factory at least five.
    pub open spec fn placeable(&self, pos: Position) -> bool {
        &&& !self.pristine_maze.wall_in_quad(pos.row as int, pos.col as int)
        &&& pos.distance_squared(player_start(), self.dims()) >= FACTORY_PLAYER_GAP_SQUARED
        &&& self.clear_of_factories(pos, self.entities@.len() as int)
    }

    /// The factory that is put at `pos` at time `now`, facing right and
    /// showing the frame `cycle` of its animation.
    pub open spec fn planted(pos: Position, cycle: u8, now: u32) -> Entity {
        Entity::Factory(Factory {
            next_update: now as u64,
            pos,
            dir: RIGHT,
            state: State::Alive,
            cycle,
        })
    }

    /// Puts a factory at `pos` if one can be put there, and says whether
    /// it did.
    pub fn place_factory(&mut self, pos: Position, cycle: u8, now: u32) -> (placed: bool)
        requires
            old(self).wf(),
            old(self).scene().tallied(),
            pos.within(old(self).dims()),
            cycle <= 1,
            old(self).entities@.len() < usize::MAX,
        ensures
            final(self).wf(),
            final(self).scene().tallied(),
            placed == old(self).placeable(pos),
            !placed ==> *final(self) == *old(self),
            placed ==> *final(self) == (GameContext {
                entities: final(self).entities,
                counters: Counters {
                    live_factories: (old(self).counters.live_factories + 1) as usize,
                    ..old(self).counters
                },
                ..*old(self)
            }),
            placed ==> final(self).entities@ == old(self).entities@.push(
                Self::planted(pos, cycle, now),
            ),
    {
        let dims: Dimensions = self.pristine_maze.dimensions;
        assert(CELL_HEIGHT == 10 && CELL_WIDTH == 17 && MAZE_CELL_ROWS == 9 && MAZE_CELL_COLS == 16);
        if self.pristine_maze.is_wall_quad(pos.row, pos.col) {
            return false;
        }
        let start = Position { row: MAZE_CELL_ROWS / 2, col: MAZE_CELL_COLS / 2 };
        if pos.distance_squared_to(start, dims) < FACTORY_PLAYER_GAP_SQUARED {
            return false;
        }
        let count: usize = self.entities.len();
        let mut index: usize = 0;
        while index < count
            invariant
                self.wf(),
                self.scene().tallied(),
                *self == *old(self),
                dims == self.dims(),
                pos.within(dims),
                count == self.entities@.len(),
                index <= count,
                self.clear_of_factories(pos, index as int),
            decreases count - index,
        {
            match &self.entities[index] {
                Entity::Factory(factory) => {
                    assert(self.entities@[index as int].wf(dims));
                    if pos.distance_squared_to(factory.pos, dims) < FACTORY_GAP_SQUARED {
                        return false;
                    }
                },
                _ => {},
            }
            index += 1;
        }
        let factory = Entity::Factory(
            Factory { next_update: now as u64, pos, dir: RIGHT, state: State::Alive, cycle },
        );
        proof {
            lemma_count_push(self.entities@, factory, Kind::Rat);
            lemma_count_push(self.entities@, factory, Kind::Brat);
            lemma_count_push(self.entities@, factory, Kind::Factory);
            lemma_count_bound(self.entities@, Kind::Factory);
        }
        self.entities.push(factory);
        self.counters.live_factories += 1;
        true
    }

    /// Whether the entities from `from` on are live factories that were
    /// put at time `now`, one after another, each where it could be put at
    /// the time.
    pub open spec fn seeded_from(&self, from: int, now: u32) -> bool {
        forall|i: int|
            from <= i < self.entities@.len() ==> {
                &&& (#[trigger] self.entities@[i]) matches Entity::Factory(factory)
                &&& factory.state == State::Alive
                &&& factory.next_update == now
                &&& factory.dir == RIGHT
                &&& factory.cycle <= 1
                &&& !self.pristine_maze.wall_in_quad(factory.pos.row as int, factory.pos.col as int)
                &&& factory.pos.distance_squared(player_start(), self.dims())
                    >= FACTORY_PLAYER_GAP_SQUARED
                &&& self.clear_of_factories(factory.pos, i)
            }
    }

    /// Whether the entities are those of `before` and, after them,
    /// factories that were put at time `now`.
    pub open spec fn seeded(&self, before: &GameContext, now: u32) -> bool {
        &&& before.entities@.len() <= self.entities@.len()
        &&& self.entities@.take(before.entities@.len() as int) == before.entities@
        &&& self.seeded_from(before.entities@.len() as int, now)
    }

    /// Seeds the maze with up to `count` factories at random places where
    /// they can be put. A place is drawn at random up to a fixed number
    /// of times; the factories that have found no place by then are left
    /// out.
    pub fn generate_factories(&mut self, count: usize, now: u32)
        requires
            old(self).wf(),
            old(self).scene().tallied(),
            old(self).entities@.len() + count < usize::MAX,
        ensures
            final(self).wf(),
            final(self).scene().tallied(),
            final(self).seeded(old(self), now),
            final(self).entities@.len() <= old(self).entities@.len() + count,
            *final(self) == (GameContext {
                entities: final(self).entities,
                counters: Counters {
                    live_factories: (old(self).counters.live_factories + final(self).entities@.len()
                        - old(self).entities@.len()) as usize,
                    ..old(self).counters
                },
                ..*old(self)
            }),
    {
        let rows: u16 = self.pristine_maze.rows();
        let cols: u16 = self.pristine_maze.cols();
        let mut generated: usize = 0;
        let mut attempts: u32 = 0;
        proof {
            assert(self.entities@.take(self.entities@.len() as int) =~= self.entities@);
            lemma_count_bound(self.entities@, Kind::Factory);
        }
        while generated < count && attempts < FACTORY_PLACEMENT_ATTEMPTS
            invariant
                self.wf(),
                self.scene().tallied(),
                rows == self.dims().rows,
                cols == self.dims().cols,
                generated <= count,
                old(self).entities@.len() + count < usize::MAX,
                old(self).counters.live_factories <= old(self).entities@.len(),
                self.entities@.len() == old(self).entities@.len() + generated,
                self.seeded(old(self), now),
                *self == (GameContext {
                    entities: self.entities,
                    counters: Counters {
                        live_factories: (old(self).counters.live_factories + generated) as usize,
                        ..old(self).counters
                    },
                    ..*old(self)
                }),
            decreases FACTORY_PLACEMENT_ATTEMPTS - attempts,
        {
            let row: u16 = random(0, rows - 1);
            let col: u16 = random(0, cols - 1);
            let frame: u16 = random(0, 1);
            let pos = Position { row, col };
            let ghost before = self.entities@;
            if self.place_factory(pos, frame as u8, now) {
                generated += 1;
                proof {
                    assert(self.entities@.take(old(self).entities@.len() as int) =~= before.take(
                        old(self).entities@.len() as int,
                    ));
                    assert forall|i: int|
                        old(self).entities@.len() <= i < self.entities@.len() implies {
                        &&& (#[trigger] self.entities@[i]) matches Entity::Factory(factory)
                        &&& factory.state == State::Alive
                        &&& factory.next_update == now
                        &&& factory.dir == RIGHT
                        &&& factory.cycle <= 1
                        &&& !self.pristine_maze.wall_in_quad(
                            factory.pos.row as int,
                            factory.pos.col as int,
                        )
                        &&& factory.pos.distance_squared(player_start(), self.dims())
                            >= FACTORY_PLAYER_GAP_SQUARED
                        &&& self.clear_of_factories(factory.pos, i)
                    } by {
                        if i < before.len() {
                            assert(self.entities@[i] == before[i]);
                        }
                    }
                }
            }
            attempts += 1;
        }
    }
}

} // verus!
