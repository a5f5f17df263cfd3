//! The game session: its entities, its counters and the roll of the dice.

pub mod factories;
pub mod firing;
pub mod hits;
pub mod render;
pub mod session;
pub mod update;

pub use update::Action;

use vstd::prelude::*;
use rand::Rng;
use rand::distributions::Uniform;
use crate::entities::{Entity, EntityAction, EntityList, Kind};
use crate::entities::dir::{stop_dir, stop_dir_value, Direction, DOWN, LEFT, NONE, RIGHT, UP};
use crate::entities::player::Player;
use crate::config::{Timestamp, later, BRAT_KILL, BRAT_SPAWN_SECONDS, FACTORY_KILL, HALF_RATS_PER_FACTORY};
use crate::entities::position::{Dimensions, Position};
use crate::maze::{
    Maze, CELL_HEIGHT, CELL_WIDTH, MAX_CELL_COLS, MAX_CELL_ROWS, MAZE_CELL_COLS, MAZE_CELL_ROWS,
};
use crate::video::Size;
use crate::video::init::InitOptions;

verus! {

/// Where a session stands.
#[derive(Debug, Clone, Copy, PartialEq, Eq, Structural)]
pub enum GameState {
    Running,
    Paused,
    Finished,
    Quit,
    Restart,
}

/// A sound effect for the caller to play.
#[derive(Debug, Clone, Copy, PartialEq, Eq, Structural)]
pub enum Sound {
    Gunshot,
    Impact,
    ShortExplosion,
    LongExplosion,
}

/// The numbers that a session keeps.
#[derive(Debug, Clone, Copy, PartialEq, Eq, Structural)]
pub struct Counters {
    pub live_factories: usize,
    pub dead_factories: usize,
    pub live_rats: usize,
    pub dead_rats: usize,
    pub live_brats: usize,
    pub dead_brats: usize,
    /// Rats that the factories are still asked for.
    pub new_rats: usize,
    /// Baby rats that the rats are still asked for.
    pub new_brats: usize,
    /// Frames that the screen still flashes for.
    pub super_boom: usize,
    pub score: usize,
    /// What the player can still take: 100 at the start.
    pub health: usize,
    pub players_left: usize,
    pub players_dead: usize,
}

/// What a session holds, but for time, picture and sound.
pub struct GameContext {
    pub game_state: GameState,
    pub diagnostics: bool,
    /// Frames drawn so far.
    pub frames: u32,
    /// The maze with the entities drawn into it: the picture of the last
    /// frame.
    pub maze: Maze,
    /// The maze as it was generated, which the rules go by.
    pub pristine_maze: Maze,
    /// Where the firing keys that are held point.
    pub firing_dir: Direction,
    /// The time from which the player can fire again.
    pub next_fire_time: Timestamp,
    /// The time of the next wave of rats.
    pub next_rat_wave: Timestamp,
    /// The time of the next wave of baby rats.
    pub next_brat_wave: Timestamp,
    pub entities: EntityList,
    pub counters: Counters,
    /// What a rat's attack takes from the player's health: at most 100.
    pub rat_damage: usize,
    /// What a baby rat's attack takes from the player's health: at most
    /// 100.
    pub brat_damage: usize,
    /// Seconds that the finished game took.
    pub time: usize,
    /// Sound effects that wait to be played.
    pub sounds: Vec<Sound>,
}

/// How many entities of a kind a list holds.
pub open spec fn count_kind(entities: Seq<Entity>, kind: Kind) -> nat
    decreases entities.len(),
{
    if entities.len() == 0 {
        0
    } else {
        count_kind(entities.drop_last(), kind) + (if entities.last().kind_of() == kind {
            1nat
        } else {
            0nat
        })
    }
}

/// A list holds no more entities of a kind than it holds entities.
pub proof fn lemma_count_bound(entities: Seq<Entity>, kind: Kind)
    ensures
        count_kind(entities, kind) <= entities.len(),
    decreases entities.len(),
{
    if entities.len() > 0 {
        lemma_count_bound(entities.drop_last(), kind);
    }
}

/// A list of one entity holds one of its kind and none of any other.
pub proof fn lemma_count_one(entity: Entity, kind: Kind)
    ensures
        count_kind(seq![entity], kind) == (if entity.kind_of() == kind {
            1nat
        } else {
            0nat
        }),
{
    assert(seq![entity].drop_last() =~= Seq::<Entity>::empty());
    assert(count_kind(Seq::<Entity>::empty(), kind) == 0);
}

/// An entity that joins a list counts for its kind.
pub proof fn lemma_count_push(entities: Seq<Entity>, entity: Entity, kind: Kind)
    ensures
        count_kind(entities.push(entity), kind) == count_kind(entities, kind) + (
        if entity.kind_of() == kind {
            1nat
        } else {
            0nat
        }),
{
    assert(entities.push(entity).drop_last() =~= entities);
}

/// An entity that takes the place of another counts in its stead.
pub proof fn lemma_count_update(entities: Seq<Entity>, index: int, entity: Entity, kind: Kind)
    requires
        0 <= index < entities.len(),
    ensures
        count_kind(entities.update(index, entity), kind) + (if entities[index].kind_of() == kind {
            1nat
        } else {
            0nat
        }) == count_kind(entities, kind) + (if entity.kind_of() == kind {
            1nat
        } else {
            0nat
        }),
    decreases entities.len(),
{
    let updated = entities.update(index, entity);
    if index == entities.len() - 1 {
        assert(updated.drop_last() =~= entities.drop_last());
    } else {
        assert(updated.drop_last() =~= entities.drop_last().update(index, entity));
        lemma_count_update(entities.drop_last(), index, entity, kind);
    }
}

/// A list after the entity at `index` left it: the last entity has taken
/// its place.
pub open spec fn swap_removed(entities: Seq<Entity>, index: int) -> Seq<Entity> {
    entities.update(index, entities.last()).drop_last()
}

/// An entity that leaves a list counts no more.
pub proof fn lemma_count_swap_remove(entities: Seq<Entity>, index: int, kind: Kind)
    requires
        0 <= index < entities.len(),
    ensures
        count_kind(swap_removed(entities, index), kind) + (if entities[index].kind_of() == kind {
            1nat
        } else {
            0nat
        }) == count_kind(entities, kind),
{
    let rest = entities.drop_last();
    if index == entities.len() - 1 {
        assert(swap_removed(entities, index) =~= rest);
    } else {
        assert(swap_removed(entities, index) =~= rest.update(index, entities.last()));
        lemma_count_update(rest, index, entities.last(), kind);
    }
}

/// The part of a session that a frame of the simulation changes: the
/// entities, the numbers, and the sounds that wait to be played.
pub struct Scene {
    pub entities: Seq<Entity>,
    pub counters: Counters,
    pub sounds: Seq<Sound>,
}

impl Scene {
    /// The player comes first and is the only one; everything is on the
    /// grid.
    pub open spec fn wf(self, dims: Dimensions) -> bool {
        &&& self.entities.len() >= 1
        &&& self.entities[0] is Player
        &&& forall|i: int| 0 <= i < self.entities.len() ==> (#[trigger] self.entities[i]).wf(dims)
        &&& forall|i: int| 1 <= i < self.entities.len() ==> !((#[trigger] self.entities[i]) is Player)
    }

    /// The numbers of live rats and of live factories are the numbers of
    /// rats and of factories in the game, and there are no more live
    /// baby rats than entities.
    pub open spec fn counted(self) -> bool {
        &&& self.counters.live_rats == count_kind(self.entities, Kind::Rat)
        &&& self.counters.live_factories == count_kind(self.entities, Kind::Factory)
        &&& self.counters.live_brats <= self.entities.len()
    }

    /// The numbers of the living are the numbers of rats, of baby rats
    /// and of factories in the game.
    pub open spec fn tallied(self) -> bool {
        &&& self.counters.live_rats == count_kind(self.entities, Kind::Rat)
        &&& self.counters.live_brats == count_kind(self.entities, Kind::Brat)
        &&& self.counters.live_factories == count_kind(self.entities, Kind::Factory)
    }

    /// The list of the entities and the counts of the dead can each
    /// grow by `more` without leaving the machine's numbers: a decision
    /// adds at most one to each.
    pub open spec fn room_for(self, more: int) -> bool {
        &&& self.entities.len() + more <= usize::MAX
        &&& self.counters.dead_rats + more <= usize::MAX
        &&& self.counters.dead_brats + more <= usize::MAX
        &&& self.counters.dead_factories + more <= usize::MAX
        &&& self.counters.players_dead + more <= usize::MAX
    }

    /// The numbers leave room for a step of the simulation. Every entity
    /// takes one decision, which adds at most one entity and one to a
    /// count of the dead; then every bullet, of at most twice as many
    /// entities, scores at most a factory and costs at most one life.
    pub open spec fn room_for_step(self) -> bool {
        &&& self.room_for(self.entities.len() as int)
        &&& self.counters.score + 2 * FACTORY_KILL * self.entities.len() <= usize::MAX
        &&& self.counters.players_dead + 3 * self.entities.len() <= usize::MAX
    }

    /// The numbers leave room for a frame: for a step of the simulation,
    /// for a shot, for the waves that are called for, and for the baby
    /// rats that are scored when the game ends.
    pub open spec fn room_for_frame(self) -> bool {
        &&& self.room_for_step()
        &&& HALF_RATS_PER_FACTORY * (2 * self.entities.len() + 1) <= usize::MAX
        &&& 2 * self.entities.len() + 11 <= usize::MAX
        &&& self.counters.score + 2 * FACTORY_KILL * self.entities.len() + BRAT_KILL * (2
            * self.entities.len() + 1) <= usize::MAX
        &&& self.counters.dead_brats + 3 * self.entities.len() + 1 <= usize::MAX
    }

    /// What the room for a step and for a frame comes to in numbers.
    pub proof fn lemma_room(self)
        ensures
            self.room_for_step() <==> self.room_for(self.entities.len() as int)
                && self.counters.score + 500 * self.entities.len() <= usize::MAX
                && self.counters.players_dead + 3 * self.entities.len() <= usize::MAX,
            self.room_for_frame() <==> self.room_for_step() && 10 * self.entities.len() + 5
                <= usize::MAX && 2 * self.entities.len() + 11 <= usize::MAX && self.counters.score
                + 550 * self.entities.len() + 25 <= usize::MAX && self.counters.dead_brats + 3
                * self.entities.len() + 1 <= usize::MAX,
    {
        let n = self.entities.len() as int;
        assert(FACTORY_KILL == 250 && BRAT_KILL == 25 && HALF_RATS_PER_FACTORY == 5);
        assert(2 * FACTORY_KILL * n == 500 * n) by (nonlinear_arith)
            requires
                FACTORY_KILL == 250,
        ;
        assert(BRAT_KILL * (2 * n + 1) == 50 * n + 25) by (nonlinear_arith)
            requires
                BRAT_KILL == 25,
        ;
        assert(HALF_RATS_PER_FACTORY * (2 * n + 1) == 10 * n + 5) by (nonlinear_arith)
            requires
                HALF_RATS_PER_FACTORY == 5,
        ;
    }
}

/// Rows of maze cells where none are chosen.
pub const DEFAULT_MAZE_HEIGHT: Size = 15;

/// Columns of maze cells where none are chosen.
pub const DEFAULT_MAZE_WIDTH: Size = 15;

/// The density of the maze where none is chosen.
pub const DEFAULT_DENSITY: usize = 75;

/// The number of factories where none is chosen.
pub const DEFAULT_FACTORIES: usize = 5;

/// The most factories that a game starts with.
pub const MAX_FACTORIES: usize = 100;

/// The lives that a game starts with.
pub const LIVES: usize = 3;

/// The health that a game starts with.
pub const FULL_HEALTH: usize = 100;

/// Rows of maze cells for a screen of `video_rows` rows of characters:
/// as many as were chosen, and as many as the screen shows under its two
/// status lines if those are more.
pub open spec fn maze_cells_high(opts: InitOptions, video_rows: Size) -> int {
    let shown = (if video_rows >= 2 {
        video_rows - 2
    } else {
        0
    }) / (MAZE_CELL_ROWS as int);
    let chosen: int = match opts.maze_height {
        Some(rows) => rows as int,
        None => DEFAULT_MAZE_HEIGHT as int,
    };
    if shown >= chosen {
        shown
    } else {
        chosen
    }
}

/// Columns of maze cells for a screen of `video_cols` columns of
/// characters: as many as were chosen, and as many as the screen shows if
/// those are more.
pub open spec fn maze_cells_wide(opts: InitOptions, video_cols: Size) -> int {
    let shown = video_cols as int / (MAZE_CELL_COLS as int);
    let chosen: int = match opts.maze_width {
        Some(cols) => cols as int,
        None => DEFAULT_MAZE_WIDTH as int,
    };
    if shown >= chosen {
        shown
    } else {
        chosen
    }
}

/// The number of factories to start with: the number chosen, but at
/// least one and at most a hundred.
pub open spec fn factories_wanted(opts: InitOptions) -> int {
    let chosen: int = match opts.factories {
        Some(count) => count as int,
        None => DEFAULT_FACTORIES as int,
    };
    if chosen < 1 {
        1
    } else if chosen > MAX_FACTORIES {
        MAX_FACTORIES as int
    } else {
        chosen
    }
}

/// The density to make the maze with.
pub open spec fn density_wanted(opts: InitOptions) -> usize {
    match opts.density {
        Some(density) => density,
        None => DEFAULT_DENSITY,
    }
}

impl Counters {
    /// The numbers at the start of a game.
    pub open spec fn fresh() -> Counters {
        Counters {
            live_factories: 0,
            dead_factories: 0,
            live_rats: 0,
            dead_rats: 0,
            live_brats: 0,
            dead_brats: 0,
            new_rats: 0,
            new_brats: 0,
            super_boom: 0,
            score: 0,
            health: FULL_HEALTH,
            players_left: LIVES,
            players_dead: 0,
        }
    }

    /// The numbers at the start of a game.
    pub fn new() -> (counters: Counters)
        ensures
            counters == Counters::fresh(),
    {
        Counters {
            live_factories: 0,
            dead_factories: 0,
            live_rats: 0,
            dead_rats: 0,
            live_brats: 0,
            dead_brats: 0,
            new_rats: 0,
            new_brats: 0,
            super_boom: 0,
            score: 0,
            health: FULL_HEALTH,
            players_left: LIVES,
            players_dead: 0,
        }
    }
}

/// The number of factories to start with.
pub fn clamp_factories(opts: InitOptions) -> (count: usize)
    ensures
        count == factories_wanted(opts),
        1 <= count <= MAX_FACTORIES,
{
    let chosen: usize = match opts.factories {
        Some(count) => count,
        None => DEFAULT_FACTORIES,
    };
    if chosen < 1 {
        1
    } else if chosen > MAX_FACTORIES {
        MAX_FACTORIES
    } else {
        chosen
    }
}

impl GameContext {
    /// Whether a game for these choices on this screen can be made: the
    /// maze has at least two rows and two columns of cells, and no more
    /// than a coordinate can count the characters of.
    pub open spec fn fits(opts: InitOptions, video_rows: Size, video_cols: Size) -> bool {
        &&& 2 <= maze_cells_high(opts, video_rows) <= MAX_CELL_ROWS
        &&& 2 <= maze_cells_wide(opts, video_cols) <= MAX_CELL_COLS
    }

    /// A new game at time `now`, for a screen of `video_rows` by
    /// `video_cols` characters: a fresh maze, the player at its start,
    /// and factories seeded at random. `None` where the maze would be too
    /// small or too large.
    pub fn create(
        opts: InitOptions,
        rat_damage: usize,
        brat_damage: usize,
        video_rows: Size,
        video_cols: Size,
        now: u32,
    ) -> (out: Option<GameContext>)
        requires
        ensures
            out is Some <==> Self::fits(opts, video_rows, video_cols),
            out matches Some(context) ==> {
                &&& context.wf()
                &&& context.scene().tallied()
                &&& context.scene().room_for_frame()
                &&& context.game_state == GameState::Running
                &&& !context.diagnostics
                &&& context.frames == 0
                &&& context.pristine_maze.cell_rows == maze_cells_high(opts, video_rows)
                &&& context.pristine_maze.cell_cols == maze_cells_wide(opts, video_cols)
                &&& context.maze.buffer.blank()
                &&& context.firing_dir == NONE
                &&& context.next_fire_time == now
                &&& context.next_rat_wave == now
                &&& context.next_brat_wave == now + BRAT_SPAWN_SECONDS * 1000
                &&& context.rat_damage == (if rat_damage <= 100 {
                    rat_damage
                } else {
                    100
                })
                &&& context.brat_damage == (if brat_damage <= 100 {
                    brat_damage
                } else {
                    100
                })
                &&& context.time == 0
                &&& context.sounds@.len() == 0
                &&& context.entities@[0] == Entity::Player(Player::fresh(now))
                &&& context.entities@.len() <= 1 + factories_wanted(opts)
                &&& context.seeded_from(1, now)
                &&& context.counters == (Counters {
                    live_factories: (context.entities@.len() - 1) as usize,
                    ..Counters::fresh()
                })
                &&& context.pristine_maze.generated(density_wanted(opts))
            },
    {
        assert(CELL_HEIGHT == 10 && CELL_WIDTH == 17 && MAZE_CELL_ROWS == 9 && MAZE_CELL_COLS == 16);
        assert(BRAT_SPAWN_SECONDS == 45);
        let shown_rows: Size = (if video_rows >= 2 {
            video_rows - 2
        } else {
            0
        }) / MAZE_CELL_ROWS;
        let chosen_rows: Size = match opts.maze_height {
            Some(rows) => rows,
            None => DEFAULT_MAZE_HEIGHT,
        };
        let maze_rows: Size = if shown_rows >= chosen_rows {
            shown_rows
        } else {
            chosen_rows
        };
        let shown_cols: Size = video_cols / MAZE_CELL_COLS;
        let chosen_cols: Size = match opts.maze_width {
            Some(cols) => cols,
            None => DEFAULT_MAZE_WIDTH,
        };
        let maze_cols: Size = if shown_cols >= chosen_cols {
            shown_cols
        } else {
            chosen_cols
        };
        if maze_rows < 2 || maze_rows > MAX_CELL_ROWS || maze_cols < 2 || maze_cols > MAX_CELL_COLS {
            return None;
        }
        let mut pristine_maze = Maze::new(maze_rows, maze_cols);
        pristine_maze.generate(
            match opts.density {
                Some(density) => density,
                None => DEFAULT_DENSITY,
            },
        );
        let player = Entity::Player(Player::new(now));
        let mut entities: EntityList = Vec::new();
        entities.push(player);
        let mut context = GameContext {
            game_state: GameState::Running,
            diagnostics: false,
            frames: 0,
            maze: Maze::new(maze_rows, maze_cols),
            pristine_maze,
            firing_dir: NONE,
            next_fire_time: now as u64,
            next_rat_wave: now as u64,
            next_brat_wave: later(now, (BRAT_SPAWN_SECONDS as u32) * 1000),
            entities,
            counters: Counters::new(),
            rat_damage: if rat_damage <= 100 {
                rat_damage
            } else {
                100
            },
            brat_damage: if brat_damage <= 100 {
                brat_damage
            } else {
                100
            },
            time: 0,
            sounds: Vec::new(),
        };
        proof {
            lemma_count_one(player, Kind::Rat);
            lemma_count_one(player, Kind::Brat);
            lemma_count_one(player, Kind::Factory);
            assert(context.entities@ =~= seq![player]);
        }
        context.generate_factories(clamp_factories(opts), now);
        proof {
            context.scene().lemma_room();
        }
        Some(context)
    }

    /// Whether this is the session `before` started anew at time `now`:
    /// running, the numbers as at the start but for the factories, only
    /// the player left of the entities and then the factories that were
    /// seeded, a fresh maze of the same size, which has no wall at
    /// density 0, and all else as it was.
    pub open spec fn renewed(&self, before: &GameContext, opts: InitOptions, now: u32) -> bool {
        &&& self.wf()
        &&& self.scene().tallied()
        &&& self.scene().room_for_frame()
        &&& *self == (GameContext {
            game_state: GameState::Running,
            pristine_maze: self.pristine_maze,
            entities: self.entities,
            counters: self.counters,
            ..*before
        })
        &&& self.pristine_maze.cell_rows == before.pristine_maze.cell_rows
        &&& self.pristine_maze.cell_cols == before.pristine_maze.cell_cols
        &&& self.pristine_maze.generated(density_wanted(opts))
        &&& self.entities@[0] == before.entities@[0]
        &&& self.entities@.len() <= 1 + factories_wanted(opts)
        &&& self.seeded_from(1, now)
        &&& self.counters == (Counters {
            live_factories: (self.entities@.len() - 1) as usize,
            ..Counters::fresh()
        })
    }

    /// Starts the game anew at time `now`: the numbers as at the start,
    /// only the player left of the entities, a fresh maze, and factories
    /// seeded at random. The player stays as it is.
    pub fn new_game(&mut self, opts: InitOptions, now: u32)
        requires
            old(self).wf(),
        ensures
            final(self).renewed(old(self), opts, now),
    {
        let ghost player = self.entities@[0];
        self.game_state = GameState::Running;
        self.counters = Counters::new();
        self.entities.truncate(1);
        proof {
            assert(self.entities@ =~= seq![player]);
            lemma_count_one(player, Kind::Rat);
            lemma_count_one(player, Kind::Brat);
            lemma_count_one(player, Kind::Factory);
        }
        self.pristine_maze.generate(
            match opts.density {
                Some(density) => density,
                None => DEFAULT_DENSITY,
            },
        );
        self.generate_factories(clamp_factories(opts), now);
        proof {
            self.scene().lemma_room();
        }
    }

    /// The part of the session that a frame of the simulation changes.
    pub open spec fn scene(&self) -> Scene {
        Scene { entities: self.entities@, counters: self.counters, sounds: self.sounds@ }
    }

    /// The size of the maze.
    pub open spec fn dims(&self) -> Dimensions {
        self.pristine_maze.dimensions
    }

    /// The two mazes are of one size, the entities are on the grid with
    /// the player first, and the numbers of the living are right; that
    /// of the baby rats, which are written off when a game ends, while
    /// the game runs or is paused.
    pub open spec fn wf(&self) -> bool {
        &&& self.pristine_maze.wf()
        &&& self.maze.wf()
        &&& self.maze.cell_rows == self.pristine_maze.cell_rows
        &&& self.maze.cell_cols == self.pristine_maze.cell_cols
        &&& self.scene().wf(self.dims())
        &&& self.rat_damage <= 100
        &&& self.brat_damage <= 100
        &&& self.scene().counted()
        &&& (self.game_state == GameState::Running || self.game_state == GameState::Paused)
            ==> self.scene().tallied()
    }

    /// Whether the numbers leave room for a frame.
    pub fn has_room(&self) -> (room: bool)
        ensures
            room == self.scene().room_for_frame(),
    {
        proof {
            self.scene().lemma_room();
        }
        let most: u128 = usize::MAX as u128;
        let entities: u128 = self.entities.len() as u128;
        let score: u128 = self.counters.score as u128;
        let lives: u128 = self.counters.players_dead as u128;
        let brats: u128 = self.counters.dead_brats as u128;
        let others: u128 = if self.counters.dead_rats >= self.counters.dead_factories {
            self.counters.dead_rats as u128
        } else {
            self.counters.dead_factories as u128
        };
        10 * entities + 5 <= most && 2 * entities + 11 <= most && others + entities <= most
            && score + 550 * entities + 25 <= most && lives + 3 * entities <= most && brats + 3
            * entities + 1 <= most
    }

    /// The player.
    pub open spec fn player(&self) -> Player {
        self.entities@[0]->Player_0
    }

    /// The player.
    pub fn get_player(&self) -> (player: &Player)
        requires
            self.wf(),
        ensures
            *player == self.player(),
            player.wf(self.dims()),
    {
        match &self.entities[0] {
            Entity::Player(player) => player,
            _ => vstd::pervasive::unreached(),
        }
    }

    /// The player, to be changed in its place.
    pub fn get_player_mut(&mut self) -> (player: &mut Player)
        requires
            old(self).wf(),
        ensures
            *player == old(self).player(),
            *final(self) == (GameContext {
                entities: final(self).entities,
                ..*old(self)
            }),
            final(self).entities@ == old(self).entities@.update(0, Entity::Player(*final(player))),
    {
        match &mut self.entities[0] {
            Entity::Player(player) => player,
            _ => vstd::pervasive::unreached(),
        }
    }

    /// Where the player is.
    pub fn player_position(&self) -> (pos: Position)
        requires
            self.wf(),
        ensures
            pos == self.player().pos,
            pos.within(self.dims()),
    {
        self.get_player().pos
    }

    /// A movement key went down: the player moves that way too, and
    /// will face there when it stops.
    pub fn start(&mut self, dir: Direction)
        requires
            old(self).wf(),
        ensures
            final(self).wf(),
            final(self).entities@ == old(self).entities@.update(
                0,
                Entity::Player(
                    Player {
                        dir: old(self).player().dir | dir,
                        stop_dir: stop_dir_value(dir),
                        ..old(self).player()
                    },
                ),
            ),
            final(self).unchanged_but_entities(old(self)),
    {
        let ghost before = self.entities@;
        let player = self.get_player_mut();
        player.dir |= dir;
        player.stop_dir = stop_dir(dir);
        let ghost player = Entity::Player(self.player());
        proof {
            lemma_count_bound(before, Kind::Brat);
            lemma_count_update(before, 0, player, Kind::Rat);
            lemma_count_update(before, 0, player, Kind::Brat);
            lemma_count_update(before, 0, player, Kind::Factory);
        }
    }

    /// A movement key went up: the player moves that way no more. With
    /// no direction given, the player stops.
    pub fn stop(&mut self, dir: Direction)
        requires
            old(self).wf(),
        ensures
            final(self).wf(),
            final(self).entities@ == old(self).entities@.update(
                0,
                Entity::Player(
                    Player {
                        dir: if dir == NONE {
                            NONE
                        } else {
                            old(self).player().dir & !dir
                        },
                        ..old(self).player()
                    },
                ),
            ),
            final(self).unchanged_but_entities(old(self)),
    {
        let ghost before = self.entities@;
        let player = self.get_player_mut();
        player.dir = if dir == NONE {
            dir
        } else {
            player.dir & !dir
        };
        let ghost player = Entity::Player(self.player());
        proof {
            lemma_count_bound(before, Kind::Brat);
            lemma_count_update(before, 0, player, Kind::Rat);
            lemma_count_update(before, 0, player, Kind::Brat);
            lemma_count_update(before, 0, player, Kind::Factory);
        }
    }

    /// Whether all of the session but its entities is as in `before`.
    pub open spec fn unchanged_but_entities(&self, before: &GameContext) -> bool {
        &&& self.game_state == before.game_state
        &&& self.diagnostics == before.diagnostics
        &&& self.frames == before.frames
        &&& self.maze == before.maze
        &&& self.pristine_maze == before.pristine_maze
        &&& self.firing_dir == before.firing_dir
        &&& self.next_fire_time == before.next_fire_time
        &&& self.next_rat_wave == before.next_rat_wave
        &&& self.next_brat_wave == before.next_brat_wave
        &&& self.counters == before.counters
        &&& self.rat_damage == before.rat_damage
        &&& self.brat_damage == before.brat_damage
        &&& self.time == before.time
        &&& self.sounds == before.sounds
    }

    /// Whether all of the session but its scene (the entities, the
    /// numbers and the sounds) is as in `before`.
    pub open spec fn same_frame(&self, before: &GameContext) -> bool {
        &&& self.game_state == before.game_state
        &&& self.diagnostics == before.diagnostics
        &&& self.frames == before.frames
        &&& self.maze == before.maze
        &&& self.pristine_maze == before.pristine_maze
        &&& self.firing_dir == before.firing_dir
        &&& self.next_fire_time == before.next_fire_time
        &&& self.next_rat_wave == before.next_rat_wave
        &&& self.next_brat_wave == before.next_brat_wave
        &&& self.rat_damage == before.rat_damage
        &&& self.brat_damage == before.brat_damage
        &&& self.time == before.time
    }
}

/// A number drawn at random between `low` and `high`, both included.
///
/// Calls `rand::thread_rng`, `rand::distributions::Uniform::new_inclusive`
/// and `rand::Rng::sample`. Not proved: that the number lies in the range,
/// which is what rand documents of a uniform distribution over a closed
/// range. `new_inclusive` panics on an empty range, which `requires`
/// leaves out.
#[verifier::external_body]
pub fn random(low: u16, high: u16) -> (n: u16)
    requires
        low <= high,
    ensures
        low <= n <= high,
{
    rand::thread_rng().sample(Uniform::new_inclusive(low, high))
}

/// The direction that a roll of a four-sided die stands for.
pub open spec fn direction_of_roll(roll: u16) -> Direction {
    if roll == 0 {
        UP
    } else if roll == 1 {
        DOWN
    } else if roll == 2 {
        LEFT
    } else {
        RIGHT
    }
}

/// Whether `dir` is one of the four single directions.
pub open spec fn cardinal(dir: Direction) -> bool {
    dir == UP || dir == DOWN || dir == LEFT || dir == RIGHT
}

/// The direction that a roll of a four-sided die stands for: 0 is up, 1
/// down, 2 left, and anything else right.
pub fn direction_from_roll(roll: u16) -> (dir: Direction)
    ensures
        dir == direction_of_roll(roll),
        cardinal(dir),
{
    if roll == 0 {
        UP
    } else if roll == 1 {
        DOWN
    } else if roll == 2 {
        LEFT
    } else {
        RIGHT
    }
}

/// One of the four single directions, each as likely as the others.
pub fn random_direction() -> (dir: Direction)
    ensures
        cardinal(dir),
{
    direction_from_roll(random(0, 3))
}

/// Whether a roll of a hundred-sided die, counted from 0, is heads: the
/// upper half is.
pub fn coin_from_roll(roll: u16) -> (heads: bool)
    ensures
        heads == (roll >= 50),
{
    roll >= 50
}

/// Heads or tails, each as likely as the other.
pub fn flip_a_coin() -> bool {
    coin_from_roll(random(0, 99))
}

} // verus!
