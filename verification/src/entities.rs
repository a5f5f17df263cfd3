//! The entity model: positions on the torus, the five kinds of entity and
//! what they have in common.

pub mod brat;
pub mod bullet;
pub mod dir;
pub mod factory;
pub mod player;
pub mod position;
pub mod rat;

use vstd::prelude::*;
use crate::entities::brat::Brat;
use crate::entities::bullet::Bullet;
use crate::entities::factory::Factory;
use crate::entities::player::Player;
use crate::entities::position::{Dimensions, Position};
use crate::config::{
    Timestamp, BRAT_UPDATE_MS, BULLET_UPDATE_MS, FACTORY_UPDATE_MS, PLAYER_UPDATE_MS, RAT_UPDATE_MS,
};
use crate::entities::dir::Direction;
use crate::entities::rat::Rat;
use crate::game_context::{cardinal, random, random_direction, Action};
use crate::maze::Maze;
use crate::video::Size;
use crate::video::wrapping::wrap_inc;

verus! {

/// Where an entity stands between life and death. An explosion runs
/// through its three frames in order and ends in `Dead`.
#[derive(Debug, Clone, Copy, PartialEq, Eq, Structural)]
pub enum State {
    Alive,
    Exploding1,
    Exploding2,
    Exploding3,
    Dead,
}

impl State {
    /// How far along the way from `Alive` (0) to `Dead` (4) the state is.
    pub open spec fn rank(self) -> nat {
        match self {
            State::Alive => 0,
            State::Exploding1 => 1,
            State::Exploding2 => 2,
            State::Exploding3 => 3,
            State::Dead => 4,
        }
    }

    /// The state that follows a frame of the explosion.
    pub open spec fn after(self) -> State {
        match self {
            State::Alive => State::Alive,
            State::Exploding1 => State::Exploding2,
            State::Exploding2 => State::Exploding3,
            State::Exploding3 => State::Dead,
            State::Dead => State::Dead,
        }
    }

    /// Whether the entity is in one of the three frames of its explosion.
    pub open spec fn exploding(self) -> bool {
        self == State::Exploding1 || self == State::Exploding2 || self == State::Exploding3
    }
}

/// Whether `pos` is one of the four cells of the square whose top left
/// corner is `corner`; the square wraps round the edges.
pub open spec fn in_quad(corner: Position, pos: Position, dims: Dimensions) -> bool {
    &&& pos.row == corner.row || pos.row == wrap_inc(corner.row as int, dims.rows as int)
    &&& pos.col == corner.col || pos.col == wrap_inc(corner.col as int, dims.cols as int)
}

/// A stretch of wandering: a way to go and the steps to take that way.
#[derive(Debug, Clone, Copy, PartialEq, Eq, Structural)]
pub struct Wander {
    pub dir: Direction,
    pub distance: Size,
}

impl Wander {
    /// One of the four single directions, and from `low` to `high` steps.
    pub open spec fn within(&self, low: Size, high: Size) -> bool {
        cardinal(self.dir) && low <= self.distance <= high
    }
}

/// A random stretch of wandering: any of the four single directions, and
/// from `low` to `high` steps.
pub fn random_wander(low: Size, high: Size) -> (wander: Wander)
    requires
        low <= high,
    ensures
        wander.within(low, high),
{
    let dir: Direction = random_direction();
    let distance: Size = random(low, high);
    Wander { dir, distance }
}

/// What every entity can do: be hit, and blow up.
pub trait EntityAction: Sized {
    /// Whether a shot at `pos` hits the entity.
    spec fn hits(&self, pos: Position, dims: Dimensions) -> bool;

    /// The entity at the start of its explosion.
    spec fn exploded(&self) -> Self;

    /// Whether a shot at `pos` hits the entity: only the living are hit,
    /// on the cells that they stand on.
    fn hit(&self, pos: Position, dims: Dimensions) -> (hit: bool)
        requires
            dims.wf(),
        ensures
            hit == self.hits(pos, dims),
    ;

    /// Starts the explosion of the entity.
    fn explode(&mut self)
        ensures
            *final(self) == old(self).exploded(),
    ;
}

/// One of the five kinds of things in the maze.
#[derive(Debug, Clone, Copy, PartialEq, Eq, Structural)]
pub enum Entity {
    Player(Player),
    Rat(Rat),
    Brat(Brat),
    Factory(Factory),
    Bullet(Bullet),
}

/// The five kinds of entity.
#[derive(Debug, Clone, Copy, PartialEq, Eq, Structural)]
pub enum Kind {
    Player,
    Rat,
    Brat,
    Factory,
    Bullet,
}

/// The entities of a game; the player comes first.
pub type EntityList = Vec<Entity>;

impl Entity {
    /// Where the entity is.
    pub open spec fn pos(&self) -> Position {
        match self {
            Entity::Player(player) => player.pos,
            Entity::Rat(rat) => rat.pos,
            Entity::Brat(brat) => brat.pos,
            Entity::Factory(factory) => factory.pos,
            Entity::Bullet(bullet) => bullet.pos,
        }
    }

    /// Where the entity stands between life and death.
    pub open spec fn state(&self) -> State {
        match self {
            Entity::Player(player) => player.state,
            Entity::Rat(rat) => rat.state,
            Entity::Brat(brat) => brat.state,
            Entity::Factory(factory) => factory.state,
            Entity::Bullet(bullet) => bullet.state,
        }
    }

    /// The time from which the entity is due for its next update.
    pub open spec fn next_update(&self) -> Timestamp {
        match self {
            Entity::Player(player) => player.next_update,
            Entity::Rat(rat) => rat.next_update,
            Entity::Brat(brat) => brat.next_update,
            Entity::Factory(factory) => factory.next_update,
            Entity::Bullet(bullet) => bullet.next_update,
        }
    }

    /// Which of the five kinds the entity is.
    pub open spec fn kind_of(&self) -> Kind {
        match self {
            Entity::Player(_) => Kind::Player,
            Entity::Rat(_) => Kind::Rat,
            Entity::Brat(_) => Kind::Brat,
            Entity::Factory(_) => Kind::Factory,
            Entity::Bullet(_) => Kind::Bullet,
        }
    }

    /// Which of the five kinds the entity is.
    pub fn kind(&self) -> (kind: Kind)
        ensures
            kind == self.kind_of(),
    {
        match self {
            Entity::Player(_) => Kind::Player,
            Entity::Rat(_) => Kind::Rat,
            Entity::Brat(_) => Kind::Brat,
            Entity::Factory(_) => Kind::Factory,
            Entity::Bullet(_) => Kind::Bullet,
        }
    }

    /// The entity is on the grid and its animation within its frames.
    pub open spec fn wf(&self, dims: Dimensions) -> bool {
        match self {
            Entity::Player(player) => player.wf(dims),
            Entity::Rat(rat) => rat.wf(dims),
            Entity::Brat(brat) => brat.wf(dims),
            Entity::Factory(factory) => factory.wf(dims),
            Entity::Bullet(bullet) => bullet.wf(dims),
        }
    }

    /// Whether a shot at `pos` hits the entity. Only the living are hit:
    /// the player and a factory on the four cells of their square, a
    /// rat, a baby rat and a bullet on their one cell.
    pub open spec fn covers(&self, pos: Position, dims: Dimensions) -> bool {
        match self {
            Entity::Player(player) => player.covers(pos, dims),
            Entity::Rat(rat) => rat.covers(pos, dims),
            Entity::Brat(brat) => brat.covers(pos, dims),
            Entity::Factory(factory) => factory.covers(pos, dims),
            Entity::Bullet(bullet) => bullet.covers(pos, dims),
        }
    }

    /// The entity with another state and nothing else changed.
    pub open spec fn with_state(&self, state: State) -> Entity {
        match self {
            Entity::Player(player) => Entity::Player(Player { state, ..*player }),
            Entity::Rat(rat) => Entity::Rat(Rat { state, ..*rat }),
            Entity::Brat(brat) => Entity::Brat(Brat { state, ..*brat }),
            Entity::Factory(factory) => Entity::Factory(Factory { state, ..*factory }),
            Entity::Bullet(bullet) => Entity::Bullet(Bullet { state, ..*bullet }),
        }
    }
}

impl EntityAction for Entity {
    open spec fn hits(&self, pos: Position, dims: Dimensions) -> bool {
        self.covers(pos, dims)
    }

    open spec fn exploded(&self) -> Entity {
        self.with_state(State::Exploding1)
    }

    fn hit(&self, pos: Position, dims: Dimensions) -> (hit: bool) {
        match self {
            Entity::Player(player) => player.hit(pos, dims),
            Entity::Rat(rat) => rat.hit(pos, dims),
            Entity::Brat(brat) => brat.hit(pos, dims),
            Entity::Factory(factory) => factory.hit(pos, dims),
            Entity::Bullet(bullet) => bullet.hit(pos, dims),
        }
    }

    fn explode(&mut self) {
        match self {
            Entity::Player(player) => player.explode(),
            Entity::Rat(rat) => rat.explode(),
            Entity::Brat(brat) => brat.explode(),
            Entity::Factory(factory) => factory.explode(),
            Entity::Bullet(bullet) => bullet.explode(),
        }
    }
}

/// Whether `pos` is one of the four cells of the square at `corner`.
pub fn quad_holds(corner: Position, pos: Position, dims: Dimensions) -> (inside: bool)
    requires
        dims.wf(),
    ensures
        inside == in_quad(corner, pos, dims),
{
    let row_1: u16 = crate::video::wrapping::SizeWrapping::inc(corner.row, dims.rows);
    let col_1: u16 = crate::video::wrapping::SizeWrapping::inc(corner.col, dims.cols);
    (pos.row == corner.row || pos.row == row_1) && (pos.col == corner.col || pos.col == col_1)
}

impl Kind {
    /// Milliseconds between two updates of an entity of this kind.
    pub open spec fn interval(self) -> u32 {
        match self {
            Kind::Player => PLAYER_UPDATE_MS,
            Kind::Rat => RAT_UPDATE_MS,
            Kind::Brat => BRAT_UPDATE_MS,
            Kind::Factory => FACTORY_UPDATE_MS,
            Kind::Bullet => BULLET_UPDATE_MS,
        }
    }
}

impl Entity {
    /// The entity with another time for its next update.
    pub open spec fn due_at(&self, next_update: Timestamp) -> Entity {
        match self {
            Entity::Player(player) => Entity::Player(Player { next_update, ..*player }),
            Entity::Rat(rat) => Entity::Rat(Rat { next_update, ..*rat }),
            Entity::Brat(brat) => Entity::Brat(Brat { next_update, ..*brat }),
            Entity::Factory(factory) => Entity::Factory(Factory { next_update, ..*factory }),
            Entity::Bullet(bullet) => Entity::Bullet(Bullet { next_update, ..*bullet }),
        }
    }

    /// What an enemy or a bullet that is no longer alive decides when
    /// its update is due at time `now`: in its explosion, to go on to the
    /// next state after half its interval; dead, to leave.
    pub open spec fn burnt(&self, now: u32) -> Action {
        if self.state() == State::Dead {
            Action::Delete
        } else {
            Action::Update(
                self.with_state(self.state().after()).due_at(
                    (now + self.kind_of().interval() / 2) as u64,
                ),
            )
        }
    }

    /// Whether `action` is something that the entity can decide when its
    /// update is due at time `now`: what the update of its kind decides
    /// for some player, some damage, some call for offspring and some roll
    /// of the dice.
    pub open spec fn is_decision(&self, action: Action, maze: &Maze, now: u32) -> bool {
        match self {
            Entity::Player(player) => action == player.decision(maze, now),
            Entity::Rat(rat) => exists|player: Player, damage: usize, spawn: bool, wander: Wander, breeds: bool, first: Wander|
                action == #[trigger] rat.decision(
                    &player,
                    damage,
                    now,
                    spawn,
                    maze,
                    wander,
                    breeds,
                    first,
                ),
            Entity::Brat(brat) => exists|player: Player, damage: usize, wander: Wander|
                action == #[trigger] brat.decision(&player, damage, now, maze, wander),
            Entity::Factory(factory) => exists|make_rat: bool, distance: Size|
                action == #[trigger] factory.decision(now, make_rat, distance),
            Entity::Bullet(bullet) => action == bullet.decision(maze, now),
        }
    }
}

/// An explosion runs its course. Whatever is around it and however the
/// dice fall, an enemy or a bullet that is exploding goes on to the next
/// state of its explosion and to no other, in the order first frame,
/// second frame, third frame, dead, and stays what and where it is; one
/// that is dead leaves the game. No decision of an enemy or a bullet
/// takes it back to an earlier state.
pub proof fn lemma_explosion_progress(entity: Entity, action: Action, maze: &Maze, now: u32)
    requires
        !(entity is Player),
        entity.is_decision(action, maze, now),
    ensures
        entity.state() != State::Alive ==> action == entity.burnt(now),
        entity.state().exploding() ==> (action matches Action::Update(next) && next.state()
            == entity.state().after() && next.state().rank() == entity.state().rank() + 1
            && next.kind_of() == entity.kind_of() && next.pos() == entity.pos()),
        entity.state() == State::Dead ==> action == Action::Delete,
        action matches Action::Update(next) ==> next.state().rank() >= entity.state().rank(),
{
}

/// From the first frame of its explosion, an enemy or a bullet that is
/// left alone is dead after three updates and gone with the fourth: the
/// states that it goes through are the second frame, the third frame and
/// dead, in this order.
pub proof fn lemma_explosion_runs(entity: Entity, t1: u32, t2: u32, t3: u32, t4: u32)
    requires
        !(entity is Player),
        entity.state() == State::Exploding1,
    ensures
        entity.burnt(t1) matches Action::Update(second) && second.state() == State::Exploding2 && (
        second.burnt(t2) matches Action::Update(third) && third.state() == State::Exploding3 && (
        third.burnt(t3) matches Action::Update(dead) && dead.state() == State::Dead && dead.burnt(
            t4,
        ) == Action::Delete)),
{
}

/// The player comes back. A dead player whose update is due is alive
/// again, where it was, and moves again after twice its interval; and no
/// decision of the player is to leave the game.
pub proof fn lemma_player_respawn(player: Player, maze: &Maze, now: u32)
    ensures
        player.state == State::Dead ==> player.decision(maze, now) == Action::Update(
            Entity::Player(
                Player {
                    state: State::Alive,
                    next_update: (now + 2 * PLAYER_UPDATE_MS) as u64,
                    ..player
                },
            ),
        ),
        player.decision(maze, now) is Update,
        player.decision(maze, now) matches Action::Update(next) ==> next is Player,
{
}

} // verus!
