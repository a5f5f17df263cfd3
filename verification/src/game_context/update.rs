//! One frame of the simulation: what each entity decides, and what
//! becomes of the decisions.

use vstd::prelude::*;
use crate::config::FACTORY_KILL;
use crate::entities::{Entity, EntityAction, Kind, State, Wander};
use crate::entities::brat::update_brat;
use crate::entities::bullet::update_bullet;
use crate::entities::factory::update_factory;
use crate::entities::player::{update_player, Player};
use crate::entities::position::Dimensions;
use crate::entities::rat::update_rat;
use crate::game_context::{
    lemma_count_bound, lemma_count_push, lemma_count_swap_remove, lemma_count_update, swap_removed, Counters, GameContext, GameState, Scene, Sound,
};
use crate::video::Size;

verus! {

/// What an entity decides when its update is due.
#[derive(Debug, Clone, Copy, PartialEq, Eq, Structural)]
pub enum Action {
    /// Nothing changes.
    Nothing,
    /// The entity leaves the game.
    Delete,
    /// The entity becomes this.
    Update(Entity),
    /// This entity joins the game.
    New(Entity),
    /// The entity blows up on the player and does this much damage.
    Attack(usize),
}

impl Counters {
    /// The numbers after an entity of this kind has left the game: a
    /// rat, a baby rat or a factory is one of the dead now.
    pub open spec fn buried(self, kind: Kind) -> Counters {
        match kind {
            Kind::Rat => Counters {
                live_rats: (self.live_rats - 1) as usize,
                dead_rats: (self.dead_rats + 1) as usize,
                ..self
            },
            Kind::Brat => Counters {
                live_brats: (self.live_brats - 1) as usize,
                dead_brats: (self.dead_brats + 1) as usize,
                ..self
            },
            Kind::Factory => Counters {
                live_factories: (self.live_factories - 1) as usize,
                dead_factories: (self.dead_factories + 1) as usize,
                ..self
            },
            _ => self,
        }
    }

    /// The numbers after an entity of this kind has joined the game: a
    /// rat, a baby rat or a factory is one of the living now, and a rat
    /// or a baby rat that was asked for is asked for no more.
    pub open spec fn born(self, kind: Kind) -> Counters {
        match kind {
            Kind::Rat => Counters {
                live_rats: (self.live_rats + 1) as usize,
                new_rats: if self.new_rats > 0 {
                    (self.new_rats - 1) as usize
                } else {
                    0
                },
                ..self
            },
            Kind::Brat => Counters {
                live_brats: (self.live_brats + 1) as usize,
                new_brats: if self.new_brats > 0 {
                    (self.new_brats - 1) as usize
                } else {
                    0
                },
                ..self
            },
            Kind::Factory => Counters {
                live_factories: (self.live_factories + 1) as usize,
                ..self
            },
            _ => self,
        }
    }
}

impl Scene {
    /// The scene after the entity at `index` has left: the last entity
    /// takes its place, the numbers bury it, and a bullet makes the sound
    /// of its impact.
    pub open spec fn deleted(self, index: int) -> Scene {
        let entity = self.entities[index];
        Scene {
            entities: swap_removed(self.entities, index),
            counters: self.counters.buried(entity.kind_of()),
            sounds: if entity is Bullet {
                self.sounds.push(Sound::Impact)
            } else {
                self.sounds
            },
        }
    }

    /// The scene after `entity` has joined at the end.
    pub open spec fn spawned(self, entity: Entity) -> Scene {
        Scene {
            entities: self.entities.push(entity),
            counters: self.counters.born(entity.kind_of()),
            sounds: self.sounds,
        }
    }

    /// The scene after the entity at `index` has attacked the player for
    /// `damage`. A player that is not alive is not attacked. Else the
    /// attacker blows up; damage below the player's health is taken from
    /// it; other damage costs the player a life and blows it up, if it
    /// has a life left.
    pub open spec fn attacked(self, index: int, damage: usize) -> Scene {
        if self.entities[0].state() == State::Alive {
            let struck = self.entities.update(index, self.entities[index].with_state(State::Exploding1));
            let sounds = self.sounds.push(Sound::ShortExplosion);
            if damage >= self.counters.health {
                if self.counters.players_left > 0 {
                    Scene {
                        entities: struck.update(0, struck[0].with_state(State::Exploding1)),
                        counters: Counters {
                            players_left: (self.counters.players_left - 1) as usize,
                            players_dead: (self.counters.players_dead + 1) as usize,
                            ..self.counters
                        },
                        sounds,
                    }
                } else {
                    Scene { entities: struck, counters: self.counters, sounds }
                }
            } else {
                Scene {
                    entities: struck,
                    counters: Counters {
                        health: (self.counters.health - damage) as usize,
                        ..self.counters
                    },
                    sounds,
                }
            }
        } else {
            self
        }
    }

    /// The scene after the entity at `index` has had its way.
    pub open spec fn applied(self, index: int, action: Action) -> Scene {
        match action {
            Action::Nothing => self,
            Action::Delete => self.deleted(index),
            Action::Update(entity) => Scene {
                entities: self.entities.update(index, entity),
                ..self
            },
            Action::New(entity) => self.spawned(entity),
            Action::Attack(damage) => self.attacked(index, damage),
        }
    }

    /// The scene after every entity has had its way, the last one first.
    pub open spec fn applied_all(self, actions: Seq<(usize, Action)>) -> Scene
        decreases actions.len(),
    {
        if actions.len() == 0 {
            self
        } else {
            self.applied(actions.last().0 as int, actions.last().1).applied_all(
                actions.drop_last(),
            )
        }
    }

    /// Whether the decision of the entity at `index` can be carried out:
    /// there is such an entity; it turns into one of its own kind, on
    /// the grid; what joins is on the grid and no player; and no player
    /// leaves.
    pub open spec fn admits(self, index: int, action: Action, dims: Dimensions) -> bool {
        &&& 0 <= index < self.entities.len()
        &&& match action {
            Action::Update(entity) => entity.wf(dims) && entity.kind_of()
                == self.entities[index].kind_of(),
            Action::New(entity) => entity.wf(dims) && !(entity is Player),
            Action::Delete => !(self.entities[index] is Player),
            _ => true,
        }
    }

    /// Whether a list of decisions can be carried out, the last one
    /// first: each can be, and they come in the order of their entities.
    pub open spec fn admits_all(self, actions: Seq<(usize, Action)>, dims: Dimensions) -> bool {
        &&& forall|k: int|
            0 <= k < actions.len() ==> self.admits(
                (#[trigger] actions[k]).0 as int,
                actions[k].1,
                dims,
            )
        &&& forall|j: int, k: int|
            0 <= j < k < actions.len() ==> (#[trigger] actions[j]).0 < (#[trigger] actions[k]).0
    }
}

/// An explosion changes neither what kind an entity is nor where it is.
pub proof fn lemma_exploded(entity: Entity, dims: Dimensions)
    ensures
        entity.exploded().kind_of() == entity.kind_of(),
        entity.exploded().state() == State::Exploding1,
        entity.exploded().pos() == entity.pos(),
        entity.wf(dims) ==> entity.exploded().wf(dims),
{
}

/// Where every entity decides to do nothing, nothing changes.
pub proof fn lemma_all_idle(scene: Scene, actions: Seq<(usize, Action)>)
    requires
        forall|k: int| 0 <= k < actions.len() ==> (#[trigger] actions[k]).1 == Action::Nothing,
    ensures
        scene.applied_all(actions) == scene,
    decreases actions.len(),
{
    if actions.len() > 0 {
        assert(actions.last() == actions[actions.len() - 1]);
        assert forall|k: int| 0 <= k < actions.drop_last().len() implies (
        #[trigger] actions.drop_last()[k]).1 == Action::Nothing by {
            assert(actions.drop_last()[k] == actions[k]);
        }
        lemma_all_idle(scene, actions.drop_last());
    }
}

/// An entity leaves by changing places with the last one. Where one
/// entity other than the first decides to leave and every other decides
/// to do nothing, the scene is what it is after that one has left: there
/// is one entity fewer; the last entity stands where the one that left
/// stood, unless that one was the last; every other entity stands where
/// it stood, the first one among them; and the numbers bury the one
/// that left.
pub proof fn lemma_lone_delete(scene: Scene, actions: Seq<(usize, Action)>, at: int)
    requires
        0 <= at < actions.len(),
        actions[at].1 == Action::Delete,
        forall|k: int|
            0 <= k < actions.len() && k != at ==> (#[trigger] actions[k]).1 == Action::Nothing,
        0 < actions[at].0 < scene.entities.len(),
    ensures
        ({
            let index = actions[at].0 as int;
            let after = scene.applied_all(actions);
            let last = scene.entities.len() - 1;
            &&& after == scene.deleted(index)
            &&& after.entities.len() == last
            &&& after.entities[0] == scene.entities[0]
            &&& index < last ==> after.entities[index] == scene.entities[last]
            &&& forall|j: int|
                0 <= j < last && j != index ==> #[trigger] after.entities[j] == scene.entities[j]
            &&& after.counters == scene.counters.buried(scene.entities[index].kind_of())
        }),
    decreases actions.len(),
{
    let rest = actions.drop_last();
    assert(actions.last() == actions[actions.len() - 1]);
    if at == actions.len() - 1 {
        assert forall|k: int| 0 <= k < rest.len() implies (#[trigger] rest[k]).1
            == Action::Nothing by {
            assert(rest[k] == actions[k]);
        }
        lemma_all_idle(scene.deleted(actions[at].0 as int), rest);
    } else {
        assert(rest[at] == actions[at]);
        assert forall|k: int| 0 <= k < rest.len() && k != at implies (#[trigger] rest[k]).1
            == Action::Nothing by {
            assert(rest[k] == actions[k]);
        }
        lemma_lone_delete(scene, rest, at);
    }
}

impl GameContext {
    /// Carries out the decision of the entity at `index`.
    pub fn apply_action(&mut self, index: usize, action: Action)
        requires
            old(self).wf(),
            old(self).scene().tallied(),
            old(self).scene().admits(index as int, action, old(self).dims()),
            old(self).counters.dead_rats < usize::MAX,
            old(self).counters.dead_brats < usize::MAX,
            old(self).counters.dead_factories < usize::MAX,
            old(self).counters.players_dead < usize::MAX,
            old(self).entities@.len() < usize::MAX,
        ensures
            final(self).wf(),
            final(self).scene().tallied(),
            final(self).scene() == old(self).scene().applied(index as int, action),
            final(self).same_frame(old(self)),
            final(self).counters.score == old(self).counters.score,
            final(self).counters.dead_rats <= old(self).counters.dead_rats + 1,
            final(self).counters.dead_brats <= old(self).counters.dead_brats + 1,
            final(self).counters.dead_factories <= old(self).counters.dead_factories + 1,
            final(self).counters.players_dead <= old(self).counters.players_dead + 1,
            final(self).entities@.len() + 1 >= old(self).entities@.len(),
            final(self).entities@.len() <= old(self).entities@.len() + 1,
            forall|i: int|
                0 <= i < index && i < final(self).entities@.len() ==> (#[trigger] final(self).entities@[i]).kind_of()
                    == old(self).entities@[i].kind_of(),
    {
        let ghost before = self.entities@;
        proof {
            lemma_count_bound(before, Kind::Rat);
            lemma_count_bound(before, Kind::Brat);
            lemma_count_bound(before, Kind::Factory);
        }
        match action {
            Action::Nothing => {},
            Action::Delete => {
                proof {
                    lemma_count_swap_remove(before, index as int, Kind::Rat);
                    lemma_count_swap_remove(before, index as int, Kind::Brat);
                    lemma_count_swap_remove(before, index as int, Kind::Factory);
                }
                match self.entities[index] {
                    Entity::Player(_) => {},
                    Entity::Rat(_) => {
                        self.counters.live_rats -= 1;
                        self.counters.dead_rats += 1;
                    },
                    Entity::Brat(_) => {
                        self.counters.live_brats -= 1;
                        self.counters.dead_brats += 1;
                    },
                    Entity::Factory(_) => {
                        self.counters.live_factories -= 1;
                        self.counters.dead_factories += 1;
                    },
                    Entity::Bullet(_) => {
                        self.sounds.push(Sound::Impact);
                    },
                }
                self.entities.swap_remove(index);
            },
            Action::Update(entity) => {
                proof {
                    lemma_count_update(before, index as int, entity, Kind::Rat);
                    lemma_count_update(before, index as int, entity, Kind::Brat);
                    lemma_count_update(before, index as int, entity, Kind::Factory);
                }
                self.entities[index] = entity;
            },
            Action::New(entity) => {
                proof {
                    lemma_count_push(before, entity, Kind::Rat);
                    lemma_count_push(before, entity, Kind::Brat);
                    lemma_count_push(before, entity, Kind::Factory);
                }
                match entity {
                    Entity::Player(_) => {},
                    Entity::Rat(_) => {
                        self.counters.live_rats += 1;
                        if self.counters.new_rats > 0 {
                            self.counters.new_rats -= 1;
                        }
                    },
                    Entity::Brat(_) => {
                        self.counters.live_brats += 1;
                        if self.counters.new_brats > 0 {
                            self.counters.new_brats -= 1;
                        }
                    },
                    Entity::Factory(_) => {
                        self.counters.live_factories += 1;
                    },
                    Entity::Bullet(_) => {},
                }
                self.entities.push(entity);
            },
            Action::Attack(damage) => {
                if self.get_player().state == State::Alive {
                    self.explode_at(index);
                    self.sounds.push(Sound::ShortExplosion);
                    if damage >= self.counters.health {
                        if self.counters.players_left > 0 {
                            self.explode_at(0);
                            self.counters.players_left -= 1;
                            self.counters.players_dead += 1;
                        }
                    } else {
                        self.counters.health -= damage;
                    }
                }
            },
        }
        proof {
            lemma_count_bound(self.entities@, Kind::Brat);
        }
    }

    /// Starts the explosion of the entity at `index`.
    pub fn explode_at(&mut self, index: usize)
        requires
            old(self).scene().wf(old(self).dims()),
            index < old(self).entities@.len(),
        ensures
            final(self).entities@ == old(self).entities@.update(
                index as int,
                old(self).entities@[index as int].with_state(State::Exploding1),
            ),
            final(self).unchanged_but_entities(old(self)),
            final(self).scene().wf(final(self).dims()),
            old(self).scene().tallied() ==> final(self).scene().tallied(),
            old(self).scene().counted() ==> final(self).scene().counted(),
            old(self).wf() ==> final(self).wf(),
    {
        let ghost before = self.entities@;
        let mut entity: Entity = self.entities[index];
        entity.explode();
        proof {
            lemma_exploded(before[index as int], self.dims());
            lemma_count_update(before, index as int, entity, Kind::Rat);
            lemma_count_update(before, index as int, entity, Kind::Brat);
            lemma_count_update(before, index as int, entity, Kind::Factory);
        }
        self.entities[index] = entity;
    }

    /// Carries out the decisions of a frame, the last one first, so that
    /// an entity that leaves takes no place that is still to be dealt
    /// with.
    pub fn apply_actions(&mut self, actions: Vec<(usize, Action)>)
        requires
            old(self).wf(),
            old(self).scene().tallied(),
            old(self).scene().room_for(actions@.len() as int),
            old(self).scene().admits_all(actions@, old(self).dims()),
        ensures
            final(self).wf(),
            final(self).scene().tallied(),
            final(self).scene() == old(self).scene().applied_all(actions@),
            final(self).same_frame(old(self)),
            final(self).entities@.len() <= old(self).entities@.len() + actions@.len(),
            final(self).counters.score == old(self).counters.score,
            final(self).counters.players_dead <= old(self).counters.players_dead + actions@.len(),
            final(self).counters.dead_brats <= old(self).counters.dead_brats + actions@.len(),
    {
        let mut k: usize = actions.len();
        assert(actions@.take(k as int) =~= actions@);
        while k > 0
            invariant
                k <= actions@.len(),
                old(self).scene().room_for(actions@.len() as int),
                self.wf(),
                self.scene().tallied(),
                self.same_frame(old(self)),
                self.dims() == old(self).dims(),
                self.scene().admits_all(actions@.take(k as int), self.dims()),
                forall|j: int, m: int|
                    0 <= j < m < actions@.len() ==> (#[trigger] actions@[j]).0 < (
                    #[trigger] actions@[m]).0,
                self.scene().applied_all(actions@.take(k as int)) == old(self).scene().applied_all(
                    actions@,
                ),
                self.entities@.len() <= old(self).entities@.len() + (actions@.len() - k),
                self.counters.score == old(self).counters.score,
                self.counters.dead_rats <= old(self).counters.dead_rats + (actions@.len() - k),
                self.counters.dead_brats <= old(self).counters.dead_brats + (actions@.len() - k),
                self.counters.dead_factories <= old(self).counters.dead_factories + (actions@.len()
                    - k),
                self.counters.players_dead <= old(self).counters.players_dead + (actions@.len()
                    - k),
            decreases k,
        {
            let ghost head = actions@.take(k as int);
            let ghost rest = actions@.take(k - 1);
            let ghost before = self.scene();
            proof {
                assert(head.last() == actions@[k - 1]);
                assert(head.drop_last() =~= rest);
                assert(before.admits(head[k - 1].0 as int, head[k - 1].1, self.dims()));
            }
            k -= 1;
            let (index, action) = actions[k];
            self.apply_action(index, action);
            proof {
                assert forall|m: int| 0 <= m < rest.len() implies self.scene().admits(
                    (#[trigger] rest[m]).0 as int,
                    rest[m].1,
                    self.dims(),
                ) by {
                    assert(rest[m] == head[m]);
                    assert(head[m].0 < head[k as int].0);
                    assert(before.admits(head[m].0 as int, head[m].1, self.dims()));
                }
                assert forall|j: int, m: int| 0 <= j < m < rest.len() implies (#[trigger] rest[j]).0
                    < (#[trigger] rest[m]).0 by {
                    assert(rest[j] == actions@[j] && rest[m] == actions@[m]);
                }
            }
        }
        proof {
            assert(actions@.take(0) =~= Seq::<(usize, Action)>::empty());
        }
    }
}

/// Whether any more of something are asked for.
pub open spec fn wanted(count: usize) -> bool {
    count != 0
}

impl GameContext {
    /// Whether `action` is a decision that the entity at `index` can
    /// come to at time `now`: what its kind's update decides, for some
    /// roll of the dice where it rolls any.
    pub open spec fn may_decide(&self, index: int, action: Action, now: u32) -> bool {
        let maze = &self.pristine_maze;
        let player = self.player();
        let spawn_brats = wanted(self.counters.new_brats);
        let spawn_rats = wanted(self.counters.new_rats);
        match self.entities@[index] {
            Entity::Player(it) => action == (if (now as u64) < it.next_update {
                Action::Nothing
            } else {
                it.decision(maze, now)
            }),
            Entity::Rat(rat) => if (now as u64) < rat.next_update {
                action == Action::Nothing
            } else {
                exists|wander: Wander, breeds: bool, first: Wander|
                    wander.within(5, 15) && first.within(20, 30) && action == #[trigger] rat.decision(
                        &player,
                        self.rat_damage,
                        now,
                        spawn_brats,
                        maze,
                        wander,
                        breeds,
                        first,
                    )
            },
            Entity::Brat(brat) => if (now as u64) < brat.next_update {
                action == Action::Nothing
            } else {
                exists|wander: Wander|
                    wander.within(5, 15) && action == #[trigger] brat.decision(
                        &player,
                        self.brat_damage,
                        now,
                        maze,
                        wander,
                    )
            },
            Entity::Factory(factory) => if (now as u64) < factory.next_update {
                action == Action::Nothing
            } else {
                exists|distance: Size|
                    5 <= distance <= 15 && action == #[trigger] factory.decision(
                        now,
                        spawn_rats,
                        distance,
                    )
            },
            Entity::Bullet(bullet) => action == (if (now as u64) < bullet.next_update {
                Action::Nothing
            } else {
                bullet.decision(maze, now)
            }),
        }
    }

    /// Whether `actions` holds a decision for each entity, in order, that
    /// the entity can come to at time `now`.
    pub open spec fn decided(&self, actions: Seq<(usize, Action)>, now: u32) -> bool {
        &&& actions.len() == self.entities@.len()
        &&& forall|i: int|
            0 <= i < actions.len() ==> (#[trigger] actions[i]).0 == i && self.may_decide(
                i,
                actions[i].1,
                now,
            )
    }

    /// Asks every entity what it does at time `now`. Nothing changes yet:
    /// all of them see the same maze and the same player.
    pub fn update_actions(&self, now: u32) -> (actions: Vec<(usize, Action)>)
        requires
            self.wf(),
        ensures
            self.decided(actions@, now),
            self.scene().admits_all(actions@, self.dims()),
    {
        let mut actions: Vec<(usize, Action)> = Vec::new();
        let count: usize = self.entities.len();
        let mut index: usize = 0;
        while index < count
            invariant
                self.wf(),
                count == self.entities@.len(),
                index <= count,
                actions@.len() == index,
                forall|i: int|
                    0 <= i < index ==> (#[trigger] actions@[i]).0 == i && self.may_decide(
                        i,
                        actions@[i].1,
                        now,
                    ) && self.scene().admits(i, actions@[i].1, self.dims()),
            decreases count - index,
        {
            let player: &Player = self.get_player();
            let spawn_brats: bool = self.counters.new_brats != 0;
            let spawn_rats: bool = self.counters.new_rats != 0;
            assert(spawn_brats == wanted(self.counters.new_brats));
            assert(spawn_rats == wanted(self.counters.new_rats));
            assert(self.entities@[index as int].wf(self.dims()));
            let action: Action = match &self.entities[index] {
                Entity::Player(it) => update_player(it, &self.pristine_maze, now),
                Entity::Rat(rat) => update_rat(
                    rat,
                    player,
                    self.rat_damage,
                    now,
                    spawn_brats,
                    &self.pristine_maze,
                ),
                Entity::Brat(brat) => update_brat(
                    brat,
                    player,
                    self.brat_damage,
                    now,
                    &self.pristine_maze,
                ),
                Entity::Factory(factory) => update_factory(factory, now, spawn_rats),
                Entity::Bullet(bullet) => update_bullet(bullet, &self.pristine_maze, now),
            };
            assert(self.may_decide(index as int, action, now));
            assert(self.scene().admits(index as int, action, self.dims()));
            actions.push((index, action));
            index += 1;
        }
        actions
    }
}

impl GameContext {
    /// Whether this is the session `before` after a frame of the
    /// simulation at time `now`. A game that does not run stands still.
    /// In one that runs, every entity has decided, the decisions were
    /// carried out from the last to the first, the bullets were tested,
    /// and the blast round a player that is not alive has done its work.
    pub open spec fn stepped(&self, before: &GameContext, now: u32) -> bool {
        &&& self.same_frame(before)
        &&& before.game_state != GameState::Running ==> *self == *before
        &&& before.game_state == GameState::Running ==> exists|actions: Seq<(usize, Action)>|
            #[trigger] before.decided(actions, now) && self.scene() == before.scene().applied_all(
                actions,
            ).hit_tested(before.dims()).blasted(before.dims())
    }

    /// A frame of the simulation at time `now`, while the game runs:
    /// every entity decides, the decisions are carried out, the bullets
    /// are tested, and the blast round an exploding player does its
    /// work. A game that does not run stands still.
    pub fn update(&mut self, now: u32)
        requires
            old(self).wf(),
            old(self).game_state == GameState::Running ==> old(self).scene().room_for_step(),
        ensures
            final(self).wf(),
            final(self).stepped(old(self), now),
            final(self).entities@.len() <= 2 * old(self).entities@.len(),
            final(self).counters.score <= old(self).counters.score + 2 * FACTORY_KILL * old(
                self,
            ).entities@.len(),
            final(self).counters.dead_brats <= old(self).counters.dead_brats + old(
                self,
            ).entities@.len(),
    {
        if self.game_state == GameState::Running {
            proof {
                self.scene().lemma_room();
            }
            let actions: Vec<(usize, Action)> = self.update_actions(now);
            let ghost decisions = actions@;
            self.apply_actions(actions);
            assert(FACTORY_KILL == 250);
            self.bullet_hit_tests();
            self.player_update();
            assert(old(self).decided(decisions, now));
        }
    }
}

} // verus!
