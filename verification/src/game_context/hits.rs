//! What bullets hit, what a hit is worth, and the blast round an
//! exploding player.

use vstd::prelude::*;
use crate::config::{
    BRAT_KILL, BULLET_HARMLESS_LIFETIME, FACTORY_KILL, PLAYER_BLAST_RADIUS_SQUARED, RAT_KILL,
    SUPER_BOOM_FRAMES,
};
use crate::entities::{Entity, EntityAction, Kind, State};
use crate::entities::position::{Dimensions, Position};
use crate::game_context::{
    lemma_count_bound, lemma_count_swap_remove, swap_removed, Counters, GameContext, Scene, Sound,
};

verus! {

/// A live bullet as the hit tests see it: its place among the entities,
/// where it is, and how many updates it has flown through.
#[derive(Debug, Clone, Copy, PartialEq, Eq, Structural)]
pub struct Shot {
    pub index: usize,
    pub pos: Position,
    pub lifetime: u32,
}

/// The live bullets among the first `n` entities, in their order.
pub open spec fn live_shots(entities: Seq<Entity>, n: int) -> Seq<Shot>
    decreases n,
{
    if n <= 0 {
        Seq::empty()
    } else {
        let rest = live_shots(entities, n - 1);
        match entities[n - 1] {
            Entity::Bullet(bullet) => if bullet.state == State::Alive {
                rest.push(Shot { index: (n - 1) as usize, pos: bullet.pos, lifetime: bullet.lifetime })
            } else {
                rest
            },
            _ => rest,
        }
    }
}

/// The first entity from `from` on that a bullet hits, other than the
/// bullet itself; the number of entities if it hits none.
pub open spec fn first_target(entities: Seq<Entity>, shot: Shot, dims: Dimensions, from: int) -> int
    decreases entities.len() - from,
{
    if from >= entities.len() {
        entities.len() as int
    } else if from != shot.index && entities[from].covers(shot.pos, dims) {
        from
    } else {
        first_target(entities, shot, dims, from + 1)
    }
}

/// The points for an entity that a bullet brings down.
pub open spec fn kill_value(kind: Kind) -> nat {
    match kind {
        Kind::Rat => RAT_KILL as nat,
        Kind::Brat => BRAT_KILL as nat,
        Kind::Factory => FACTORY_KILL as nat,
        _ => 0,
    }
}

/// Whether a bullet of this age that touches an entity of this kind
/// brings it down: any enemy and any other bullet, and the player once
/// the bullet has outlived its harmless time, if the player has a life
/// left.
pub open spec fn brings_down(kind: Kind, lifetime: u32, players_left: usize) -> bool {
    kind != Kind::Player || (lifetime > BULLET_HARMLESS_LIFETIME && players_left > 0)
}

impl Scene {
    /// The scene after a bullet of age `lifetime` has hit the entity at
    /// `target`. An entity that the bullet brings down blows up, its
    /// points are scored and its sound is made; a factory and the player
    /// set the screen flashing; the player loses a life. A player that
    /// the bullet does not bring down is left as it was.
    pub open spec fn struck(self, target: int, lifetime: u32) -> Scene {
        let entity = self.entities[target];
        let kind = entity.kind_of();
        if brings_down(kind, lifetime, self.counters.players_left) {
            Scene {
                entities: self.entities.update(target, entity.with_state(State::Exploding1)),
                counters: Counters {
                    score: (self.counters.score + kill_value(kind)) as usize,
                    super_boom: if kind == Kind::Factory || kind == Kind::Player {
                        SUPER_BOOM_FRAMES
                    } else {
                        self.counters.super_boom
                    },
                    players_left: if kind == Kind::Player {
                        (self.counters.players_left - 1) as usize
                    } else {
                        self.counters.players_left
                    },
                    players_dead: if kind == Kind::Player {
                        (self.counters.players_dead + 1) as usize
                    } else {
                        self.counters.players_dead
                    },
                    ..self.counters
                },
                sounds: self.sounds.push(
                    match kind {
                        Kind::Factory => Sound::LongExplosion,
                        Kind::Bullet => Sound::Impact,
                        _ => Sound::ShortExplosion,
                    },
                ),
            }
        } else {
            self
        }
    }

    /// The scene after a bullet has been tested against the entities: it
    /// strikes the first one that it hits.
    pub open spec fn shot(self, shot: Shot, dims: Dimensions) -> Scene {
        let target = first_target(self.entities, shot, dims, 0);
        if target < self.entities.len() {
            self.struck(target, shot.lifetime)
        } else {
            self
        }
    }

    /// The scene after each of the bullets has been tested, the last one
    /// first.
    pub open spec fn shot_all(self, shots: Seq<Shot>, dims: Dimensions) -> Scene
        decreases shots.len(),
    {
        if shots.len() == 0 {
            self
        } else {
            self.shot(shots.last(), dims).shot_all(shots.drop_last(), dims)
        }
    }

    /// Which entities are bullets that are spent once each of the bullets
    /// has been tested, the last one first: a mark for each entity, set
    /// for a bullet that hit something when its turn came.
    pub open spec fn spent(self, shots: Seq<Shot>, dims: Dimensions) -> Seq<bool>
        decreases shots.len(),
    {
        if shots.len() == 0 {
            Seq::new(self.entities.len(), |i: int| false)
        } else {
            let shot = shots.last();
            let rest = self.shot(shot, dims).spent(shots.drop_last(), dims);
            if first_target(self.entities, shot, dims, 0) < self.entities.len() {
                rest.update(shot.index as int, true)
            } else {
                rest
            }
        }
    }

    /// The scene after the hit tests of a frame: every live bullet has
    /// been tested against the entities, the last bullet first, and the
    /// bullets that hit something have left.
    pub open spec fn hit_tested(self, dims: Dimensions) -> Scene {
        let shots = live_shots(self.entities, self.entities.len() as int);
        let after = self.shot_all(shots, dims);
        Scene {
            entities: swept(after.entities, self.spent(shots, dims), self.entities.len() as int),
            ..after
        }
    }

    /// Whether the blast round an exploding player at `centre` reaches
    /// an entity: a rat, a baby rat or a bullet within the blast radius.
    pub open spec fn in_blast(entity: Entity, centre: Position, dims: Dimensions) -> bool {
        &&& entity is Rat || entity is Brat || entity is Bullet
        &&& entity.pos().distance_squared(centre, dims) < PLAYER_BLAST_RADIUS_SQUARED
    }

    /// The scene after the blast: while the player is not alive,
    /// everything dangerous near it starts to explode, and no points are
    /// scored for it.
    pub open spec fn blasted(self, dims: Dimensions) -> Scene {
        let player = self.entities[0];
        if player.state() != State::Alive {
            Scene {
                entities: Seq::new(
                    self.entities.len(),
                    |i: int|
                        if Self::in_blast(self.entities[i], player.pos(), dims) {
                            self.entities[i].with_state(State::Exploding1)
                        } else {
                            self.entities[i]
                        },
                ),
                ..self
            }
        } else {
            self
        }
    }
}

/// The entities that are left when those among the first `n` that are
/// marked have gone, the last one first; the last entity takes the
/// place of one that goes.
pub open spec fn swept(entities: Seq<Entity>, marks: Seq<bool>, n: int) -> Seq<Entity>
    decreases n,
{
    if n <= 0 {
        entities
    } else {
        swept(
            if marks[n - 1] {
                swap_removed(entities, n - 1)
            } else {
                entities
            },
            marks,
            n - 1,
        )
    }
}

/// A bullet never hits itself: the first entity that it hits is another
/// one.
pub proof fn lemma_no_self_hit(entities: Seq<Entity>, shot: Shot, dims: Dimensions, from: int)
    requires
        0 <= from,
    ensures
        first_target(entities, shot, dims, from) != shot.index || shot.index >= entities.len(),
        from <= first_target(entities, shot, dims, from) <= entities.len() || from
            > entities.len(),
        first_target(entities, shot, dims, from) < entities.len() ==> entities[first_target(
            entities,
            shot,
            dims,
            from,
        )].covers(shot.pos, dims),
    decreases entities.len() - from,
{
    if from < entities.len() && !(from != shot.index && entities[from].covers(shot.pos, dims)) {
        lemma_no_self_hit(entities, shot, dims, from + 1);
    }
}

/// The points for entities of these kinds, one after another.
pub open spec fn total_value(kinds: Seq<Kind>) -> nat
    decreases kinds.len(),
{
    if kinds.len() == 0 {
        0
    } else {
        total_value(kinds.drop_last()) + kill_value(kinds.last())
    }
}

impl Scene {
    /// The scene after bullets of age `lifetime` have hit the entities at
    /// `targets`, one after another.
    pub open spec fn struck_in_turn(self, targets: Seq<int>, lifetime: u32) -> Scene
        decreases targets.len(),
    {
        if targets.len() == 0 {
            self
        } else {
            self.struck_in_turn(targets.drop_last(), lifetime).struck(targets.last(), lifetime)
        }
    }

    /// The kinds of the entities at `targets`.
    pub open spec fn kinds_at(self, targets: Seq<int>) -> Seq<Kind> {
        Seq::new(targets.len(), |k: int| self.entities[targets[k]].kind_of())
    }
}

/// The score keeps account of the hits. After any hits on enemies and
/// bullets, one after another, the score has grown by the sum of what
/// the kinds that were hit are worth: fifty for a rat, twenty-five for a
/// baby rat, two hundred and fifty for a factory, nothing for a bullet.
/// The numbers of the living and of the dead are as they were: an enemy
/// that is hit starts to explode, and is counted among the dead when it
/// leaves.
pub proof fn lemma_score_accounting(scene: Scene, targets: Seq<int>, lifetime: u32)
    requires
        forall|k: int|
            0 <= k < targets.len() ==> 0 <= #[trigger] targets[k] < scene.entities.len()
                && !(scene.entities[targets[k]] is Player),
        scene.counters.score + total_value(scene.kinds_at(targets)) <= usize::MAX,
    ensures
        scene.struck_in_turn(targets, lifetime).counters == (Counters {
            score: (scene.counters.score + total_value(scene.kinds_at(targets))) as usize,
            super_boom: scene.struck_in_turn(targets, lifetime).counters.super_boom,
            ..scene.counters
        }),
        scene.struck_in_turn(targets, lifetime).entities.len() == scene.entities.len(),
        forall|i: int|
            0 <= i < scene.entities.len() ==> (#[trigger] scene.struck_in_turn(
                targets,
                lifetime,
            ).entities[i]).kind_of() == scene.entities[i].kind_of(),
    decreases targets.len(),
{
    if targets.len() > 0 {
        let rest = targets.drop_last();
        assert(scene.kinds_at(targets).drop_last() =~= scene.kinds_at(rest));
        assert(scene.kinds_at(targets).last() == scene.entities[targets.last()].kind_of());
        assert forall|k: int| 0 <= k < rest.len() implies 0 <= #[trigger] rest[k]
            < scene.entities.len() && !(scene.entities[rest[k]] is Player) by {
            assert(rest[k] == targets[k]);
        }
        lemma_score_accounting(scene, rest, lifetime);
        let before = scene.struck_in_turn(rest, lifetime);
        assert(before.entities[targets.last()].kind_of() == scene.entities[targets.last()].kind_of());
    }
}

/// How many of the first `n` marks are set.
pub open spec fn count_marks(marks: Seq<bool>, n: int) -> nat
    decreases n,
{
    if n <= 0 {
        0
    } else {
        count_marks(marks, n - 1) + (if marks[n - 1] {
            1nat
        } else {
            0nat
        })
    }
}

/// A mark that is set where none was counts for one.
pub proof fn lemma_count_marks_update(marks: Seq<bool>, index: int, n: int)
    requires
        0 <= index < marks.len(),
        0 <= n <= marks.len(),
        !marks[index],
    ensures
        count_marks(marks.update(index, true), n) == count_marks(marks, n) + (if index < n {
            1nat
        } else {
            0nat
        }),
    decreases n,
{
    if n > 0 {
        lemma_count_marks_update(marks, index, n - 1);
    }
}

/// Where no mark is set, none is counted.
pub proof fn lemma_count_marks_none(len: nat, n: int)
    requires
        n <= len,
    ensures
        count_marks(Seq::new(len, |i: int| false), n) == 0,
    decreases n,
{
    if n > 0 {
        lemma_count_marks_none(len, n - 1);
    }
}

/// The sweep takes one entity for each mark: as many entities are left
/// as there were, less the marks that are set.
pub proof fn lemma_swept_len(entities: Seq<Entity>, marks: Seq<bool>, n: int)
    requires
        0 <= n <= entities.len(),
        n <= marks.len(),
    ensures
        swept(entities, marks, n).len() == entities.len() - count_marks(marks, n),
        count_marks(marks, n) <= n,
    decreases n,
{
    if n > 0 {
        if marks[n - 1] {
            lemma_swept_len(swap_removed(entities, n - 1), marks, n - 1);
        } else {
            lemma_swept_len(entities, marks, n - 1);
        }
    }
}

/// The live bullets are listed in their order among the entities: each
/// shot is that of a live bullet, and a later shot is that of a later
/// bullet.
pub proof fn lemma_live_shots(entities: Seq<Entity>, n: int)
    requires
        0 <= n <= entities.len(),
        entities.len() <= usize::MAX,
    ensures
        live_shots(entities, n).len() <= n,
        forall|k: int|
            0 <= k < live_shots(entities, n).len() ==> {
                let shot = #[trigger] live_shots(entities, n)[k];
                &&& shot.index < n
                &&& entities[shot.index as int] matches Entity::Bullet(bullet)
                &&& bullet.state == State::Alive
                &&& bullet.pos == shot.pos
                &&& bullet.lifetime == shot.lifetime
            },
        forall|j: int, k: int|
            0 <= j < k < live_shots(entities, n).len() ==> (#[trigger] live_shots(
                entities,
                n,
            )[j]).index < (#[trigger] live_shots(entities, n)[k]).index,
    decreases n,
{
    if n > 0 {
        lemma_live_shots(entities, n - 1);
        let rest = live_shots(entities, n - 1);
        let all = live_shots(entities, n);
        assert forall|k: int| 0 <= k < all.len() implies {
            let shot = #[trigger] all[k];
            &&& shot.index < n
            &&& entities[shot.index as int] matches Entity::Bullet(bullet)
            &&& bullet.state == State::Alive
            &&& bullet.pos == shot.pos
            &&& bullet.lifetime == shot.lifetime
        } by {
            if k < rest.len() {
                assert(all[k] == rest[k]);
            }
        }
        assert forall|j: int, k: int| 0 <= j < k < all.len() implies (#[trigger] all[j]).index < (
        #[trigger] all[k]).index by {
            assert(all[j] == rest[j]);
            if k < rest.len() {
                assert(all[k] == rest[k]);
            }
        }
    }
}

/// An entity that starts to explode changes nothing for a bullet that
/// did not hit it first: the bullet's first target is what it was.
pub proof fn lemma_first_target_stable(
    entities: Seq<Entity>,
    shot: Shot,
    dims: Dimensions,
    struck: int,
    from: int,
)
    requires
        0 <= struck < entities.len(),
        0 <= from,
        first_target(entities, shot, dims, from) != struck,
    ensures
        first_target(
            entities.update(struck, entities[struck].with_state(State::Exploding1)),
            shot,
            dims,
            from,
        ) == first_target(entities, shot, dims, from),
    decreases entities.len() - from,
{
    let after = entities.update(struck, entities[struck].with_state(State::Exploding1));
    if from < entities.len() {
        if from != shot.index && entities[from].covers(shot.pos, dims) {
            assert(from != struck);
            assert(after[from] == entities[from]);
        } else {
            assert(!(from != shot.index && after[from].covers(shot.pos, dims)));
            lemma_no_self_hit(entities, shot, dims, from + 1);
            lemma_first_target_stable(entities, shot, dims, struck, from + 1);
        }
    }
}

impl Scene {
    /// The first entity of the scene that a bullet hits.
    pub open spec fn target(self, shot: Shot, dims: Dimensions) -> int {
        first_target(self.entities, shot, dims, 0)
    }

    /// Whether a bullet hits an enemy: a rat, a baby rat or a factory.
    pub open spec fn hits_enemy(self, shot: Shot, dims: Dimensions) -> bool {
        let target = self.target(shot, dims);
        &&& 0 <= target < self.entities.len()
        &&& self.entities[target] is Rat || self.entities[target] is Brat
            || self.entities[target] is Factory
    }
}

/// The score keeps account of the hit test. Where the live bullets are
/// three, and what they hit first is a rat, a baby rat and a factory, in
/// whatever order, the hit test scores the three of them, fifty and
/// twenty-five and two hundred and fifty points; it sets the screen
/// flashing for the factory; it leaves every other number as it was;
/// the three that were hit start to explode and nothing else changes;
/// and the three bullets leave the game.
pub proof fn lemma_three_kills(scene: Scene, dims: Dimensions)
    requires
        scene.entities.len() <= usize::MAX,
        live_shots(scene.entities, scene.entities.len() as int).len() == 3,
        forall|k: int|
            0 <= k < 3 ==> scene.hits_enemy(
                #[trigger] live_shots(scene.entities, scene.entities.len() as int)[k],
                dims,
            ),
        ({
            let shots = live_shots(scene.entities, scene.entities.len() as int);
            let first = scene.entities[scene.target(shots[0], dims)].kind_of();
            let second = scene.entities[scene.target(shots[1], dims)].kind_of();
            let third = scene.entities[scene.target(shots[2], dims)].kind_of();
            first != second && first != third && second != third
        }),
        scene.counters.score + RAT_KILL + BRAT_KILL + FACTORY_KILL <= usize::MAX,
    ensures
        ({
            let shots = live_shots(scene.entities, scene.entities.len() as int);
            let after = scene.hit_tested(dims);
            let struck = scene.shot_all(shots, dims).entities;
            &&& after.counters == (Counters {
                score: (scene.counters.score + RAT_KILL + BRAT_KILL + FACTORY_KILL) as usize,
                super_boom: SUPER_BOOM_FRAMES,
                ..scene.counters
            })
            &&& after.entities.len() == scene.entities.len() - 3
            &&& after.entities == swept(
                struck,
                scene.spent(shots, dims),
                scene.entities.len() as int,
            )
            &&& struck.len() == scene.entities.len()
            &&& forall|i: int|
                0 <= i < scene.entities.len() ==> #[trigger] struck[i] == (if i == scene.target(
                    shots[0],
                    dims,
                ) || i == scene.target(shots[1], dims) || i == scene.target(shots[2], dims) {
                    scene.entities[i].with_state(State::Exploding1)
                } else {
                    scene.entities[i]
                })
            &&& forall|i: int|
                0 <= i < scene.entities.len() ==> #[trigger] scene.spent(shots, dims)[i] == (i
                    == shots[0].index || i == shots[1].index || i == shots[2].index)
        }),
{
    let len = scene.entities.len() as int;
    let shots = live_shots(scene.entities, len);
    lemma_live_shots(scene.entities, len);
    assert(RAT_KILL == 50 && BRAT_KILL == 25 && FACTORY_KILL == 250 && SUPER_BOOM_FRAMES == 60);
    let s2 = shots[2];
    let s1 = shots[1];
    let s0 = shots[0];
    let t2 = scene.target(s2, dims);
    let t1 = scene.target(s1, dims);
    let t0 = scene.target(s0, dims);
    assert(scene.hits_enemy(s0, dims) && scene.hits_enemy(s1, dims) && scene.hits_enemy(s2, dims));
    let two = shots.drop_last();
    let one = two.drop_last();
    let none = one.drop_last();
    assert(shots.last() == s2 && two.last() == s1 && one.last() == s0);
    assert(two.len() == 2 && one.len() == 1 && none.len() == 0);
    // the last bullet is tested first
    let scene1 = scene.shot(s2, dims);
    assert(scene1 == scene.struck(t2, s2.lifetime));
    assert(scene1.entities == scene.entities.update(
        t2,
        scene.entities[t2].with_state(State::Exploding1),
    ));
    lemma_first_target_stable(scene.entities, s1, dims, t2, 0);
    lemma_first_target_stable(scene.entities, s0, dims, t2, 0);
    assert(scene1.target(s1, dims) == t1);
    assert(scene1.target(s0, dims) == t0);
    let scene2 = scene1.shot(s1, dims);
    assert(scene2 == scene1.struck(t1, s1.lifetime));
    assert(scene2.entities == scene1.entities.update(
        t1,
        scene1.entities[t1].with_state(State::Exploding1),
    ));
    lemma_first_target_stable(scene1.entities, s0, dims, t1, 0);
    assert(scene2.target(s0, dims) == t0);
    let scene3 = scene2.shot(s0, dims);
    assert(scene3 == scene2.struck(t0, s0.lifetime));
    assert(scene3.entities == scene2.entities.update(
        t0,
        scene2.entities[t0].with_state(State::Exploding1),
    ));
    assert(scene.shot_all(shots, dims) == scene3) by {
        assert(scene3.shot_all(none, dims) == scene3);
        assert(scene2.shot_all(one, dims) == scene3);
        assert(scene1.shot_all(two, dims) == scene3);
    }
    let blank = Seq::new(scene.entities.len(), |i: int| false);
    let marks = blank.update(s0.index as int, true).update(s1.index as int, true).update(
        s2.index as int,
        true,
    );
    assert(scene.spent(shots, dims) == marks) by {
        assert(scene3.spent(none, dims) == blank);
        assert(scene2.spent(one, dims) == blank.update(s0.index as int, true));
        assert(scene1.spent(two, dims) == blank.update(s0.index as int, true).update(
            s1.index as int,
            true,
        ));
    }
    assert(count_marks(marks, len) == 3) by {
        lemma_count_marks_none(scene.entities.len(), len);
        lemma_count_marks_update(blank, s0.index as int, len);
        lemma_count_marks_update(blank.update(s0.index as int, true), s1.index as int, len);
        lemma_count_marks_update(
            blank.update(s0.index as int, true).update(s1.index as int, true),
            s2.index as int,
            len,
        );
    }
    lemma_swept_len(scene3.entities, marks, len);
}

/// Whether the entity at `index` is a live bullet.
pub open spec fn live_bullet(entities: Seq<Entity>, index: int) -> bool {
    entities[index] matches Entity::Bullet(bullet) && bullet.state == State::Alive
}

/// The shot of the bullet at `index`.
pub open spec fn shot_of(entities: Seq<Entity>, index: int) -> Shot {
    Shot {
        index: index as usize,
        pos: entities[index].pos(),
        lifetime: entities[index]->Bullet_0.lifetime,
    }
}

/// Whether the shot of the entity at `index` is among the shots.
pub open spec fn listed(shots: Seq<Shot>, index: int) -> bool {
    exists|k: int| 0 <= k < shots.len() && (#[trigger] shots[k]).index == index
}

/// Every live bullet is listed among the live shots.
pub proof fn lemma_live_shots_complete(entities: Seq<Entity>, n: int, index: int)
    requires
        0 <= index < n <= entities.len(),
        entities.len() <= usize::MAX,
        live_bullet(entities, index),
    ensures
        listed(live_shots(entities, n), index),
    decreases n,
{
    let rest = live_shots(entities, n - 1);
    let all = live_shots(entities, n);
    if index < n - 1 {
        lemma_live_shots_complete(entities, n - 1, index);
        let k = choose|k: int| 0 <= k < rest.len() && (#[trigger] rest[k]).index == index;
        assert(all[k] == rest[k]);
    } else {
        assert(all[rest.len() as int].index == index);
    }
}

/// A bullet hits the first entity on its cell: where only the entity at
/// `only` is hit on the bullet's cell, that entity is the bullet's first
/// target.
pub proof fn lemma_first_target_only(
    entities: Seq<Entity>,
    shot: Shot,
    dims: Dimensions,
    only: int,
    from: int,
)
    requires
        0 <= from <= only < entities.len(),
        only != shot.index,
        entities[only].covers(shot.pos, dims),
        forall|i: int|
            0 <= i < entities.len() && i != shot.index && (#[trigger] entities[i]).covers(
                shot.pos,
                dims,
            ) ==> i == only,
    ensures
        first_target(entities, shot, dims, from) == only,
    decreases entities.len() - from,
{
    if from < only {
        lemma_first_target_only(entities, shot, dims, only, from + 1);
    }
}

/// The score keeps account of the hit test. Let three live bullets be
/// all the live bullets there are, one on a live rat, one on a live baby
/// rat and one on a live factory, and let each bullet hit nothing but its
/// mark. Then the hit test scores the three marks, fifty and twenty-five
/// and two hundred and fifty points; it sets the screen flashing; it
/// leaves every other number as it was; the three marks start to
/// explode and no other entity changes; and the three bullets leave the
/// game.
pub proof fn lemma_three_marks(
    scene: Scene,
    dims: Dimensions,
    rat: int,
    brat: int,
    factory: int,
    at_rat: int,
    at_brat: int,
    at_factory: int,
)
    requires
        scene.entities.len() <= usize::MAX,
        0 <= rat < scene.entities.len() && scene.entities[rat] is Rat,
        0 <= brat < scene.entities.len() && scene.entities[brat] is Brat,
        0 <= factory < scene.entities.len() && scene.entities[factory] is Factory,
        0 <= at_rat < scene.entities.len() && live_bullet(scene.entities, at_rat),
        0 <= at_brat < scene.entities.len() && live_bullet(scene.entities, at_brat),
        0 <= at_factory < scene.entities.len() && live_bullet(scene.entities, at_factory),
        at_rat != at_brat && at_rat != at_factory && at_brat != at_factory,
        forall|i: int|
            0 <= i < scene.entities.len() && #[trigger] live_bullet(scene.entities, i) ==> i
                == at_rat || i == at_brat || i == at_factory,
        scene.entities[rat].covers(scene.entities[at_rat].pos(), dims),
        scene.entities[brat].covers(scene.entities[at_brat].pos(), dims),
        scene.entities[factory].covers(scene.entities[at_factory].pos(), dims),
        forall|i: int|
            0 <= i < scene.entities.len() && i != at_rat && (#[trigger] scene.entities[i]).covers(
                scene.entities[at_rat].pos(),
                dims,
            ) ==> i == rat,
        forall|i: int|
            0 <= i < scene.entities.len() && i != at_brat && (#[trigger] scene.entities[i]).covers(
                scene.entities[at_brat].pos(),
                dims,
            ) ==> i == brat,
        forall|i: int|
            0 <= i < scene.entities.len() && i != at_factory && (
            #[trigger] scene.entities[i]).covers(scene.entities[at_factory].pos(), dims) ==> i
                == factory,
        scene.counters.score + RAT_KILL + BRAT_KILL + FACTORY_KILL <= usize::MAX,
    ensures
        ({
            let shots = live_shots(scene.entities, scene.entities.len() as int);
            let after = scene.hit_tested(dims);
            let struck = scene.shot_all(shots, dims).entities;
            let spent = scene.spent(shots, dims);
            &&& after.counters == (Counters {
                score: (scene.counters.score + RAT_KILL + BRAT_KILL + FACTORY_KILL) as usize,
                super_boom: SUPER_BOOM_FRAMES,
                ..scene.counters
            })
            &&& after.entities.len() == scene.entities.len() - 3
            &&& after.entities == swept(struck, spent, scene.entities.len() as int)
            &&& struck.len() == scene.entities.len()
            &&& forall|i: int|
                0 <= i < scene.entities.len() ==> #[trigger] struck[i] == (if i == rat || i == brat
                    || i == factory {
                    scene.entities[i].with_state(State::Exploding1)
                } else {
                    scene.entities[i]
                })
            &&& forall|i: int|
                0 <= i < scene.entities.len() ==> #[trigger] spent[i] == (i == at_rat || i
                    == at_brat || i == at_factory)
        }),
{
    let len = scene.entities.len() as int;
    let shots = live_shots(scene.entities, len);
    lemma_live_shots(scene.entities, len);
    lemma_live_shots_complete(scene.entities, len, at_rat);
    lemma_live_shots_complete(scene.entities, len, at_brat);
    lemma_live_shots_complete(scene.entities, len, at_factory);
    let k_rat = choose|k: int| 0 <= k < shots.len() && (#[trigger] shots[k]).index == at_rat;
    let k_brat = choose|k: int| 0 <= k < shots.len() && (#[trigger] shots[k]).index == at_brat;
    let k_factory = choose|k: int|
        0 <= k < shots.len() && (#[trigger] shots[k]).index == at_factory;
    assert(k_rat != k_brat && k_rat != k_factory && k_brat != k_factory);
    assert(shots.len() == 3) by {
        if shots.len() > 3 {
            let a = shots[0];
            let b = shots[1];
            let c = shots[2];
            let d = shots[3];
            assert(live_bullet(scene.entities, a.index as int));
            assert(live_bullet(scene.entities, b.index as int));
            assert(live_bullet(scene.entities, c.index as int));
            assert(live_bullet(scene.entities, d.index as int));
            assert(a.index < b.index < c.index < d.index);
        }
    }
    assert(shots[k_rat] == shot_of(scene.entities, at_rat));
    assert(shots[k_brat] == shot_of(scene.entities, at_brat));
    assert(shots[k_factory] == shot_of(scene.entities, at_factory));
    lemma_first_target_only(scene.entities, shots[k_rat], dims, rat, 0);
    lemma_first_target_only(scene.entities, shots[k_brat], dims, brat, 0);
    lemma_first_target_only(scene.entities, shots[k_factory], dims, factory, 0);
    assert forall|k: int| 0 <= k < 3 implies scene.hits_enemy(#[trigger] shots[k], dims) by {
        assert(k == k_rat || k == k_brat || k == k_factory);
    }
    assert(shots[0] == shots[k_rat] || shots[0] == shots[k_brat] || shots[0] == shots[k_factory]);
    assert(shots[1] == shots[k_rat] || shots[1] == shots[k_brat] || shots[1] == shots[k_factory]);
    assert(shots[2] == shots[k_rat] || shots[2] == shots[k_brat] || shots[2] == shots[k_factory]);
    lemma_three_kills(scene, dims);
}

/// When an entity leaves the game, the numbers bury it: one fewer of its
/// kind lives and one more is dead, and no other number changes. The
/// player and the bullets are not counted.
pub proof fn lemma_buried(counters: Counters, kind: Kind)
    ensures
        kind == Kind::Rat && counters.live_rats > 0 && counters.dead_rats < usize::MAX
            ==> counters.buried(kind).live_rats == counters.live_rats - 1 && counters.buried(
            kind,
        ).dead_rats == counters.dead_rats + 1,
        kind == Kind::Brat && counters.live_brats > 0 && counters.dead_brats < usize::MAX
            ==> counters.buried(kind).live_brats == counters.live_brats - 1 && counters.buried(
            kind,
        ).dead_brats == counters.dead_brats + 1,
        kind == Kind::Factory && counters.live_factories > 0 && counters.dead_factories
            < usize::MAX ==> counters.buried(kind).live_factories == counters.live_factories - 1
            && counters.buried(kind).dead_factories == counters.dead_factories + 1,
        kind == Kind::Player || kind == Kind::Bullet ==> counters.buried(kind) == counters,
        counters.buried(kind) == (Counters {
            live_rats: counters.buried(kind).live_rats,
            dead_rats: counters.buried(kind).dead_rats,
            live_brats: counters.buried(kind).live_brats,
            dead_brats: counters.buried(kind).dead_brats,
            live_factories: counters.buried(kind).live_factories,
            dead_factories: counters.buried(kind).dead_factories,
            ..counters
        }),
        kind != Kind::Rat ==> counters.buried(kind).live_rats == counters.live_rats
            && counters.buried(kind).dead_rats == counters.dead_rats,
        kind != Kind::Brat ==> counters.buried(kind).live_brats == counters.live_brats
            && counters.buried(kind).dead_brats == counters.dead_brats,
        kind != Kind::Factory ==> counters.buried(kind).live_factories == counters.live_factories
            && counters.buried(kind).dead_factories == counters.dead_factories,
{
}

/// A young bullet does not hurt the player: within its harmless time, a
/// bullet that touches the player leaves it as it was.
pub proof fn lemma_harmless_bullet(scene: Scene, lifetime: u32)
    requires
        scene.entities.len() >= 1,
        scene.entities[0] is Player,
        lifetime <= BULLET_HARMLESS_LIFETIME,
    ensures
        scene.struck(0, lifetime) == scene,
{
}

impl Scene {
    /// Whether a bullet hits nothing.
    pub open spec fn missed_by(self, shot: Shot, dims: Dimensions) -> bool {
        self.target(shot, dims) >= self.entities.len()
    }

    /// Whether a bullet does no harm: it hits nothing, or what it hits
    /// is the player, within the bullet's harmless time.
    pub open spec fn spared_by(self, shot: Shot, dims: Dimensions) -> bool {
        ||| self.missed_by(shot, dims)
        ||| self.entities[self.target(shot, dims)] is Player && shot.lifetime
            <= BULLET_HARMLESS_LIFETIME
    }
}

/// Bullets that do no harm leave the scene as it was.
pub proof fn lemma_harmless_shots(scene: Scene, shots: Seq<Shot>, dims: Dimensions)
    requires
        forall|k: int| 0 <= k < shots.len() ==> scene.spared_by(#[trigger] shots[k], dims),
    ensures
        scene.shot_all(shots, dims) == scene,
    decreases shots.len(),
{
    if shots.len() > 0 {
        let rest = shots.drop_last();
        assert(shots.last() == shots[shots.len() - 1]);
        assert(scene.spared_by(shots.last(), dims));
        lemma_no_self_hit(scene.entities, shots.last(), dims, 0);
        assert(scene.shot(shots.last(), dims) == scene);
        assert forall|k: int| 0 <= k < rest.len() implies scene.spared_by(
            #[trigger] rest[k],
            dims,
        ) by {
            assert(rest[k] == shots[k]);
        }
        lemma_harmless_shots(scene, rest, dims);
    }
}

/// Among bullets that do no harm, an entity is marked as spent only if
/// it is one of the bullets and hit something.
pub proof fn lemma_unspent(scene: Scene, shots: Seq<Shot>, dims: Dimensions, place: int)
    requires
        0 <= place < scene.entities.len(),
        forall|k: int| 0 <= k < shots.len() ==> (#[trigger] shots[k]).index < scene.entities.len(),
        forall|k: int| 0 <= k < shots.len() ==> scene.spared_by(#[trigger] shots[k], dims),
        forall|k: int|
            0 <= k < shots.len() ==> (#[trigger] shots[k]).index != place || scene.missed_by(
                shots[k],
                dims,
            ),
    ensures
        scene.spent(shots, dims).len() == scene.entities.len(),
        !scene.spent(shots, dims)[place],
    decreases shots.len(),
{
    if shots.len() > 0 {
        let rest = shots.drop_last();
        let shot = shots.last();
        assert(shot == shots[shots.len() - 1]);
        assert(scene.spared_by(shot, dims));
        lemma_no_self_hit(scene.entities, shot, dims, 0);
        assert(scene.shot(shot, dims) == scene);
        assert forall|k: int| 0 <= k < rest.len() implies scene.spared_by(
            #[trigger] rest[k],
            dims,
        ) && rest[k].index < scene.entities.len() && (rest[k].index != place || scene.missed_by(
            rest[k],
            dims,
        )) by {
            assert(rest[k] == shots[k]);
        }
        lemma_unspent(scene, rest, dims, place);
    }
}

/// What stands before every mark stays where it is through the sweep.
pub proof fn lemma_swept_keeps(entities: Seq<Entity>, marks: Seq<bool>, n: int, place: int)
    requires
        0 <= place < entities.len(),
        0 <= n <= entities.len(),
        n <= marks.len(),
        forall|i: int| 0 <= i <= place && i < n ==> !#[trigger] marks[i],
    ensures
        swept(entities, marks, n).len() > place,
        swept(entities, marks, n)[place] == entities[place],
    decreases n,
{
    if n > 0 {
        if marks[n - 1] {
            lemma_swept_keeps(swap_removed(entities, n - 1), marks, n - 1, place);
        } else {
            lemma_swept_keeps(entities, marks, n - 1, place);
        }
    }
}

/// Where nothing is marked, the sweep takes nothing.
pub proof fn lemma_swept_none(entities: Seq<Entity>, marks: Seq<bool>, n: int)
    requires
        n <= marks.len(),
        forall|i: int| 0 <= i < n ==> !#[trigger] marks[i],
    ensures
        swept(entities, marks, n) == entities,
    decreases n,
{
    if n > 0 {
        lemma_swept_none(entities, marks, n - 1);
    }
}

/// A young bullet does not hurt the player. Where every live bullet
/// hits nothing, or hits the player within its harmless time, the hit
/// test leaves the player as it was, alive if it was alive, and changes
/// no number and makes no sound: no life is lost, nothing is scored and
/// the screen does not flash. All that it does is to take the bullets
/// that are spent.
pub proof fn lemma_harmless_hit_test(scene: Scene, dims: Dimensions)
    requires
        1 <= scene.entities.len() <= usize::MAX,
        scene.entities[0] is Player,
        forall|k: int|
            0 <= k < live_shots(scene.entities, scene.entities.len() as int).len()
                ==> scene.spared_by(
                #[trigger] live_shots(scene.entities, scene.entities.len() as int)[k],
                dims,
            ),
    ensures
        scene.hit_tested(dims).counters == scene.counters,
        scene.hit_tested(dims).sounds == scene.sounds,
        scene.hit_tested(dims).entities.len() >= 1,
        scene.hit_tested(dims).entities[0] == scene.entities[0],
        scene.hit_tested(dims).entities == swept(
            scene.entities,
            scene.spent(live_shots(scene.entities, scene.entities.len() as int), dims),
            scene.entities.len() as int,
        ),
{
    let len = scene.entities.len() as int;
    let shots = live_shots(scene.entities, len);
    lemma_live_shots(scene.entities, len);
    lemma_harmless_shots(scene, shots, dims);
    lemma_unspent(scene, shots, dims, 0);
    lemma_swept_keeps(scene.entities, scene.spent(shots, dims), len, 0);
}

/// A bullet does not hit itself. Where no live bullet hits another
/// entity, the hit test changes nothing: every bullet is still there and
/// alive, no number changes and no sound is made.
pub proof fn lemma_missed_hit_test(scene: Scene, dims: Dimensions)
    requires
        scene.entities.len() <= usize::MAX,
        forall|k: int|
            0 <= k < live_shots(scene.entities, scene.entities.len() as int).len()
                ==> scene.missed_by(
                #[trigger] live_shots(scene.entities, scene.entities.len() as int)[k],
                dims,
            ),
    ensures
        scene.hit_tested(dims) == scene,
{
    let len = scene.entities.len() as int;
    let shots = live_shots(scene.entities, len);
    lemma_live_shots(scene.entities, len);
    lemma_harmless_shots(scene, shots, dims);
    let marks = scene.spent(shots, dims);
    Scene::lemma_spent_len(scene, shots, dims);
    assert forall|i: int| 0 <= i < len implies !#[trigger] marks[i] by {
        lemma_unspent(scene, shots, dims, i);
    }
    lemma_swept_none(scene.entities, marks, len);
}

/// A bullet that is alone with the player and not on the player's
/// square hits nothing, not even itself: the hit test changes nothing.
pub proof fn lemma_lone_bullet(scene: Scene, dims: Dimensions)
    requires
        scene.entities.len() == 2,
        scene.entities[0] is Player,
        live_bullet(scene.entities, 1),
        !scene.entities[0].covers(scene.entities[1].pos(), dims),
    ensures
        scene.hit_tested(dims) == scene,
{
    let shots = live_shots(scene.entities, 2);
    assert(live_shots(scene.entities, 0) =~= Seq::<Shot>::empty());
    assert(live_shots(scene.entities, 1) =~= Seq::<Shot>::empty());
    assert(shots =~= seq![shot_of(scene.entities, 1)]);
    let shot = shots[0];
    assert(first_target(scene.entities, shot, dims, 2) == 2);
    assert(first_target(scene.entities, shot, dims, 1) == 2);
    assert(first_target(scene.entities, shot, dims, 0) == 2);
    lemma_missed_hit_test(scene, dims);
}

impl GameContext {
    /// The live bullets, in their order among the entities.
    pub fn live_bullets(&self) -> (shots: Vec<Shot>)
        ensures
            shots@ == live_shots(self.entities@, self.entities@.len() as int),
            shots@.len() <= self.entities@.len(),
            forall|k: int|
                0 <= k < shots@.len() ==> (#[trigger] shots@[k]).index < self.entities@.len()
                    && self.entities@[shots@[k].index as int] is Bullet,
    {
        let mut shots: Vec<Shot> = Vec::new();
        let count: usize = self.entities.len();
        let mut index: usize = 0;
        while index < count
            invariant
                count == self.entities@.len(),
                index <= count,
                shots@.len() <= index,
                shots@ == live_shots(self.entities@, index as int),
                forall|k: int|
                    0 <= k < shots@.len() ==> (#[trigger] shots@[k]).index < index
                        && self.entities@[shots@[k].index as int] is Bullet,
            decreases count - index,
        {
            match &self.entities[index] {
                Entity::Bullet(bullet) => {
                    if bullet.state == State::Alive {
                        shots.push(Shot { index, pos: bullet.pos, lifetime: bullet.lifetime });
                    }
                },
                _ => {},
            }
            index += 1;
        }
        shots
    }

    /// The first entity that a bullet hits, other than itself; the
    /// number of entities if it hits none.
    pub fn find_target(&self, shot: Shot) -> (target: usize)
        requires
            self.pristine_maze.dimensions.wf(),
        ensures
            target == first_target(self.entities@, shot, self.dims(), 0),
            target <= self.entities@.len(),
            target != shot.index || target == self.entities@.len(),
    {
        let dims: Dimensions = self.pristine_maze.dimensions;
        let count: usize = self.entities.len();
        let mut index: usize = 0;
        while index < count
            invariant
                dims == self.dims(),
                dims.wf(),
                count == self.entities@.len(),
                index <= count,
                first_target(self.entities@, shot, dims, 0) == first_target(
                    self.entities@,
                    shot,
                    dims,
                    index as int,
                ),
            decreases count - index,
        {
            if self.entities[index].hit(shot.pos, dims) && shot.index != index {
                return index;
            }
            index += 1;
        }
        count
    }

    /// A bullet of age `lifetime` hits the entity at `target`.
    pub fn strike(&mut self, target: usize, lifetime: u32)
        requires
            old(self).wf(),
            old(self).scene().tallied(),
            target < old(self).entities@.len(),
            old(self).counters.score + FACTORY_KILL <= usize::MAX,
            old(self).counters.players_dead < usize::MAX,
        ensures
            final(self).wf(),
            final(self).scene().tallied(),
            final(self).scene() == old(self).scene().struck(target as int, lifetime),
            final(self).same_frame(old(self)),
            final(self).entities@.len() == old(self).entities@.len(),
            forall|i: int|
                0 <= i < final(self).entities@.len() ==> (#[trigger] final(self).entities@[i]).kind_of()
                    == old(self).entities@[i].kind_of(),
            final(self).counters.score <= old(self).counters.score + FACTORY_KILL,
            final(self).counters.players_dead <= old(self).counters.players_dead + 1,
            final(self).counters.dead_brats == old(self).counters.dead_brats,
    {
        assert(RAT_KILL == 50 && BRAT_KILL == 25 && FACTORY_KILL == 250);
        match self.entities[target].kind() {
            Kind::Player => {
                if lifetime > BULLET_HARMLESS_LIFETIME && self.counters.players_left > 0 {
                    self.counters.super_boom = SUPER_BOOM_FRAMES;
                    self.counters.players_dead += 1;
                    self.counters.players_left -= 1;
                    self.explode_at(target);
                    self.sounds.push(Sound::ShortExplosion);
                }
            },
            Kind::Rat => {
                self.counters.score += RAT_KILL;
                self.explode_at(target);
                self.sounds.push(Sound::ShortExplosion);
            },
            Kind::Brat => {
                self.counters.score += BRAT_KILL;
                self.explode_at(target);
                self.sounds.push(Sound::ShortExplosion);
            },
            Kind::Factory => {
                self.counters.super_boom = SUPER_BOOM_FRAMES;
                self.counters.score += FACTORY_KILL;
                self.explode_at(target);
                self.sounds.push(Sound::LongExplosion);
            },
            Kind::Bullet => {
                self.explode_at(target);
                self.sounds.push(Sound::Impact);
            },
        }
    }

    /// Tests every live bullet against the entities, the last bullet
    /// first. A bullet strikes the first entity that it hits, never
    /// itself, and is then spent; the spent bullets leave the game, the
    /// last one first.
    pub fn bullet_hit_tests(&mut self)
        requires
            old(self).wf(),
            old(self).scene().tallied(),
            old(self).counters.score + FACTORY_KILL * old(self).entities@.len() <= usize::MAX,
            old(self).counters.players_dead + old(self).entities@.len() <= usize::MAX,
        ensures
            final(self).wf(),
            final(self).scene().tallied(),
            final(self).scene() == old(self).scene().hit_tested(old(self).dims()),
            final(self).same_frame(old(self)),
            final(self).entities@.len() <= old(self).entities@.len(),
            final(self).counters.score <= old(self).counters.score + FACTORY_KILL * old(
                self,
            ).entities@.len(),
            final(self).counters.dead_brats == old(self).counters.dead_brats,
    {
        assert(FACTORY_KILL == 250);
        let live_bullets: Vec<Shot> = self.live_bullets();
        let count: usize = self.entities.len();
        let mut marks: Vec<bool> = vec![false; count];
        assert(marks@ =~= Seq::new(count as nat, |i: int| false));
        let ghost dims = self.dims();
        let ghost start = self.scene();
        let mut k: usize = live_bullets.len();
        proof {
            assert(live_bullets@.take(k as int) =~= live_bullets@);
            Scene::lemma_spent_len(start, live_bullets@, dims);
            assert(Scene::marked(marks@, start.spent(live_bullets@, dims)) =~= start.spent(
                live_bullets@,
                dims,
            ));
        }
        while k > 0
            invariant
                k <= live_bullets@.len(),
                live_bullets@.len() <= count,
                FACTORY_KILL == 250,
                self.wf(),
                self.scene().tallied(),
                self.same_frame(old(self)),
                dims == self.dims(),
                count == self.entities@.len(),
                count == old(self).entities@.len(),
                marks@.len() == count,
                forall|j: int|
                    0 <= j < live_bullets@.len() ==> (#[trigger] live_bullets@[j]).index < count
                        && old(self).entities@[live_bullets@[j].index as int] is Bullet,
                forall|i: int|
                    0 <= i < count ==> (#[trigger] self.entities@[i]).kind_of() == old(
                        self,
                    ).entities@[i].kind_of(),
                forall|i: int| 0 <= i < count && #[trigger] marks@[i] ==> self.entities@[i] is Bullet,
                self.scene().shot_all(live_bullets@.take(k as int), dims) == start.shot_all(
                    live_bullets@,
                    dims,
                ),
                Scene::marked(marks@, self.scene().spent(live_bullets@.take(k as int), dims))
                    == start.spent(live_bullets@, dims),
                self.counters.score + FACTORY_KILL * k <= usize::MAX,
                self.counters.players_dead + k <= usize::MAX,
                self.counters.score + FACTORY_KILL * k <= old(self).counters.score + FACTORY_KILL
                    * count,
                self.counters.dead_brats == old(self).counters.dead_brats,
            decreases k,
        {
            let ghost head = live_bullets@.take(k as int);
            let ghost rest = live_bullets@.take(k - 1);
            let ghost before = self.scene();
            let ghost marks_before = marks@;
            proof {
                assert(head.last() == live_bullets@[k - 1]);
                assert(head.drop_last() =~= rest);
            }
            k -= 1;
            let shot: Shot = live_bullets[k];
            let target: usize = self.find_target(shot);
            if target < count {
                self.strike(target, shot.lifetime);
                marks[shot.index] = true;
            }
            proof {
                let after = self.scene();
                let tail = after.spent(rest, dims);
                Scene::lemma_spent_len(after, rest, dims);
                assert(Scene::marked(marks@, tail) =~= Scene::marked(
                    marks_before,
                    before.spent(head, dims),
                )) by {
                    if target < count {
                        assert(before.spent(head, dims) == tail.update(shot.index as int, true));
                    } else {
                        assert(before.spent(head, dims) == tail);
                    }
                }
            }
        }
        proof {
            assert(live_bullets@.take(0) =~= Seq::<Shot>::empty());
            assert(Scene::marked(marks@, Seq::new(count as nat, |i: int| false)) =~= marks@);
            Scene::lemma_spent_len(start, live_bullets@, dims);
            assert(marks@ =~= start.spent(live_bullets@, dims));
        }
        let ghost struck = self.entities@;
        let mut index: usize = count;
        while index > 0
            invariant
                index <= count,
                marks@.len() == count,
                self.wf(),
                self.scene().tallied(),
                self.same_frame(old(self)),
                self.counters == start.shot_all(live_bullets@, dims).counters,
                self.sounds@ == start.shot_all(live_bullets@, dims).sounds,
                self.counters.score <= old(self).counters.score + FACTORY_KILL * count,
                self.counters.dead_brats == old(self).counters.dead_brats,
                count == old(self).entities@.len(),
                index <= self.entities@.len() <= count,
                forall|i: int|
                    0 <= i < index ==> (#[trigger] self.entities@[i]).kind_of() == struck[i].kind_of(),
                forall|i: int| 0 <= i < count && #[trigger] marks@[i] ==> struck[i] is Bullet,
                struck.len() == count,
                swept(self.entities@, marks@, index as int) == swept(struck, marks@, count as int),
            decreases index,
        {
            index -= 1;
            if marks[index] {
                proof {
                    lemma_count_swap_remove(self.entities@, index as int, Kind::Rat);
                    lemma_count_swap_remove(self.entities@, index as int, Kind::Brat);
                    lemma_count_swap_remove(self.entities@, index as int, Kind::Factory);
                    assert(struck[index as int] is Bullet);
                    assert(self.entities@[index as int].kind_of() == struck[index as int].kind_of());
                }
                self.entities.swap_remove(index);
                proof {
                    lemma_count_bound(self.entities@, Kind::Brat);
                }
            }
        }
    }

    /// While the player explodes or lies dead, everything dangerous
    /// within the blast radius starts to explode too, without scoring, so
    /// that the player comes back to a place where it can live.
    pub fn player_update(&mut self)
        requires
            old(self).wf(),
        ensures
            final(self).wf(),
            old(self).scene().tallied() ==> final(self).scene().tallied(),
            final(self).scene() == old(self).scene().blasted(old(self).dims()),
            final(self).same_frame(old(self)),
            final(self).entities@.len() == old(self).entities@.len(),
    {
        let player = *self.get_player();
        let dims: Dimensions = self.pristine_maze.dimensions;
        if player.state != State::Alive {
            let count: usize = self.entities.len();
            let mut index: usize = 0;
            while index < count
                invariant
                    self.wf(),
                    old(self).wf(),
                    old(self).scene().tallied() ==> self.scene().tallied(),
                    self.same_frame(old(self)),
                    self.counters == old(self).counters,
                    self.sounds == old(self).sounds,
                    dims == self.dims(),
                    player == old(self).player(),
                    count == self.entities@.len(),
                    count == old(self).entities@.len(),
                    index <= count,
                    forall|i: int|
                        0 <= i < count ==> #[trigger] self.entities@[i] == (if i < index
                            && Scene::in_blast(old(self).entities@[i], player.pos, dims) {
                            old(self).entities@[i].with_state(State::Exploding1)
                        } else {
                            old(self).entities@[i]
                        }),
                decreases count - index,
            {
                let entity: Entity = self.entities[index];
                let near: bool = match entity {
                    Entity::Rat(rat) => rat.pos.distance_squared_to(player.pos, dims)
                        < PLAYER_BLAST_RADIUS_SQUARED,
                    Entity::Brat(brat) => brat.pos.distance_squared_to(player.pos, dims)
                        < PLAYER_BLAST_RADIUS_SQUARED,
                    Entity::Bullet(bullet) => bullet.pos.distance_squared_to(player.pos, dims)
                        < PLAYER_BLAST_RADIUS_SQUARED,
                    _ => false,
                };
                if near {
                    self.explode_at(index);
                }
                index += 1;
            }
            assert(self.entities@ =~= old(self).scene().blasted(dims).entities);
        }
    }
}

impl Scene {
    /// The marks that are set in either of two lists of marks.
    pub open spec fn marked(marks: Seq<bool>, more: Seq<bool>) -> Seq<bool> {
        Seq::new(marks.len(), |i: int| marks[i] || more[i])
    }

    /// There is a mark for each entity.
    pub proof fn lemma_spent_len(scene: Scene, shots: Seq<Shot>, dims: Dimensions)
        requires
            forall|k: int| 0 <= k < shots.len() ==> (#[trigger] shots[k]).index < scene.entities.len(),
        ensures
            scene.spent(shots, dims).len() == scene.shot_all(shots, dims).entities.len(),
            scene.shot_all(shots, dims).entities.len() == scene.entities.len(),
        decreases shots.len(),
    {
        if shots.len() > 0 {
            let next = scene.shot(shots.last(), dims);
            lemma_no_self_hit(scene.entities, shots.last(), dims, 0);
            assert(next.entities.len() == scene.entities.len());
            assert forall|k: int| 0 <= k < shots.drop_last().len() implies (
            #[trigger] shots.drop_last()[k]).index < next.entities.len() by {
                assert(shots.drop_last()[k] == shots[k]);
            }
            Self::lemma_spent_len(next, shots.drop_last(), dims);
        }
    }
}

} // verus!
