use rats::config::{BRAT_KILL, FACTORY_KILL, RAT_KILL, SUPER_BOOM_FRAMES};
use rats::entities::brat::Brat;
use rats::entities::bullet::Bullet;
use rats::entities::dir::{
    DOWN, DOWN_LEFT, DOWN_RIGHT, LEFT, NONE, RIGHT, UP, UP_LEFT, UP_RIGHT,
};
use rats::entities::factory::Factory;
use rats::entities::player::Player;
use rats::entities::position::{Dimensions, Position};
use rats::entities::rat::Rat;
use rats::entities::{Entity, State};
use rats::game_context::firing::muzzle_of;
use rats::game_context::hits::Shot;
use rats::game_context::{
    clamp_factories, coin_from_roll, direction_from_roll, flip_a_coin, random, random_direction,
    Action, Counters, GameContext, GameState, Sound,
};
use rats::maze::Maze;
use rats::video::charmaps::{MAZE_ACROSS, MAZE_CROSS};
use rats::video::init::InitOptions;

fn pos(row: u16, col: u16) -> Position {
    Position { row, col }
}

fn the_player(row: u16, col: u16) -> Entity {
    Entity::Player(Player {
        next_update: 0,
        pos: pos(row, col),
        dir: NONE,
        stop_dir: DOWN,
        state: State::Alive,
        cycle: 0,
    })
}

fn a_rat(row: u16, col: u16) -> Entity {
    Entity::Rat(Rat {
        next_update: 0,
        distance: 3,
        pos: pos(row, col),
        dir: RIGHT,
        state: State::Alive,
        cycle: 0,
    })
}

fn a_brat(row: u16, col: u16) -> Entity {
    Entity::Brat(Brat {
        next_update: 0,
        distance: 3,
        pos: pos(row, col),
        dir: RIGHT,
        state: State::Alive,
        cycle: 0,
    })
}

fn a_factory(row: u16, col: u16) -> Entity {
    Entity::Factory(Factory {
        next_update: 0,
        pos: pos(row, col),
        dir: RIGHT,
        state: State::Alive,
        cycle: 0,
    })
}

fn a_bullet(row: u16, col: u16, dir: u8, lifetime: u32) -> Entity {
    Entity::Bullet(Bullet {
        next_update: 0,
        pos: pos(row, col),
        dir,
        state: State::Alive,
        cycle: 0,
        lifetime,
    })
}

fn exploding(entity: Entity) -> Entity {
    let mut entity = entity;
    match &mut entity {
        Entity::Player(it) => it.state = State::Exploding1,
        Entity::Rat(it) => it.state = State::Exploding1,
        Entity::Brat(it) => it.state = State::Exploding1,
        Entity::Factory(it) => it.state = State::Exploding1,
        Entity::Bullet(it) => it.state = State::Exploding1,
    }
    entity
}

// A running game in an open maze of 60 by 102 characters that holds
// these entities, with its numbers in order.
fn game_of(entities: Vec<Entity>) -> GameContext {
    let count = |wanted: fn(&Entity) -> bool| entities.iter().filter(|e| wanted(e)).count();
    let counters = Counters {
        live_rats: count(|e| matches!(e, Entity::Rat(_))),
        live_brats: count(|e| matches!(e, Entity::Brat(_))),
        live_factories: count(|e| matches!(e, Entity::Factory(_))),
        ..Counters::new()
    };
    GameContext {
        game_state: GameState::Running,
        diagnostics: false,
        frames: 0,
        maze: Maze::new(6, 6),
        pristine_maze: Maze::new(6, 6),
        firing_dir: NONE,
        next_fire_time: 0,
        next_rat_wave: 1_000_000,
        next_brat_wave: 1_000_000,
        entities,
        counters,
        rat_damage: 50,
        brat_damage: 25,
        time: 0,
        sounds: Vec::new(),
    }
}

#[test]
fn counters_start_with_three_lives_and_full_health() {
    let counters = Counters::new();
    assert_eq!(counters.players_left, 3);
    assert_eq!(counters.health, 100);
    assert_eq!(counters.score, 0);
    assert_eq!(
        counters,
        Counters {
            live_factories: 0,
            dead_factories: 0,
            live_rats: 0,
            dead_rats: 0,
            live_brats: 0,
            dead_brats: 0,
            new_rats: 0,
            new_brats: 0,
            super_boom: 0,
            score: 0,
            health: 100,
            players_left: 3,
            players_dead: 0,
        }
    );
}

#[test]
fn an_update_replaces_the_entity() {
    let mut game = game_of(vec![the_player(4, 8), a_rat(20, 20), a_brat(30, 30)]);
    game.apply_action(1, Action::Update(a_rat(20, 21)));
    assert_eq!(game.entities, vec![the_player(4, 8), a_rat(20, 21), a_brat(30, 30)]);
    assert_eq!(game.counters, Counters { live_rats: 1, live_brats: 1, ..Counters::new() });
    game.apply_action(2, Action::Nothing);
    assert_eq!(game.entities, vec![the_player(4, 8), a_rat(20, 21), a_brat(30, 30)]);
    assert!(game.sounds.is_empty());
}

#[test]
fn a_deleted_entity_is_replaced_by_the_last_and_counted_dead() {
    let mut game = game_of(vec![
        the_player(4, 8),
        a_rat(20, 20),
        a_brat(30, 30),
        a_factory(40, 40),
        a_bullet(9, 9, UP, 0),
    ]);
    game.apply_action(1, Action::Delete);
    assert_eq!(
        game.entities,
        vec![the_player(4, 8), a_bullet(9, 9, UP, 0), a_brat(30, 30), a_factory(40, 40)]
    );
    assert_eq!(
        game.counters,
        Counters { live_rats: 0, dead_rats: 1, live_brats: 1, live_factories: 1, ..Counters::new() }
    );
    game.apply_action(3, Action::Delete);
    assert_eq!(game.entities, vec![the_player(4, 8), a_bullet(9, 9, UP, 0), a_brat(30, 30)]);
    assert_eq!(game.counters.live_factories, 0);
    assert_eq!(game.counters.dead_factories, 1);
    game.apply_action(2, Action::Delete);
    assert_eq!(game.counters.live_brats, 0);
    assert_eq!(game.counters.dead_brats, 1);
    assert!(game.sounds.is_empty());
    // a bullet that leaves is heard, and counts for nothing
    game.apply_action(1, Action::Delete);
    assert_eq!(game.entities, vec![the_player(4, 8)]);
    assert_eq!(game.sounds, vec![Sound::Impact]);
    assert_eq!(
        game.counters,
        Counters { dead_rats: 1, dead_brats: 1, dead_factories: 1, ..Counters::new() }
    );
}

#[test]
fn a_new_entity_joins_at_the_end_and_is_counted() {
    let mut game = game_of(vec![the_player(4, 8), a_factory(40, 40)]);
    game.counters.new_rats = 2;
    game.apply_action(1, Action::New(a_rat(40, 40)));
    assert_eq!(game.entities, vec![the_player(4, 8), a_factory(40, 40), a_rat(40, 40)]);
    assert_eq!(game.counters.live_rats, 1);
    assert_eq!(game.counters.new_rats, 1);
    game.apply_action(2, Action::New(a_brat(40, 40)));
    assert_eq!(game.counters.live_brats, 1);
    assert_eq!(game.counters.new_brats, 0);
    game.apply_action(1, Action::New(a_factory(10, 10)));
    assert_eq!(game.counters.live_factories, 2);
    game.apply_action(1, Action::New(a_bullet(1, 1, UP, 0)));
    assert_eq!(game.entities.len(), 6);
    assert_eq!(game.entities[5], a_bullet(1, 1, UP, 0));
    assert_eq!(
        game.counters,
        Counters { live_rats: 1, live_brats: 1, live_factories: 2, new_rats: 1, ..Counters::new() }
    );
}

#[test]
fn an_attack_costs_health_and_the_attacker() {
    let mut game = game_of(vec![the_player(4, 8), a_rat(4, 8), a_brat(5, 9)]);
    game.apply_action(2, Action::Attack(25));
    assert_eq!(game.entities, vec![the_player(4, 8), a_rat(4, 8), exploding(a_brat(5, 9))]);
    assert_eq!(game.counters.health, 75);
    assert_eq!(game.counters.players_left, 3);
    assert_eq!(game.sounds, vec![Sound::ShortExplosion]);
    game.apply_action(1, Action::Attack(50));
    assert_eq!(game.counters.health, 25);
    assert_eq!(game.entities[0], the_player(4, 8));
    assert_eq!(game.entities[1], exploding(a_rat(4, 8)));
}

#[test]
fn an_attack_that_takes_all_health_costs_a_life() {
    let mut game = game_of(vec![the_player(4, 8), a_rat(4, 8), a_rat(5, 8)]);
    game.counters.health = 50;
    game.apply_action(1, Action::Attack(50));
    assert_eq!(game.entities[0], exploding(the_player(4, 8)));
    assert_eq!(game.entities[1], exploding(a_rat(4, 8)));
    assert_eq!(game.counters.health, 50);
    assert_eq!(game.counters.players_left, 2);
    assert_eq!(game.counters.players_dead, 1);
    // a player that is not alive is not attacked
    game.sounds.clear();
    game.apply_action(2, Action::Attack(50));
    assert_eq!(game.entities[2], a_rat(5, 8));
    assert_eq!(game.counters.players_left, 2);
    assert!(game.sounds.is_empty());
}

#[test]
fn a_player_without_lives_is_attacked_in_vain() {
    let mut game = game_of(vec![the_player(4, 8), a_rat(4, 8)]);
    game.counters.players_left = 0;
    game.counters.health = 10;
    game.apply_action(1, Action::Attack(50));
    assert_eq!(game.entities, vec![the_player(4, 8), exploding(a_rat(4, 8))]);
    assert_eq!(game.counters.players_left, 0);
    assert_eq!(game.counters.players_dead, 0);
    assert_eq!(game.counters.health, 10);
}

#[test]
fn actions_are_applied_from_the_last_to_the_first() {
    let mut game = game_of(vec![
        the_player(4, 8),
        a_rat(20, 20),
        a_rat(21, 21),
        a_factory(40, 40),
        a_brat(30, 30),
    ]);
    let actions = vec![
        (0, Action::Update(the_player(4, 9))),
        (1, Action::Delete),
        (2, Action::Update(a_rat(21, 22))),
        (3, Action::New(a_rat(40, 40))),
        (4, Action::Delete),
    ];
    game.apply_actions(actions);
    // 4 leaves; 3 adds a rat at the end; 2 moves; 1 leaves and the new
    // rat takes its place; the player moves
    assert_eq!(
        game.entities,
        vec![the_player(4, 9), a_rat(40, 40), a_rat(21, 22), a_factory(40, 40)]
    );
    assert_eq!(
        game.counters,
        Counters {
            live_rats: 2,
            dead_rats: 1,
            live_brats: 0,
            dead_brats: 1,
            live_factories: 1,
            ..Counters::new()
        }
    );
}

#[test]
fn every_entity_decides_in_its_turn() {
    let mut game = game_of(vec![
        the_player(4, 8),
        Entity::Rat(Rat {
            next_update: 0,
            distance: 3,
            pos: pos(20, 20),
            dir: RIGHT,
            state: State::Dead,
            cycle: 0,
        }),
        a_bullet(9, 9, RIGHT, 0),
        Entity::Factory(Factory {
            next_update: 900,
            pos: pos(40, 40),
            dir: RIGHT,
            state: State::Alive,
            cycle: 0,
        }),
    ]);
    game.counters.new_rats = 1;
    let actions = game.update_actions(500);
    assert_eq!(actions.len(), 4);
    assert_eq!(
        actions[0],
        (
            0,
            Action::Update(Entity::Player(Player {
                next_update: 550,
                pos: pos(4, 8),
                dir: NONE,
                stop_dir: DOWN,
                state: State::Alive,
                cycle: 1,
            }))
        )
    );
    assert_eq!(actions[1], (1, Action::Delete));
    assert_eq!(
        actions[2],
        (
            2,
            Action::Update(Entity::Bullet(Bullet {
                next_update: 510,
                pos: pos(9, 10),
                dir: RIGHT,
                state: State::Alive,
                cycle: 1,
                lifetime: 1,
            }))
        )
    );
    assert_eq!(actions[3], (3, Action::Nothing));
    // the factory makes a rat once it is due
    let later = game.update_actions(900);
    match later[3] {
        (3, Action::New(Entity::Rat(rat))) => assert_eq!(rat.pos, pos(40, 40)),
        other => panic!("{other:?}"),
    }
}

#[test]
fn a_bullet_brings_down_the_first_entity_on_its_cell() {
    let mut game = game_of(vec![
        the_player(4, 8),
        a_rat(20, 20),
        a_rat(20, 20),
        a_bullet(20, 20, RIGHT, 50),
        a_brat(30, 30),
    ]);
    game.bullet_hit_tests();
    // the first rat explodes, the second is left; the bullet is spent
    // and the last entity takes its place
    assert_eq!(
        game.entities,
        vec![the_player(4, 8), exploding(a_rat(20, 20)), a_rat(20, 20), a_brat(30, 30)]
    );
    assert_eq!(game.counters.score, RAT_KILL);
    assert_eq!(game.counters.live_rats, 2);
    assert_eq!(game.counters.dead_rats, 0);
    assert_eq!(game.sounds, vec![Sound::ShortExplosion]);
}

#[test]
fn a_rat_is_hit_on_its_own_cell_only() {
    let mut game = game_of(vec![
        the_player(4, 8),
        a_rat(20, 20),
        a_bullet(20, 21, RIGHT, 50),
        a_bullet(21, 20, RIGHT, 50),
        a_bullet(21, 21, RIGHT, 50),
    ]);
    game.bullet_hit_tests();
    assert_eq!(game.entities.len(), 5);
    assert_eq!(game.entities[1], a_rat(20, 20));
    assert_eq!(game.counters.score, 0);
}

#[test]
fn the_score_adds_up_what_was_hit() {
    let mut game = game_of(vec![
        the_player(4, 8),
        a_rat(20, 20),
        a_brat(30, 30),
        a_factory(40, 40),
        a_bullet(20, 20, RIGHT, 50),
        a_bullet(30, 30, UP, 50),
        a_bullet(41, 41, LEFT, 50),
    ]);
    game.counters.score = 1000;
    game.bullet_hit_tests();
    assert_eq!(
        game.entities,
        vec![
            the_player(4, 8),
            exploding(a_rat(20, 20)),
            exploding(a_brat(30, 30)),
            exploding(a_factory(40, 40)),
        ]
    );
    assert_eq!(RAT_KILL + BRAT_KILL + FACTORY_KILL, 325);
    assert_eq!(game.counters.score, 1325);
    assert_eq!(game.counters.super_boom, SUPER_BOOM_FRAMES);
    // the last bullet is tested first
    assert_eq!(
        game.sounds,
        vec![Sound::LongExplosion, Sound::ShortExplosion, Sound::ShortExplosion]
    );
    // what was hit still counts as alive, until it leaves
    assert_eq!(
        game.counters,
        Counters {
            score: 1325,
            super_boom: 60,
            live_rats: 1,
            live_brats: 1,
            live_factories: 1,
            ..Counters::new()
        }
    );
    // the explosions run their course, and then the dead are counted
    let mut now = 0;
    for _ in 0..4 {
        now += 1000;
        let actions = game.update_actions(now);
        game.apply_actions(actions);
    }
    assert_eq!(game.entities.len(), 1);
    assert_eq!(
        game.counters,
        Counters {
            score: 1325,
            super_boom: 60,
            dead_rats: 1,
            dead_brats: 1,
            dead_factories: 1,
            ..Counters::new()
        }
    );
}

#[test]
fn a_bullet_does_not_hit_itself() {
    let mut game = game_of(vec![the_player(4, 8), a_bullet(20, 20, RIGHT, 50)]);
    let shot = Shot { index: 1, pos: pos(20, 20), lifetime: 50 };
    assert_eq!(game.find_target(shot), 2);
    game.bullet_hit_tests();
    assert_eq!(game.entities, vec![the_player(4, 8), a_bullet(20, 20, RIGHT, 50)]);
    assert!(game.sounds.is_empty());
    // the same shot from elsewhere does hit it
    assert_eq!(game.find_target(Shot { index: 0, pos: pos(20, 20), lifetime: 50 }), 1);
    assert_eq!(game.find_target(Shot { index: 7, pos: pos(20, 20), lifetime: 50 }), 1);
}

#[test]
fn two_bullets_on_one_cell_bring_each_other_down() {
    let mut game = game_of(vec![
        the_player(4, 8),
        a_bullet(20, 20, RIGHT, 50),
        a_rat(50, 50),
        a_bullet(20, 20, LEFT, 50),
    ]);
    assert_eq!(
        game.live_bullets(),
        vec![
            Shot { index: 1, pos: pos(20, 20), lifetime: 50 },
            Shot { index: 3, pos: pos(20, 20), lifetime: 50 }
        ]
    );
    game.bullet_hit_tests();
    assert_eq!(game.entities, vec![the_player(4, 8), a_rat(50, 50)]);
    assert_eq!(game.sounds, vec![Sound::Impact, Sound::Impact]);
    assert_eq!(game.counters.score, 0);
}

#[test]
fn a_young_bullet_does_not_hurt_the_player() {
    for lifetime in [0, 1, 9, 10] {
        let mut game = game_of(vec![the_player(4, 8), a_bullet(5, 9, RIGHT, lifetime)]);
        game.bullet_hit_tests();
        // the bullet is spent on the player, who is left as it was
        assert_eq!(game.entities, vec![the_player(4, 8)]);
        assert_eq!(game.counters, Counters::new());
        assert!(game.sounds.is_empty());
    }
}

#[test]
fn an_old_bullet_costs_the_player_a_life() {
    let mut game = game_of(vec![the_player(4, 8), a_bullet(5, 9, RIGHT, 11)]);
    game.bullet_hit_tests();
    assert_eq!(game.entities, vec![exploding(the_player(4, 8))]);
    assert_eq!(
        game.counters,
        Counters { players_left: 2, players_dead: 1, super_boom: 60, ..Counters::new() }
    );
    assert_eq!(game.sounds, vec![Sound::ShortExplosion]);
    // without a life left the player is spared
    let mut last = game_of(vec![the_player(4, 8), a_bullet(5, 9, RIGHT, 11)]);
    last.counters.players_left = 0;
    last.bullet_hit_tests();
    assert_eq!(last.entities, vec![the_player(4, 8)]);
    assert_eq!(last.counters.players_dead, 0);
}

#[test]
fn strike_scores_by_kind() {
    let mut game = game_of(vec![
        the_player(4, 8),
        a_rat(20, 20),
        a_brat(30, 30),
        a_factory(40, 40),
        a_bullet(1, 1, UP, 0),
    ]);
    game.strike(2, 0);
    assert_eq!(game.counters.score, 25);
    game.strike(1, 0);
    assert_eq!(game.counters.score, 75);
    game.strike(4, 0);
    assert_eq!(game.counters.score, 75);
    assert_eq!(game.counters.super_boom, 0);
    game.strike(3, 0);
    assert_eq!(game.counters.score, 325);
    assert_eq!(game.counters.super_boom, 60);
    assert_eq!(
        game.sounds,
        vec![Sound::ShortExplosion, Sound::ShortExplosion, Sound::Impact, Sound::LongExplosion]
    );
    assert!(game.entities[1..].iter().all(|entity| match entity {
        Entity::Rat(it) => it.state == State::Exploding1,
        Entity::Brat(it) => it.state == State::Exploding1,
        Entity::Factory(it) => it.state == State::Exploding1,
        Entity::Bullet(it) => it.state == State::Exploding1,
        Entity::Player(_) => false,
    }));
}

#[test]
fn the_blast_of_an_exploding_player_takes_what_is_near() {
    let mut game = game_of(vec![
        exploding(the_player(30, 30)),
        a_rat(30, 39),
        a_rat(30, 40),
        a_brat(24, 22),
        a_brat(36, 38),
        a_bullet(31, 31, UP, 0),
        a_factory(32, 32),
    ]);
    game.counters.score = 7;
    game.player_update();
    assert_eq!(
        game.entities,
        vec![
            exploding(the_player(30, 30)),
            exploding(a_rat(30, 39)),
            a_rat(30, 40),
            a_brat(24, 22),
            a_brat(36, 38),
            exploding(a_bullet(31, 31, UP, 0)),
            a_factory(32, 32),
        ]
    );
    // 6 * 6 + 8 * 8 is the radius squared: just outside
    assert_eq!(game.counters.score, 7);
    assert!(game.sounds.is_empty());
}

#[test]
fn the_blast_holds_an_explosion_at_its_first_frame() {
    let dying = Entity::Rat(Rat {
        next_update: 0,
        distance: 3,
        pos: pos(31, 31),
        dir: RIGHT,
        state: State::Exploding3,
        cycle: 0,
    });
    let mut game = game_of(vec![
        Entity::Player(Player {
            next_update: 0,
            pos: pos(30, 30),
            dir: NONE,
            stop_dir: DOWN,
            state: State::Dead,
            cycle: 0,
        }),
        dying,
    ]);
    game.player_update();
    assert_eq!(game.entities[1], exploding(a_rat(31, 31)));
}

#[test]
fn a_live_player_has_no_blast() {
    let mut game = game_of(vec![the_player(30, 30), a_rat(30, 31), a_bullet(31, 31, UP, 0)]);
    game.player_update();
    assert_eq!(game.entities, vec![the_player(30, 30), a_rat(30, 31), a_bullet(31, 31, UP, 0)]);
}

#[test]
fn the_gun_is_on_the_side_of_the_shot() {
    let dims = Dimensions { rows: 60, cols: 102 };
    let from = pos(10, 10);
    assert_eq!(muzzle_of(from, DOWN, dims), Some(pos(12, 10)));
    assert_eq!(muzzle_of(from, DOWN_LEFT, dims), Some(pos(11, 9)));
    assert_eq!(muzzle_of(from, DOWN_RIGHT, dims), Some(pos(11, 12)));
    assert_eq!(muzzle_of(from, UP, dims), Some(pos(9, 11)));
    assert_eq!(muzzle_of(from, UP_LEFT, dims), Some(pos(9, 9)));
    assert_eq!(muzzle_of(from, UP_RIGHT, dims), Some(pos(9, 12)));
    assert_eq!(muzzle_of(from, LEFT, dims), Some(pos(10, 9)));
    assert_eq!(muzzle_of(from, RIGHT, dims), Some(pos(10, 12)));
    assert_eq!(muzzle_of(from, NONE, dims), None);
    assert_eq!(muzzle_of(from, UP | DOWN, dims), None);
    assert_eq!(muzzle_of(pos(59, 101), DOWN_RIGHT, dims), Some(pos(0, 1)));
    assert_eq!(muzzle_of(pos(0, 0), UP_LEFT, dims), Some(pos(59, 101)));
}

#[test]
fn firing_puts_a_bullet_before_the_gun() {
    let mut game = game_of(vec![the_player(10, 10)]);
    game.start_firing(RIGHT, 1000);
    assert_eq!(game.firing_dir, RIGHT);
    assert_eq!(
        game.entities,
        vec![
            the_player(10, 10),
            Entity::Bullet(Bullet {
                next_update: 1000,
                pos: pos(10, 12),
                dir: RIGHT,
                state: State::Alive,
                cycle: 0,
                lifetime: 0
            })
        ]
    );
    assert_eq!(game.next_fire_time, 1125);
    assert_eq!(game.sounds, vec![Sound::Gunshot]);
    // the gun is not ready yet
    game.fire(1124);
    assert_eq!(game.entities.len(), 2);
    assert_eq!(game.next_fire_time, 1125);
    // the bullet flies on, and the next one follows it
    game.entities[1] = a_bullet(10, 13, RIGHT, 1);
    game.fire(1125);
    assert_eq!(game.entities.len(), 3);
    assert_eq!(game.entities[2], a_bullet(10, 12, RIGHT, 0).with_time(1125));
    assert_eq!(game.next_fire_time, 1250);
    // a key that is held already does not fire again
    game.start_firing(RIGHT, 2000);
    assert_eq!(game.entities.len(), 3);
    game.start_firing(UP, 2000);
    assert_eq!(game.firing_dir, UP_RIGHT);
    assert_eq!(game.effective_firing_dir(), UP_RIGHT);
    assert_eq!(game.entities.len(), 4);
    assert_eq!(game.entities[3], a_bullet(9, 12, UP_RIGHT, 0).with_time(2000));
    game.stop_firing(RIGHT);
    assert_eq!(game.firing_dir, UP);
    game.start_firing(DOWN, 3000);
    // up and down cancel: no way to fire
    assert_eq!(game.effective_firing_dir(), NONE);
    assert_eq!(game.entities.len(), 4);
    assert_eq!(game.next_fire_time, 2125);
    game.stop_firing(DOWN);
    game.fire(3000);
    assert_eq!(game.entities.len(), 5);
    assert_eq!(game.entities[4], a_bullet(9, 11, UP, 0).with_time(3000));
    assert_eq!(game.sounds, vec![Sound::Gunshot; 4]);
    // a bullet that has not left the gun yet is in the way of the next
    game.fire(4000);
    assert_eq!(game.sounds.len(), 4);
    assert_eq!(game.entities.len(), 5);
    assert_eq!(game.entities[4], exploding(a_bullet(9, 11, UP, 0).with_time(3000)));
    assert_eq!(game.next_fire_time, 4125);
}

trait WithTime {
    fn with_time(self, next_update: u64) -> Entity;
}

impl WithTime for Entity {
    fn with_time(self, next_update: u64) -> Entity {
        match self {
            Entity::Bullet(it) => Entity::Bullet(Bullet { next_update, ..it }),
            other => other,
        }
    }
}

#[test]
fn the_gun_does_not_fire_into_a_wall_or_from_the_dead() {
    let mut game = game_of(vec![the_player(10, 10)]);
    game.pristine_maze.buffer.set_char(10, 12, MAZE_ACROSS);
    game.firing_dir = RIGHT;
    game.fire(1000);
    assert_eq!(game.entities.len(), 1);
    assert_eq!(game.next_fire_time, 0);
    // walls in the picture do not count
    let mut other = game_of(vec![the_player(10, 10)]);
    other.maze.buffer.set_char(10, 12, MAZE_ACROSS);
    other.firing_dir = RIGHT;
    other.fire(1000);
    assert_eq!(other.entities.len(), 2);
    let mut dead = game_of(vec![exploding(the_player(10, 10))]);
    dead.firing_dir = RIGHT;
    dead.fire(1000);
    assert_eq!(dead.entities.len(), 1);
    assert_eq!(dead.next_fire_time, 0);
}

#[test]
fn a_shot_at_point_blank_range_blows_up_the_target() {
    let mut game =
        game_of(vec![the_player(10, 10), a_rat(30, 30), a_brat(10, 12), a_factory(9, 11)]);
    game.counters.score = 3;
    game.firing_dir = RIGHT;
    game.fire(1000);
    assert_eq!(
        game.entities,
        vec![the_player(10, 10), a_rat(30, 30), exploding(a_brat(10, 12)), a_factory(9, 11)]
    );
    assert_eq!(game.next_fire_time, 1125);
    assert_eq!(game.counters.score, 3);
    assert!(game.sounds.is_empty());
}

#[test]
fn movement_keys_set_and_clear_the_players_way() {
    let mut game = game_of(vec![the_player(10, 10), a_rat(30, 30)]);
    game.start(UP);
    game.start(LEFT);
    let player = *game.get_player();
    assert_eq!(player.dir, UP_LEFT);
    assert_eq!(player.stop_dir, LEFT);
    assert_eq!(game.player_position(), pos(10, 10));
    game.stop(UP);
    assert_eq!(game.get_player().dir, LEFT);
    assert_eq!(game.get_player().stop_dir, LEFT);
    game.start(DOWN);
    assert_eq!(game.get_player().dir, DOWN_LEFT);
    assert_eq!(game.get_player().stop_dir, DOWN);
    game.stop(NONE);
    assert_eq!(game.get_player().dir, NONE);
    assert_eq!(game.entities[1], a_rat(30, 30));
    game.get_player_mut().cycle = 3;
    assert_eq!(game.get_player().cycle, 3);
    assert_eq!(game.entities.len(), 2);
}

#[test]
fn a_frame_moves_flies_hits_and_blasts() {
    let mut game = game_of(vec![
        Entity::Player(Player {
            next_update: 0,
            pos: pos(10, 10),
            dir: RIGHT,
            stop_dir: RIGHT,
            state: State::Alive,
            cycle: 0,
        }),
        a_bullet(40, 40, RIGHT, 20),
        Entity::Brat(Brat {
            next_update: 5000,
            distance: 3,
            pos: pos(40, 41),
            dir: RIGHT,
            state: State::Alive,
            cycle: 0,
        }),
    ]);
    game.update(100);
    assert_eq!(game.player_position(), pos(10, 11));
    // the bullet flew on to the baby rat, brought it down and is gone
    assert_eq!(game.entities.len(), 2);
    match game.entities[1] {
        Entity::Brat(brat) => {
            assert_eq!(brat.state, State::Exploding1);
            assert_eq!(brat.pos, pos(40, 41));
        }
        other => panic!("{other:?}"),
    }
    assert_eq!(game.counters.score, BRAT_KILL);
    assert_eq!(game.counters.live_brats, 1);
    assert_eq!(game.sounds, vec![Sound::ShortExplosion]);
}

#[test]
fn a_game_that_does_not_run_stands_still() {
    for state in [GameState::Paused, GameState::Finished, GameState::Quit, GameState::Restart] {
        let mut game = game_of(vec![the_player(10, 10), a_bullet(40, 40, RIGHT, 20)]);
        game.game_state = state;
        game.update(100);
        assert_eq!(game.entities, vec![the_player(10, 10), a_bullet(40, 40, RIGHT, 20)]);
        assert_eq!(game.game_state, state);
    }
}

#[test]
fn the_player_is_never_removed() {
    let mut game = game_of(vec![exploding(the_player(10, 10)), a_rat(11, 11)]);
    let mut now = 0;
    let mut seen = Vec::new();
    for _ in 0..12 {
        now += 25;
        game.update(now);
        assert!(matches!(game.entities[0], Entity::Player(_)));
        seen.push(game.get_player().state);
    }
    assert_eq!(
        seen[..6],
        [
            State::Exploding2,
            State::Exploding3,
            State::Dead,
            State::Alive,
            State::Alive,
            State::Alive
        ]
    );
    // the rat in the blast was held at the start of its explosion while
    // the player was down, and then ran through it and left
    assert_eq!(game.entities.len(), 1);
    assert_eq!(game.counters.dead_rats, 1);
    assert_eq!(game.counters.live_rats, 0);
    assert_eq!(game.counters.score, 0);
}

#[test]
fn the_dice_fall_within_their_ranges() {
    let mut seen = [false; 11];
    for _ in 0..500 {
        let roll = random(3, 10);
        assert!((3..=10).contains(&roll));
        seen[roll as usize] = true;
    }
    assert!(seen[3..=10].iter().all(|&hit| hit));
    assert_eq!(random(7, 7), 7);
    assert_eq!(random(0, 0), 0);
    assert_eq!(random(65535, 65535), 65535);
    let mut ways = [false; 16];
    let mut heads = 0;
    for _ in 0..1000 {
        ways[random_direction() as usize] = true;
        if flip_a_coin() {
            heads += 1;
        }
    }
    assert_eq!(ways.iter().filter(|&&way| way).count(), 4);
    assert!(ways[UP as usize] && ways[DOWN as usize] && ways[LEFT as usize] && ways[RIGHT as usize]);
    assert!((300..=700).contains(&heads));
}

#[test]
fn rolls_stand_for_directions_and_for_heads() {
    assert_eq!(direction_from_roll(0), UP);
    assert_eq!(direction_from_roll(1), DOWN);
    assert_eq!(direction_from_roll(2), LEFT);
    assert_eq!(direction_from_roll(3), RIGHT);
    assert_eq!(direction_from_roll(9), RIGHT);
    assert!(!coin_from_roll(0));
    assert!(!coin_from_roll(49));
    assert!(coin_from_roll(50));
    assert!(coin_from_roll(99));
}

#[test]
fn a_factory_is_placed_off_the_walls_and_at_a_distance() {
    let mut game = game_of(vec![the_player(4, 8)]);
    game.pristine_maze.buffer.set_char(31, 31, MAZE_CROSS);
    // on a wall, with any of its four cells
    for (row, col) in [(31, 31), (30, 30), (30, 31), (31, 30)] {
        assert!(!game.place_factory(pos(row, col), 0, 9));
    }
    // less than fifteen cells from where the player starts
    assert!(!game.place_factory(pos(4, 22), 0, 9));
    assert!(!game.place_factory(pos(13, 19), 0, 9));
    assert!(!game.place_factory(pos(54, 8), 0, 9));
    assert_eq!(game.entities.len(), 1);
    assert!(game.place_factory(pos(4, 23), 1, 9));
    assert_eq!(
        game.entities[1],
        Entity::Factory(Factory {
            next_update: 9,
            pos: pos(4, 23),
            dir: RIGHT,
            state: State::Alive,
            cycle: 1
        })
    );
    assert_eq!(game.counters.live_factories, 1);
    // less than five cells from another factory
    assert!(!game.place_factory(pos(4, 27), 0, 9));
    assert!(!game.place_factory(pos(7, 26), 0, 9));
    assert!(game.place_factory(pos(7, 27), 0, 9));
    assert!(game.place_factory(pos(4, 33), 0, 9));
    assert_eq!(game.counters.live_factories, 3);
    assert_eq!(game.entities.len(), 4);
}

#[test]
fn factories_are_seeded_where_they_can_stand() {
    let mut game = game_of(vec![the_player(4, 8)]);
    game.generate_factories(5, 77);
    assert_eq!(game.entities.len(), 6);
    assert_eq!(game.counters.live_factories, 5);
    let dims = Dimensions { rows: 60, cols: 102 };
    let mut places = Vec::new();
    for entity in &game.entities[1..] {
        match entity {
            Entity::Factory(factory) => {
                assert_eq!(factory.state, State::Alive);
                assert_eq!(factory.dir, RIGHT);
                assert_eq!(factory.next_update, 77);
                assert!(factory.cycle <= 1);
                assert!(factory.pos.row < 60 && factory.pos.col < 102);
                assert!(factory.pos.distance_squared_to(pos(4, 8), dims) >= 225);
                for other in &places {
                    assert!(factory.pos.distance_squared_to(*other, dims) >= 25);
                }
                places.push(factory.pos);
            }
            other => panic!("{other:?}"),
        }
    }
}

#[test]
fn factories_that_find_no_place_are_left_out() {
    let mut game = game_of(vec![the_player(4, 8)]);
    for row in 0..60 {
        for col in 0..102 {
            game.pristine_maze.buffer.set_char(row, col, MAZE_CROSS);
        }
    }
    game.generate_factories(3, 0);
    assert_eq!(game.entities.len(), 1);
    assert_eq!(game.counters.live_factories, 0);
    game.generate_factories(0, 0);
    assert_eq!(game.entities.len(), 1);
}

#[test]
fn a_new_game_has_a_player_a_maze_and_factories() {
    let opts = InitOptions::new()
        .maze_height(Some(4))
        .maze_width(Some(5))
        .factories(Some(3))
        .density(Some(100));
    let game = GameContext::create(opts, 250, 25, 30, 60, 5000).unwrap();
    assert_eq!(game.game_state, GameState::Running);
    assert_eq!(game.pristine_maze.cell_rows, 4);
    assert_eq!(game.pristine_maze.cell_cols, 5);
    assert_eq!(game.pristine_maze.rows(), 40);
    assert_eq!(game.pristine_maze.cols(), 85);
    assert_eq!(game.maze.rows(), 40);
    assert_eq!(game.maze.cols(), 85);
    assert_eq!(game.rat_damage, 100);
    assert_eq!(game.brat_damage, 25);
    assert_eq!(game.next_fire_time, 5000);
    assert_eq!(game.next_rat_wave, 5000);
    assert_eq!(game.next_brat_wave, 50_000);
    assert_eq!(game.entities[0], Entity::Player(Player::new(5000)));
    assert!(game.entities.len() <= 4);
    assert!(game.entities[1..].iter().all(|entity| matches!(entity, Entity::Factory(_))));
    assert_eq!(
        game.counters,
        Counters { live_factories: game.entities.len() - 1, ..Counters::new() }
    );
    // the picture is blank until it is drawn; the maze of the rules has
    // its walls
    assert!((0..40).all(|row| (0..85).all(|col| !game.maze.is_wall(row, col))));
    assert!((0..85).all(|col| game.pristine_maze.is_wall(0, col)));
}

#[test]
fn the_maze_is_at_least_as_large_as_the_screen() {
    // 47 rows under the status lines are five cells, 100 columns six
    let game = GameContext::create(InitOptions::new().maze_height(Some(2)).maze_width(Some(2)), 50, 25, 47, 100, 0).unwrap();
    assert_eq!(game.pristine_maze.cell_rows, 5);
    assert_eq!(game.pristine_maze.cell_cols, 6);
    // with nothing chosen the maze has fifteen cells each way
    let plain = GameContext::create(InitOptions::new(), 50, 25, 40, 80, 0).unwrap();
    assert_eq!(plain.pristine_maze.cell_rows, 15);
    assert_eq!(plain.pristine_maze.cell_cols, 15);
    assert!(plain.entities.len() <= 6);
}

#[test]
fn a_maze_of_less_than_two_cells_a_side_is_refused() {
    let small = |rows, cols| InitOptions::new().maze_height(Some(rows)).maze_width(Some(cols));
    assert!(GameContext::create(small(1, 5), 50, 25, 10, 30, 0).is_none());
    assert!(GameContext::create(small(5, 1), 50, 25, 10, 30, 0).is_none());
    assert!(GameContext::create(small(0, 0), 50, 25, 0, 0, 0).is_none());
    assert!(GameContext::create(small(2, 2), 50, 25, 10, 30, 0).is_some());
    // the screen can make up for a small choice
    assert!(GameContext::create(small(1, 1), 50, 25, 20, 32, 0).is_some());
    // and a maze can be too large to count its characters
    assert!(GameContext::create(small(6554, 2), 50, 25, 10, 30, 0).is_none());
    assert!(GameContext::create(small(2, 3856), 50, 25, 10, 30, 0).is_none());
}

#[test]
fn a_maze_of_density_0_has_no_walls() {
    let opts = InitOptions::new().maze_height(Some(3)).maze_width(Some(3)).density(Some(0));
    let game = GameContext::create(opts, 50, 25, 10, 30, 0).unwrap();
    for row in 0..30 {
        for col in 0..51 {
            assert!(!game.pristine_maze.is_wall(row, col));
        }
    }
}

#[test]
fn the_number_of_factories_is_held_between_1_and_100() {
    assert_eq!(clamp_factories(InitOptions::new()), 5);
    assert_eq!(clamp_factories(InitOptions::new().factories(Some(0))), 1);
    assert_eq!(clamp_factories(InitOptions::new().factories(Some(1))), 1);
    assert_eq!(clamp_factories(InitOptions::new().factories(Some(100))), 100);
    assert_eq!(clamp_factories(InitOptions::new().factories(Some(101))), 100);
}

#[test]
fn a_game_starts_anew_with_its_player() {
    let mut game = game_of(vec![the_player(33, 44), a_rat(20, 20), a_brat(30, 30)]);
    game.game_state = GameState::Restart;
    game.counters.score = 999;
    game.counters.players_left = 0;
    game.counters.health = 5;
    game.firing_dir = LEFT;
    game.pristine_maze.buffer.set_char(5, 5, b'x');
    let opts = InitOptions::new().factories(Some(2)).density(Some(100));
    game.new_game(opts, 60_000);
    assert_eq!(game.game_state, GameState::Running);
    assert_eq!(game.entities[0], the_player(33, 44));
    assert!(game.entities.len() <= 3);
    assert!(game.entities[1..].iter().all(|entity| matches!(entity, Entity::Factory(_))));
    assert_eq!(
        game.counters,
        Counters { live_factories: game.entities.len() - 1, ..Counters::new() }
    );
    assert_eq!(game.firing_dir, LEFT);
    assert_eq!(game.pristine_maze.buffer.get_char(5, 5), b' ');
    assert!((0..102).all(|col| game.pristine_maze.is_wall(0, col)));
}

#[test]
fn the_session_pauses_restarts_and_quits() {
    let mut game = game_of(vec![the_player(4, 8)]);
    game.pause();
    assert_eq!(game.game_state, GameState::Paused);
    game.restart();
    assert_eq!(game.game_state, GameState::Paused);
    game.pause();
    assert_eq!(game.game_state, GameState::Running);
    game.game_state = GameState::Finished;
    game.pause();
    assert_eq!(game.game_state, GameState::Finished);
    game.restart();
    assert_eq!(game.game_state, GameState::Restart);
    game.pause();
    assert_eq!(game.game_state, GameState::Restart);
    game.decline();
    assert_eq!(game.game_state, GameState::Restart);
    game.quit();
    assert_eq!(game.game_state, GameState::Quit);
    game.pause();
    game.restart();
    game.decline();
    assert_eq!(game.game_state, GameState::Quit);
    let mut over = game_of(vec![the_player(4, 8)]);
    over.decline();
    assert_eq!(over.game_state, GameState::Running);
    over.game_state = GameState::Finished;
    over.decline();
    assert_eq!(over.game_state, GameState::Quit);
    assert!(!game.diagnostics);
    game.toggle_diagnostics();
    assert!(game.diagnostics);
    game.toggle_diagnostics();
    assert!(!game.diagnostics);
}

#[test]
fn states_have_names() {
    assert_eq!(GameState::Running.label(), "RUNNING");
    assert_eq!(GameState::Paused.label(), "PAUSED");
    assert_eq!(GameState::Finished.label(), "FINISHED");
    assert_eq!(GameState::Quit.label(), "QUIT");
    assert_eq!(GameState::Restart.label(), "RESTART");
}

#[test]
fn waves_are_called_for_when_they_are_due() {
    let mut game = game_of(vec![the_player(4, 8)]);
    game.counters.live_factories = 5;
    game.counters.live_rats = 17;
    game.next_rat_wave = 20_000;
    game.next_brat_wave = 45_000;
    game.spawn_waves(19_999, 7);
    assert_eq!(game.counters.new_rats, 0);
    assert_eq!(game.counters.new_brats, 0);
    game.spawn_waves(20_000, 7);
    // two and a half rats for each of five factories
    assert_eq!(game.counters.new_rats, 12);
    assert_eq!(game.next_rat_wave, 40_000);
    assert_eq!(game.counters.new_brats, 0);
    game.counters.new_rats = 3;
    game.spawn_waves(45_000, 7);
    assert_eq!(game.counters.new_rats, 12);
    assert_eq!(game.next_rat_wave, 65_000);
    // one for every eight rats and seven more
    assert_eq!(game.counters.new_brats, 9);
    assert_eq!(game.next_brat_wave, 90_000);
    // without rats no baby rats are called for
    game.counters.live_rats = 0;
    game.counters.new_brats = 0;
    game.spawn_waves(90_000, 7);
    assert_eq!(game.counters.new_brats, 0);
    assert_eq!(game.next_brat_wave, 90_000);
    game.counters.live_factories = 1;
    game.spawn_waves(200_000, 7);
    assert_eq!(game.counters.new_rats, 2);
}

#[test]
fn the_game_ends_when_the_enemies_or_the_lives_are_gone() {
    // enemies are left and so are lives: the game goes on
    let mut game = game_of(vec![the_player(4, 8), a_rat(20, 20)]);
    game.check_finished(5000, false);
    assert_eq!(game.game_state, GameState::Running);
    let mut factory = game_of(vec![the_player(4, 8), a_factory(20, 20)]);
    factory.check_finished(5000, true);
    assert_eq!(factory.game_state, GameState::Running);
    // no factory and no rat: over; the baby rats are scored
    let mut won = game_of(vec![the_player(4, 8), a_brat(20, 20), a_brat(21, 21)]);
    won.counters.score = 100;
    won.check_finished(5999, false);
    assert_eq!(won.game_state, GameState::Finished);
    assert_eq!(won.time, 5);
    assert_eq!(
        won.counters,
        Counters { score: 150, dead_brats: 2, live_brats: 0, ..Counters::new() }
    );
    // once finished the time stands
    won.check_finished(9000, false);
    assert_eq!(won.time, 5);
    assert_eq!(won.counters.score, 150);
    // no life left
    let mut lost = game_of(vec![the_player(4, 8), a_rat(20, 20), a_factory(30, 30)]);
    lost.counters.players_left = 0;
    lost.game_state = GameState::Paused;
    lost.check_finished(61_000, false);
    assert_eq!(lost.game_state, GameState::Finished);
    assert_eq!(lost.time, 61);
}

#[test]
fn the_classic_game_goes_on_until_the_baby_rats_are_gone() {
    let mut game = game_of(vec![the_player(4, 8), a_brat(20, 20)]);
    game.check_finished(5000, true);
    assert_eq!(game.game_state, GameState::Running);
    assert_eq!(game.counters, Counters { live_brats: 1, ..Counters::new() });
    let mut done = game_of(vec![the_player(4, 8)]);
    done.check_finished(5000, true);
    assert_eq!(done.game_state, GameState::Finished);
    assert_eq!(done.counters, Counters::new());
}

#[test]
fn a_session_that_was_quit_stays_quit() {
    let mut game = game_of(vec![the_player(4, 8), a_brat(20, 20)]);
    game.game_state = GameState::Quit;
    game.check_finished(5000, false);
    assert_eq!(game.game_state, GameState::Quit);
    assert_eq!(game.counters.live_brats, 1);
    assert_eq!(game.time, 0);
    game.play_frame(InitOptions::new(), 6000, false);
    assert_eq!(game.game_state, GameState::Quit);
}

#[test]
fn a_frame_of_play_runs_the_game() {
    let mut game = game_of(vec![the_player(10, 10), a_factory(40, 40)]);
    game.next_rat_wave = 0;
    game.firing_dir = RIGHT;
    game.play_frame(InitOptions::new(), 1000, true);
    assert_eq!(game.game_state, GameState::Running);
    // the held key has fired
    assert_eq!(game.entities.len(), 3);
    assert_eq!(game.entities[2], a_bullet(10, 12, RIGHT, 0).with_time(1000));
    // the wave was called for: two and a half rats for one factory
    assert_eq!(game.counters.new_rats, 2);
    assert_eq!(game.next_rat_wave, 21_000);
    // and the factory answers the call, a rat at a time
    game.play_frame(InitOptions::new(), 2000, true);
    assert_eq!(game.counters.live_rats, 1);
    assert_eq!(game.counters.new_rats, 1);
    game.play_frame(InitOptions::new(), 3000, true);
    game.play_frame(InitOptions::new(), 4000, true);
    assert_eq!(game.counters.live_rats, 2);
    assert_eq!(game.counters.new_rats, 0);
}

#[test]
fn a_frame_of_play_ends_a_game_that_is_over() {
    let mut game = game_of(vec![the_player(10, 10), a_brat(40, 40)]);
    game.play_frame(InitOptions::new(), 7000, false);
    assert_eq!(game.game_state, GameState::Finished);
    assert_eq!(game.time, 7);
    assert_eq!(game.counters.score, BRAT_KILL);
    // finished, it stands still
    game.firing_dir = NONE;
    let entities = game.entities.clone();
    game.play_frame(InitOptions::new(), 8000, false);
    assert_eq!(game.entities, entities);
    assert_eq!(game.game_state, GameState::Finished);
    // and starts anew when asked to
    game.restart();
    game.play_frame(InitOptions::new().factories(Some(1)), 9000, false);
    assert_ne!(game.game_state, GameState::Restart);
    assert_eq!(game.counters.score, 0);
    assert_eq!(game.counters.players_left, 3);
}

#[test]
fn a_game_has_room_until_its_numbers_run_out() {
    let mut game = game_of(vec![the_player(10, 10), a_rat(20, 20), a_factory(30, 30)]);
    assert!(game.has_room());
    // three entities: the score may grow by 550 for each and 25 more
    game.counters.score = usize::MAX - 3 * 550 - 25;
    assert!(game.has_room());
    game.counters.score += 1;
    assert!(!game.has_room());
    game.counters.score = 0;
    // each entity may die once in a step, and the player once for each bullet
    game.counters.players_dead = usize::MAX - 3 * 3;
    assert!(game.has_room());
    game.counters.players_dead += 1;
    assert!(!game.has_room());
    game.counters.players_dead = 0;
    game.counters.dead_brats = usize::MAX - 3 * 3 - 1;
    assert!(game.has_room());
    game.counters.dead_brats += 1;
    assert!(!game.has_room());
    game.counters.dead_brats = 0;
    game.counters.dead_rats = usize::MAX - 3;
    assert!(game.has_room());
    game.counters.dead_rats += 1;
    assert!(!game.has_room());
    game.counters.dead_rats = 0;
    game.counters.dead_factories = usize::MAX - 2;
    assert!(!game.has_room());
}

#[test]
fn a_lone_delete_among_idle_decisions_swaps_with_the_last() {
    let mut game = game_of(vec![
        the_player(10, 10),
        a_rat(20, 20),
        a_brat(30, 30),
        a_factory(40, 40),
    ]);
    let before = game.entities.clone();
    let counters = game.counters;
    game.apply_actions(vec![
        (0, Action::Nothing),
        (1, Action::Delete),
        (2, Action::Nothing),
        (3, Action::Nothing),
    ]);
    assert_eq!(game.entities, vec![before[0], before[3], before[2]]);
    assert_eq!(
        game.counters,
        Counters { live_rats: counters.live_rats - 1, dead_rats: counters.dead_rats + 1, ..counters }
    );
}
