use rats::config::{
    later, BRAT_UPDATE_MS, BULLET_UPDATE_MS, FACTORY_UPDATE_MS, PLAYER_UPDATE_MS, RAT_UPDATE_MS,
};
use rats::entities::brat::{hit_player_1, render_brat, update_brat, update_brat_with, Brat};
use rats::entities::bullet::{render_bullet, update_bullet, Bullet};
use rats::entities::dir::{
    DOWN, DOWN_LEFT, DOWN_RIGHT, LEFT, NONE, RIGHT, UP, UP_LEFT, UP_RIGHT,
};
use rats::entities::factory::{render_factory, update_factory, update_factory_with, Factory};
use rats::entities::player::{render_player, update_player, Player};
use rats::entities::position::{Dimensions, Position};
use rats::entities::rat::{hit_player, player_dir, render_rat, update_rat, update_rat_with, Rat};
use rats::entities::{random_wander, Entity, EntityAction, Kind, State, Wander};
use rats::game_context::Action;
use rats::maze::Maze;
use rats::video::charmaps::{
    BIG_BLANK_START, BIG_BOOM_A1, BIG_BOOM_A2, BRATS_DOWN_A2, BRATS_RIGHT_A1, BULLET_UP_LEFT,
    FACTORY_A1, FACTORY_A2, LIL_BOOM_A1, LIL_BOOM_A2, MAZE_ACROSS, MAZE_DOWN, PLAYER_DOWN,
    PLAYER_LEFT, PLAYER_RIGHT, PLAYER_UP, RATS_LEFT_A1, RATS_UP_A2,
};

const STATES: [State; 5] =
    [State::Alive, State::Exploding1, State::Exploding2, State::Exploding3, State::Dead];

fn open_maze() -> Maze {
    Maze::new(2, 2)
}

fn maze_dims() -> Dimensions {
    Dimensions { rows: 20, cols: 34 }
}

fn at(row: u16, col: u16) -> Position {
    Position { row, col }
}

fn player_at(row: u16, col: u16) -> Player {
    Player {
        next_update: 0,
        pos: at(row, col),
        dir: NONE,
        stop_dir: DOWN,
        state: State::Alive,
        cycle: 0,
    }
}

fn rat_at(row: u16, col: u16) -> Rat {
    Rat { next_update: 0, distance: 3, pos: at(row, col), dir: RIGHT, state: State::Alive, cycle: 0 }
}

fn brat_at(row: u16, col: u16) -> Brat {
    Brat { next_update: 0, distance: 3, pos: at(row, col), dir: RIGHT, state: State::Alive, cycle: 0 }
}

fn bullet_at(row: u16, col: u16, dir: u8) -> Bullet {
    Bullet { next_update: 0, pos: at(row, col), dir, state: State::Alive, cycle: 0, lifetime: 0 }
}

fn factory_at(row: u16, col: u16) -> Factory {
    Factory { next_update: 0, pos: at(row, col), dir: RIGHT, state: State::Alive, cycle: 0 }
}

const TURN: Wander = Wander { dir: UP, distance: 9 };
const BABY: Wander = Wander { dir: LEFT, distance: 25 };

#[test]
fn the_living_are_hit_on_their_cells() {
    let dims = maze_dims();
    let player = player_at(5, 5);
    let factory = factory_at(5, 5);
    for (row, col, inside) in
        [(5, 5, true), (5, 6, true), (6, 5, true), (6, 6, true), (4, 5, false), (5, 7, false), (7, 6, false)]
    {
        assert_eq!(player.hit(at(row, col), dims), inside);
        assert_eq!(factory.hit(at(row, col), dims), inside);
        assert_eq!(Entity::Player(player).hit(at(row, col), dims), inside);
        assert_eq!(Entity::Factory(factory).hit(at(row, col), dims), inside);
    }
    // a rat, a baby rat and a bullet have one cell
    for (row, col, inside) in [(5, 5, true), (5, 6, false), (6, 5, false), (6, 6, false)] {
        assert_eq!(rat_at(5, 5).hit(at(row, col), dims), inside);
        assert_eq!(brat_at(5, 5).hit(at(row, col), dims), inside);
        assert_eq!(bullet_at(5, 5, UP).hit(at(row, col), dims), inside);
        assert_eq!(Entity::Rat(rat_at(5, 5)).hit(at(row, col), dims), inside);
    }
}

#[test]
fn a_square_at_the_edge_is_hit_round_the_edge() {
    let dims = maze_dims();
    let player = player_at(19, 33);
    assert!(player.hit(at(19, 33), dims));
    assert!(player.hit(at(19, 0), dims));
    assert!(player.hit(at(0, 33), dims));
    assert!(player.hit(at(0, 0), dims));
    assert!(!player.hit(at(1, 0), dims));
}

#[test]
fn only_the_living_are_hit() {
    let dims = maze_dims();
    for state in STATES {
        let alive = state == State::Alive;
        assert_eq!(Player { state, ..player_at(5, 5) }.hit(at(5, 5), dims), alive);
        assert_eq!(Rat { state, ..rat_at(5, 5) }.hit(at(5, 5), dims), alive);
        assert_eq!(Brat { state, ..brat_at(5, 5) }.hit(at(5, 5), dims), alive);
        assert_eq!(Factory { state, ..factory_at(5, 5) }.hit(at(5, 5), dims), alive);
        assert_eq!(Bullet { state, ..bullet_at(5, 5, UP) }.hit(at(5, 5), dims), alive);
    }
}

#[test]
fn explode_starts_the_explosion() {
    for state in STATES {
        let mut player = Player { state, ..player_at(5, 5) };
        player.explode();
        assert_eq!(player, Player { state: State::Exploding1, ..player_at(5, 5) });
        let mut entity = Entity::Rat(Rat { state, ..rat_at(1, 2) });
        entity.explode();
        assert_eq!(entity, Entity::Rat(Rat { state: State::Exploding1, ..rat_at(1, 2) }));
    }
    let mut brat = brat_at(1, 1);
    brat.explode();
    assert_eq!(brat.state, State::Exploding1);
    let mut factory = factory_at(1, 1);
    factory.explode();
    assert_eq!(factory.state, State::Exploding1);
    let mut bullet = bullet_at(1, 1, UP);
    bullet.explode();
    assert_eq!(bullet.state, State::Exploding1);
}

#[test]
fn kinds_are_told_apart() {
    assert_eq!(Entity::Player(player_at(0, 0)).kind(), Kind::Player);
    assert_eq!(Entity::Rat(rat_at(0, 0)).kind(), Kind::Rat);
    assert_eq!(Entity::Brat(brat_at(0, 0)).kind(), Kind::Brat);
    assert_eq!(Entity::Factory(factory_at(0, 0)).kind(), Kind::Factory);
    assert_eq!(Entity::Bullet(bullet_at(0, 0, UP)).kind(), Kind::Bullet);
}

#[test]
fn nothing_happens_before_the_update_is_due() {
    let maze = open_maze();
    let player = Player { next_update: 100, dir: RIGHT, ..player_at(5, 5) };
    assert_eq!(update_player(&player, &maze, 99), Action::Nothing);
    assert!(matches!(update_player(&player, &maze, 100), Action::Update(_)));
    let rat = Rat { next_update: 100, ..rat_at(1, 1) };
    assert_eq!(update_rat(&rat, &player, 50, 99, true, &maze), Action::Nothing);
    let brat = Brat { next_update: 100, ..brat_at(1, 1) };
    assert_eq!(update_brat(&brat, &player, 25, 99, &maze), Action::Nothing);
    let factory = Factory { next_update: 100, ..factory_at(1, 1) };
    assert_eq!(update_factory(&factory, 99, true), Action::Nothing);
    let bullet = Bullet { next_update: 100, ..bullet_at(1, 1, UP) };
    assert_eq!(update_bullet(&bullet, &maze, 99), Action::Nothing);
    assert!(matches!(update_bullet(&bullet, &maze, 100), Action::Update(_)));
}

#[test]
fn an_explosion_runs_through_its_frames_in_order() {
    let maze = open_maze();
    let player = player_at(15, 30);
    // a rat: half of its interval between the frames
    let mut rat = Rat { state: State::Exploding1, next_update: 1000, ..rat_at(1, 1) };
    let mut now = 1000;
    for state in [State::Exploding2, State::Exploding3, State::Dead] {
        let action = update_rat(&rat, &player, 50, now, true, &maze);
        let expected = Rat { state, next_update: u64::from(now + RAT_UPDATE_MS / 2), ..rat };
        assert_eq!(action, Action::Update(Entity::Rat(expected)));
        rat = expected;
        assert_eq!(update_rat(&rat, &player, 50, now, true, &maze), Action::Nothing);
        now += RAT_UPDATE_MS / 2;
    }
    assert_eq!(update_rat(&rat, &player, 50, now, true, &maze), Action::Delete);
    // a baby rat
    let mut brat = Brat { state: State::Exploding1, ..brat_at(1, 1) };
    for state in [State::Exploding2, State::Exploding3, State::Dead] {
        let action = update_brat(&brat, &player, 25, 500, &maze);
        let expected = Brat { state, next_update: u64::from(500 + BRAT_UPDATE_MS / 2), ..brat };
        assert_eq!(action, Action::Update(Entity::Brat(expected)));
        brat = Brat { next_update: 0, ..expected };
    }
    assert_eq!(update_brat(&brat, &player, 25, 500, &maze), Action::Delete);
    // a factory
    let mut factory = Factory { state: State::Exploding1, ..factory_at(1, 1) };
    for state in [State::Exploding2, State::Exploding3, State::Dead] {
        let action = update_factory(&factory, 500, true);
        let expected = Factory { state, next_update: u64::from(500 + FACTORY_UPDATE_MS / 2), ..factory };
        assert_eq!(action, Action::Update(Entity::Factory(expected)));
        factory = Factory { next_update: 0, ..expected };
    }
    assert_eq!(update_factory(&factory, 500, true), Action::Delete);
    // a bullet
    let mut bullet = Bullet { state: State::Exploding1, lifetime: 4, ..bullet_at(1, 1, UP) };
    for state in [State::Exploding2, State::Exploding3, State::Dead] {
        let action = update_bullet(&bullet, &maze, 500);
        let expected = Bullet { state, next_update: u64::from(500 + BULLET_UPDATE_MS / 2), ..bullet };
        assert_eq!(action, Action::Update(Entity::Bullet(expected)));
        bullet = Bullet { next_update: 0, ..expected };
    }
    assert_eq!(update_bullet(&bullet, &maze, 500), Action::Delete);
}

#[test]
fn the_player_explodes_dies_and_comes_back() {
    let maze = open_maze();
    let mut player = Player { state: State::Exploding1, dir: RIGHT, cycle: 2, ..player_at(5, 5) };
    for state in [State::Exploding2, State::Exploding3, State::Dead] {
        let action = update_player(&player, &maze, 700);
        let expected = Player { state, next_update: u64::from(700 + PLAYER_UPDATE_MS / 2), ..player };
        assert_eq!(action, Action::Update(Entity::Player(expected)));
        player = Player { next_update: 0, ..expected };
    }
    // dead: alive again where it was, and still for twice its interval
    let action = update_player(&player, &maze, 900);
    let risen = Player { state: State::Alive, next_update: u64::from(900 + 2 * PLAYER_UPDATE_MS), ..player };
    assert_eq!(action, Action::Update(Entity::Player(risen)));
    assert_eq!(risen.pos, at(5, 5));
    assert_eq!(risen.next_update, 1000);
    assert_eq!(update_player(&risen, &maze, 999), Action::Nothing);
    assert!(matches!(update_player(&risen, &maze, 1000), Action::Update(_)));
}

#[test]
fn the_player_moves_where_the_keys_point() {
    let maze = open_maze();
    let player = Player { dir: DOWN_RIGHT, cycle: 3, ..player_at(19, 33) };
    let action = update_player(&player, &maze, 40);
    let moved =
        Player { pos: at(0, 0), cycle: 0, next_update: u64::from(40 + PLAYER_UPDATE_MS), ..player };
    assert_eq!(action, Action::Update(Entity::Player(moved)));
    let standing = Player { dir: NONE, cycle: 1, ..player_at(3, 3) };
    assert_eq!(
        update_player(&standing, &maze, 10),
        Action::Update(Entity::Player(Player { cycle: 2, next_update: 60, ..standing }))
    );
}

#[test]
fn the_player_is_stopped_by_a_wall() {
    let mut maze = open_maze();
    // a wall across, above the player's right column
    maze.buffer.set_char(4, 6, MAZE_ACROSS);
    let mut player = Player { dir: UP, ..player_at(5, 5) };
    assert!(!player.can_advance(&maze, UP));
    assert!(player.can_advance(&maze, DOWN));
    assert!(player.can_advance(&maze, LEFT));
    assert!(player.can_advance(&maze, RIGHT));
    assert!(player.can_advance(&maze, NONE));
    player.advance_all(&maze, UP);
    assert_eq!(player.pos, at(5, 5));
    assert_eq!(
        update_player(&player, &maze, 0),
        Action::Update(Entity::Player(Player { cycle: 1, next_update: 50, ..player }))
    );
}

#[test]
fn the_player_slides_along_a_wall() {
    let mut maze = open_maze();
    for col in 0..34 {
        maze.buffer.set_char(4, col, MAZE_ACROSS);
    }
    let mut player = Player { dir: UP_RIGHT, ..player_at(5, 5) };
    assert!(!player.can_advance(&maze, UP_RIGHT));
    player.advance_all(&maze, UP_RIGHT);
    assert_eq!(player.pos, at(5, 6));
    player.advance_all(&maze, UP_LEFT);
    assert_eq!(player.pos, at(5, 5));
    player.advance_all(&maze, DOWN_LEFT);
    assert_eq!(player.pos, at(6, 4));
    // a wall down the side as well: in the corner nothing moves
    for row in 0..20 {
        maze.buffer.set_char(row, 3, MAZE_DOWN);
    }
    let mut cornered = Player { dir: UP_LEFT, ..player_at(5, 4) };
    cornered.advance_all(&maze, UP_LEFT);
    assert_eq!(cornered.pos, at(5, 4));
}

#[test]
fn advance_takes_a_step_whatever_is_there() {
    let dims = maze_dims();
    let mut player = player_at(0, 0);
    player.advance(UP_LEFT, dims);
    assert_eq!(player, Player { pos: at(19, 33), ..player_at(0, 0) });
    assert_eq!(player.position(), at(19, 33));
    let mut rat = rat_at(3, 3);
    rat.advance(DOWN, dims);
    assert_eq!(rat, Rat { pos: at(4, 3), ..rat_at(3, 3) });
    let mut brat = brat_at(3, 3);
    brat.advance(RIGHT, dims);
    assert_eq!(brat, Brat { pos: at(3, 4), ..brat_at(3, 3) });
}

#[test]
fn a_new_player_stands_in_the_first_cell() {
    let player = Player::new(77);
    assert_eq!(
        player,
        Player {
            next_update: 77,
            pos: at(4, 8),
            dir: NONE,
            stop_dir: DOWN,
            state: State::Alive,
            cycle: 0
        }
    );
    assert_eq!(Player { dir: UP | DOWN | LEFT, ..player }.effective_dir(), LEFT);
}

#[test]
fn a_bullet_flies_straight_and_grows_older() {
    let maze = open_maze();
    let steps = [
        (UP, 4, 5),
        (DOWN, 6, 5),
        (LEFT, 5, 4),
        (RIGHT, 5, 6),
        (UP_LEFT, 4, 4),
        (UP_RIGHT, 4, 6),
        (DOWN_LEFT, 6, 4),
        (DOWN_RIGHT, 6, 6),
        (NONE, 5, 5),
        (UP | DOWN, 5, 5),
    ];
    for (dir, row, col) in steps {
        let bullet = Bullet { lifetime: 7, cycle: 3, ..bullet_at(5, 5, dir) };
        let flown = Bullet {
            pos: at(row, col),
            lifetime: 8,
            cycle: 0,
            next_update: u64::from(30 + BULLET_UPDATE_MS),
            ..bullet
        };
        assert_eq!(update_bullet(&bullet, &maze, 30), Action::Update(Entity::Bullet(flown)));
    }
    let old = Bullet { lifetime: u32::MAX, ..bullet_at(5, 5, UP) };
    assert_eq!(
        update_bullet(&old, &maze, 0),
        Action::Update(Entity::Bullet(Bullet { pos: at(4, 5), next_update: 10, cycle: 1, ..old }))
    );
}

#[test]
fn a_bullet_wraps_round_the_edge_of_the_maze() {
    let maze = open_maze();
    let bullet = bullet_at(7, 33, RIGHT);
    let action = update_bullet(&bullet, &maze, 100);
    assert_eq!(
        action,
        Action::Update(Entity::Bullet(Bullet {
            pos: at(7, 0),
            next_update: 110,
            cycle: 1,
            lifetime: 1,
            ..bullet
        }))
    );
    let up = bullet_at(0, 3, UP_LEFT);
    assert_eq!(
        update_bullet(&up, &maze, 0),
        Action::Update(Entity::Bullet(Bullet {
            pos: at(19, 2),
            next_update: 10,
            cycle: 1,
            lifetime: 1,
            ..up
        }))
    );
}

#[test]
fn a_bullet_ends_in_a_wall() {
    let mut maze = open_maze();
    maze.buffer.set_char(7, 0, MAZE_DOWN);
    assert_eq!(update_bullet(&bullet_at(7, 33, RIGHT), &maze, 100), Action::Delete);
    assert!(matches!(update_bullet(&bullet_at(7, 32, RIGHT), &maze, 100), Action::Update(_)));
}

#[test]
fn a_factory_makes_a_rat_or_shows_its_next_frame() {
    let factory = factory_at(3, 4);
    assert_eq!(
        update_factory_with(&factory, 500, false, 9),
        Action::Update(Entity::Factory(Factory {
            cycle: 1,
            next_update: u64::from(500 + FACTORY_UPDATE_MS),
            ..factory
        }))
    );
    assert_eq!(
        update_factory_with(&Factory { cycle: 1, ..factory }, 500, false, 9),
        Action::Update(Entity::Factory(Factory { cycle: 0, next_update: 750, ..factory }))
    );
    assert_eq!(
        update_factory_with(&factory, 500, true, 9),
        Action::New(Entity::Rat(Rat {
            next_update: 500,
            distance: 9,
            pos: at(3, 4),
            dir: RIGHT,
            state: State::Alive,
            cycle: 0
        }))
    );
    // whichever way the factory faces, its rats set out to the right
    for dir in [NONE, UP, DOWN, LEFT, RIGHT, 0xff] {
        let turned = Factory { dir, ..factory };
        assert_eq!(
            update_factory_with(&turned, 500, true, 9),
            Action::New(Entity::Rat(Rat { dir: RIGHT, ..factory_rat() }))
        );
        match update_factory(&turned, 500, true) {
            Action::New(Entity::Rat(rat)) => assert_eq!(rat.dir, RIGHT),
            other => panic!("{other:?}"),
        }
    }
    for _ in 0..50 {
        match update_factory(&factory, 500, true) {
            Action::New(Entity::Rat(rat)) => {
                assert!((5..=15).contains(&rat.distance));
                assert_eq!(Rat { distance: 9, ..rat }, factory_rat());
            }
            other => panic!("{other:?}"),
        }
    }
}

fn factory_rat() -> Rat {
    Rat { next_update: 500, distance: 9, pos: at(3, 4), dir: RIGHT, state: State::Alive, cycle: 0 }
}

#[test]
fn a_rat_on_the_player_attacks() {
    let maze = open_maze();
    let player = player_at(5, 5);
    // the squares touch as soon as they share a cell
    for (row, col, touching) in [
        (5, 5, true),
        (4, 4, true),
        (6, 6, true),
        (4, 6, true),
        (6, 4, true),
        (3, 5, false),
        (5, 7, false),
        (7, 7, false),
        (5, 3, false),
    ] {
        assert_eq!(hit_player(at(row, col), &player, maze_dims()), touching);
        let action =
            update_rat_with(&rat_at(row, col), &player, 50, 0, true, &maze, TURN, true, BABY);
        assert_eq!(action == Action::Attack(50), touching);
    }
    // a baby rat has to stand on one of the player's cells
    for (row, col, touching) in
        [(5, 5, true), (5, 6, true), (6, 5, true), (6, 6, true), (4, 4, false), (4, 5, false), (7, 6, false)]
    {
        assert_eq!(hit_player_1(at(row, col), &player, maze_dims()), touching);
        let action = update_brat_with(&brat_at(row, col), &player, 25, 0, &maze, TURN);
        assert_eq!(action == Action::Attack(25), touching);
    }
    // the player's state does not matter here
    let dead = Player { state: State::Dead, ..player };
    assert_eq!(
        update_brat_with(&brat_at(5, 5), &dead, 25, 0, &maze, TURN),
        Action::Attack(25)
    );
}

#[test]
fn a_rat_breeds_when_babies_are_wanted_and_the_coin_says_so() {
    let maze = open_maze();
    let player = player_at(15, 30);
    let rat = rat_at(2, 2);
    let baby = Brat {
        next_update: 300,
        distance: 25,
        pos: at(2, 2),
        dir: LEFT,
        state: State::Alive,
        cycle: 0,
    };
    assert_eq!(
        update_rat_with(&rat, &player, 50, 300, true, &maze, TURN, true, BABY),
        Action::New(Entity::Brat(baby))
    );
    assert!(matches!(
        update_rat_with(&rat, &player, 50, 300, false, &maze, TURN, true, BABY),
        Action::Update(_)
    ));
    assert!(matches!(
        update_rat_with(&rat, &player, 50, 300, true, &maze, TURN, false, BABY),
        Action::Update(_)
    ));
}

#[test]
fn a_rat_wanders_until_its_steps_run_out() {
    let maze = open_maze();
    // the player is out of sight: in a maze of 120 by 119 and far away
    let big = Maze::new(12, 7);
    let player = player_at(60, 60);
    let rat = Rat { distance: 2, cycle: 3, ..rat_at(2, 2) };
    let action = update_rat_with(&rat, &player, 50, 300, false, &big, TURN, false, BABY);
    let stepped = Rat {
        pos: at(2, 3),
        distance: 1,
        cycle: 0,
        next_update: u64::from(300 + RAT_UPDATE_MS),
        ..rat
    };
    assert_eq!(action, Action::Update(Entity::Rat(stepped)));
    // out of steps: it stays and turns
    let tired = Rat { distance: 0, ..rat };
    let action = update_rat_with(&tired, &player, 50, 300, false, &big, TURN, false, BABY);
    assert_eq!(
        action,
        Action::Update(Entity::Rat(Rat {
            dir: UP,
            distance: 9,
            cycle: 0,
            next_update: 400,
            ..tired
        }))
    );
    // the same for a baby rat
    let brat = Brat { distance: 2, ..brat_at(2, 2) };
    assert_eq!(
        update_brat_with(&brat, &player, 25, 300, &big, TURN),
        Action::Update(Entity::Brat(Brat {
            pos: at(2, 3),
            distance: 1,
            cycle: 1,
            next_update: u64::from(300 + BRAT_UPDATE_MS),
            ..brat
        }))
    );
    let _ = maze;
}

#[test]
fn a_rat_turns_at_a_wall() {
    let mut big = Maze::new(12, 7);
    let player = player_at(60, 60);
    // a wall right of the rat's square
    big.buffer.set_char(3, 4, MAZE_DOWN);
    let rat = rat_at(2, 2);
    assert!(!rat.can_advance(&big, RIGHT));
    assert!(rat.can_advance(&big, LEFT));
    let action = update_rat_with(&rat, &player, 50, 0, false, &big, TURN, false, BABY);
    assert_eq!(
        action,
        Action::Update(Entity::Rat(Rat { dir: UP, distance: 9, cycle: 1, next_update: 100, ..rat }))
    );
    // a baby rat only minds the cell that it steps on
    let brat = brat_at(3, 3);
    assert!(!brat.can_advance(&big, RIGHT));
    assert!(brat_at(2, 3).can_advance(&big, RIGHT));
    assert_eq!(
        update_brat_with(&brat, &player, 25, 0, &big, TURN),
        Action::Update(Entity::Brat(Brat { dir: UP, distance: 9, cycle: 1, next_update: 75, ..brat }))
    );
}

#[test]
fn an_enemy_turns_to_a_player_in_its_sights() {
    let maze = Maze::new(12, 7);
    assert_eq!(player_dir(at(50, 50), at(40, 50), &maze), Some(UP));
    assert_eq!(player_dir(at(50, 50), at(60, 50), &maze), Some(DOWN));
    assert_eq!(player_dir(at(50, 50), at(50, 30), &maze), Some(LEFT));
    assert_eq!(player_dir(at(50, 50), at(50, 70), &maze), Some(RIGHT));
    // round the edge
    assert_eq!(player_dir(at(2, 50), at(115, 50), &maze), Some(UP));
    // the detection radius is 25 cells
    assert_eq!(player_dir(at(50, 50), at(26, 50), &maze), Some(UP));
    assert_eq!(player_dir(at(50, 50), at(25, 50), &maze), None);
    assert_eq!(player_dir(at(50, 50), at(35, 70), &maze), None);
    assert_eq!(player_dir(at(50, 50), at(35, 69), &maze), Some(RIGHT));
    // a rat that sees the player goes for it
    let rat = Rat { dir: LEFT, ..rat_at(50, 50) };
    let action =
        update_rat_with(&rat, &player_at(40, 50), 50, 0, false, &maze, TURN, false, BABY);
    assert_eq!(
        action,
        Action::Update(Entity::Rat(Rat {
            dir: UP,
            pos: at(49, 50),
            distance: 2,
            cycle: 1,
            next_update: 100,
            ..rat
        }))
    );
}

#[test]
fn a_wall_on_the_way_hides_the_player() {
    let mut maze = Maze::new(12, 7);
    maze.buffer.set_char(45, 50, MAZE_ACROSS);
    assert_eq!(player_dir(at(50, 50), at(40, 50), &maze), None);
    // a wall beside the way, or behind the player's row, does not
    assert_eq!(player_dir(at(50, 51), at(40, 51), &maze), Some(UP));
    assert_eq!(player_dir(at(50, 50), at(46, 50), &maze), Some(UP));
    // the way ends in the player's row, not beyond it
    assert_eq!(player_dir(at(50, 50), at(45, 50), &maze), None);
    // only the row or column of the player has to be reached
    maze.buffer.set_char(20, 40, MAZE_DOWN);
    assert_eq!(player_dir(at(20, 50), at(22, 35), &maze), None);
    assert_eq!(player_dir(at(20, 50), at(22, 41), &maze), Some(LEFT));
    // a rat that cannot see the player keeps its way
    let rat = Rat { dir: LEFT, ..rat_at(50, 50) };
    let action =
        update_rat_with(&rat, &player_at(40, 50), 50, 0, false, &maze, TURN, false, BABY);
    assert_eq!(
        action,
        Action::Update(Entity::Rat(Rat {
            pos: at(50, 49),
            distance: 2,
            cycle: 1,
            next_update: 100,
            ..rat
        }))
    );
}

#[test]
fn the_dice_of_a_rat_are_within_their_ranges() {
    let maze = Maze::new(12, 7);
    let player = player_at(60, 60);
    let tired = Rat { distance: 0, ..rat_at(2, 2) };
    let mut babies = 0;
    let mut turns = 0;
    let mut ways = [false; 16];
    for _ in 0..400 {
        match update_rat(&tired, &player, 50, 0, true, &maze) {
            Action::New(Entity::Brat(brat)) => {
                babies += 1;
                assert!((20..=30).contains(&brat.distance));
                assert!([UP, DOWN, LEFT, RIGHT].contains(&brat.dir));
                assert_eq!(Brat { distance: 25, dir: LEFT, ..brat }, Brat { next_update: 0, distance: 25, pos: at(2, 2), dir: LEFT, state: State::Alive, cycle: 0 });
            }
            Action::Update(Entity::Rat(rat)) => {
                turns += 1;
                assert!((5..=15).contains(&rat.distance));
                assert!([UP, DOWN, LEFT, RIGHT].contains(&rat.dir));
                ways[rat.dir as usize] = true;
                assert_eq!(rat.pos, at(2, 2));
            }
            other => panic!("{other:?}"),
        }
    }
    assert!(babies > 100 && turns > 100);
    assert!(ways[UP as usize] && ways[DOWN as usize] && ways[LEFT as usize] && ways[RIGHT as usize]);
    for _ in 0..100 {
        let wander = random_wander(3, 4);
        assert!((3..=4).contains(&wander.distance));
        assert!([UP, DOWN, LEFT, RIGHT].contains(&wander.dir));
    }
}

#[test]
fn entities_are_drawn_by_state_and_way() {
    let mut maze = open_maze();
    render_rat(&Rat { dir: UP, cycle: 1, ..rat_at(2, 2) }, &mut maze);
    assert_eq!(maze.buffer.get_char(2, 2), RATS_UP_A2);
    assert_eq!(maze.buffer.get_char(2, 3), RATS_UP_A2 + 1);
    assert_eq!(maze.buffer.get_char(3, 2), RATS_UP_A2 + 2);
    assert_eq!(maze.buffer.get_char(3, 3), RATS_UP_A2 + 3);
    render_rat(&Rat { dir: LEFT, cycle: 2, ..rat_at(2, 2) }, &mut maze);
    assert_eq!(maze.buffer.get_char(2, 2), RATS_LEFT_A1);
    render_rat(&Rat { state: State::Exploding2, ..rat_at(2, 2) }, &mut maze);
    assert_eq!(maze.buffer.get_char(2, 2), BIG_BOOM_A2);
    render_rat(&Rat { state: State::Dead, ..rat_at(2, 2) }, &mut maze);
    assert_eq!(maze.buffer.get_char(3, 3), BIG_BLANK_START + 3);

    render_brat(&Brat { dir: DOWN, cycle: 3, ..brat_at(5, 5) }, &mut maze);
    assert_eq!(maze.buffer.get_char(5, 5), BRATS_DOWN_A2);
    assert_eq!(maze.buffer.get_char(5, 6), b' ');
    render_brat(&Brat { dir: UP_LEFT, ..brat_at(5, 5) }, &mut maze);
    assert_eq!(maze.buffer.get_char(5, 5), BRATS_RIGHT_A1);
    render_brat(&Brat { state: State::Exploding3, ..brat_at(5, 5) }, &mut maze);
    assert_eq!(maze.buffer.get_char(5, 5), LIL_BOOM_A1);
    render_brat(&Brat { state: State::Dead, ..brat_at(5, 5) }, &mut maze);
    assert_eq!(maze.buffer.get_char(5, 5), b' ');

    render_bullet(&bullet_at(7, 7, UP_LEFT), &mut maze);
    assert_eq!(maze.buffer.get_char(7, 7), BULLET_UP_LEFT);
    render_bullet(&bullet_at(7, 7, NONE), &mut maze);
    assert_eq!(maze.buffer.get_char(7, 7), b'?');
    render_bullet(&Bullet { state: State::Exploding2, ..bullet_at(7, 7, UP) }, &mut maze);
    assert_eq!(maze.buffer.get_char(7, 7), LIL_BOOM_A2);
    render_bullet(&Bullet { state: State::Dead, ..bullet_at(7, 7, UP) }, &mut maze);
    assert_eq!(maze.buffer.get_char(7, 7), b'*');

    render_factory(&factory_at(9, 9), &mut maze);
    assert_eq!(maze.buffer.get_char(9, 9), FACTORY_A1);
    assert_eq!(maze.buffer.get_char(10, 10), FACTORY_A1 + 3);
    render_factory(&Factory { cycle: 1, ..factory_at(9, 9) }, &mut maze);
    assert_eq!(maze.buffer.get_char(9, 9), FACTORY_A2);
    render_factory(&Factory { state: State::Exploding1, ..factory_at(9, 9) }, &mut maze);
    assert_eq!(maze.buffer.get_char(9, 9), BIG_BOOM_A1);
}

#[test]
fn the_player_is_drawn_facing_its_way() {
    let mut maze = open_maze();
    let glyph = |maze: &mut Maze, player: Player| {
        render_player(&player, maze);
        maze.buffer.get_char(player.pos.row, player.pos.col)
    };
    // at rest it shows where it looked last, standing
    assert_eq!(glyph(&mut maze, Player { stop_dir: DOWN, ..player_at(2, 2) }), PLAYER_DOWN);
    assert_eq!(glyph(&mut maze, Player { stop_dir: UP, cycle: 3, ..player_at(2, 2) }), PLAYER_UP);
    assert_eq!(glyph(&mut maze, Player { stop_dir: LEFT, ..player_at(2, 2) }), PLAYER_LEFT);
    assert_eq!(glyph(&mut maze, Player { stop_dir: RIGHT, ..player_at(2, 2) }), PLAYER_RIGHT);
    assert_eq!(
        glyph(&mut maze, Player { dir: UP | DOWN, stop_dir: LEFT, cycle: 2, ..player_at(2, 2) }),
        PLAYER_LEFT
    );
    // on the move it shows the frames of its stride
    assert_eq!(glyph(&mut maze, Player { dir: UP, cycle: 0, ..player_at(2, 2) }), PLAYER_UP + 4);
    assert_eq!(glyph(&mut maze, Player { dir: UP, cycle: 1, ..player_at(2, 2) }), PLAYER_UP + 4);
    assert_eq!(glyph(&mut maze, Player { dir: UP, cycle: 2, ..player_at(2, 2) }), PLAYER_UP + 8);
    assert_eq!(glyph(&mut maze, Player { dir: DOWN, cycle: 3, ..player_at(2, 2) }), PLAYER_DOWN + 8);
    assert_eq!(
        glyph(&mut maze, Player { dir: DOWN_LEFT, cycle: 0, ..player_at(2, 2) }),
        PLAYER_LEFT + 4
    );
    assert_eq!(
        glyph(&mut maze, Player { dir: UP_RIGHT, cycle: 3, ..player_at(2, 2) }),
        PLAYER_RIGHT + 8
    );
    assert_eq!(maze.buffer.get_char(3, 3), PLAYER_RIGHT + 8 + 3);
    assert_eq!(
        glyph(&mut maze, Player { state: State::Exploding1, ..player_at(2, 2) }),
        BIG_BOOM_A1
    );
    assert_eq!(glyph(&mut maze, Player { state: State::Dead, ..player_at(2, 2) }), BIG_BLANK_START);
}

#[test]
fn the_clock_can_run_to_its_end() {
    let maze = open_maze();
    let end = u32::MAX;
    let player = Player { next_update: u64::from(end), dir: RIGHT, ..player_at(5, 5) };
    assert_eq!(update_player(&player, &maze, end - 1), Action::Nothing);
    assert_eq!(
        update_player(&player, &maze, end),
        Action::Update(Entity::Player(Player {
            next_update: u64::from(end) + 50,
            pos: at(5, 6),
            cycle: 1,
            ..player
        }))
    );
    let dead = Player { state: State::Dead, ..player };
    assert_eq!(
        update_player(&dead, &maze, end),
        Action::Update(Entity::Player(Player {
            next_update: u64::from(end) + 100,
            state: State::Alive,
            ..dead
        }))
    );
    let rat = Rat { state: State::Exploding3, ..rat_at(1, 1) };
    assert_eq!(
        update_rat(&rat, &player, 50, end, true, &maze),
        Action::Update(Entity::Rat(Rat {
            next_update: u64::from(end) + 50,
            state: State::Dead,
            ..rat
        }))
    );
    let brat = Brat { state: State::Exploding1, ..brat_at(1, 1) };
    assert_eq!(
        update_brat(&brat, &player, 25, end, &maze),
        Action::Update(Entity::Brat(Brat {
            next_update: u64::from(end) + 37,
            state: State::Exploding2,
            ..brat
        }))
    );
    // an entity that is due later than the clock can count is never due
    let never = Bullet { next_update: u64::from(end) + 1, ..bullet_at(1, 1, UP) };
    assert_eq!(update_bullet(&never, &maze, end), Action::Nothing);
}

#[test]
fn a_delay_never_overflows_a_timestamp() {
    assert_eq!(later(0, 0), 0);
    assert_eq!(later(1000, 125), 1125);
    assert_eq!(later(u32::MAX, 1), 4_294_967_296);
    assert_eq!(later(u32::MAX, u32::MAX), 8_589_934_590);
}
