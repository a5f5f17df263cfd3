use rats::entities::brat::Brat;
use rats::entities::bullet::Bullet;
use rats::entities::dir::{DOWN, NONE, RIGHT, UP};
use rats::entities::factory::Factory;
use rats::entities::player::Player;
use rats::entities::position::Position;
use rats::entities::rat::Rat;
use rats::entities::{Entity, State};
use rats::game_context::render::render_entity;
use rats::game_context::{Counters, GameContext, GameState};
use rats::maze::Maze;
use rats::video::buffer::{Buffer, ATTR_DIM, ATTR_NONE, ATTR_REVERSE};
use rats::video::charmaps::{
    BRATS_RIGHT_A1, BULLET_UP, FACTORY_A1, MAZE_CROSS, PLAYER_DOWN, RATS_RIGHT_A1,
};
use rats::video::pixels::{
    between, blue, dim, empty_line, green, red, set_pixels, set_pixels_1x1, set_pixels_2x2,
    set_pixels_3x3, set_pixels_4x4, set_pixels_empty, set_pixels_wide, CRT_BACKGROUND,
};

fn hero(row: u16, col: u16) -> Entity {
    Entity::Player(Player {
        next_update: 0,
        pos: Position { row, col },
        dir: NONE,
        stop_dir: DOWN,
        state: State::Alive,
        cycle: 0,
    })
}

fn rodent(row: u16, col: u16) -> Entity {
    Entity::Rat(Rat {
        next_update: 0,
        distance: 3,
        pos: Position { row, col },
        dir: RIGHT,
        state: State::Alive,
        cycle: 0,
    })
}

fn pup(row: u16, col: u16) -> Entity {
    Entity::Brat(Brat {
        next_update: 0,
        distance: 3,
        pos: Position { row, col },
        dir: RIGHT,
        state: State::Alive,
        cycle: 0,
    })
}

fn show_of(entities: Vec<Entity>) -> GameContext {
    GameContext {
        game_state: GameState::Running,
        diagnostics: false,
        frames: 0,
        maze: Maze::new(6, 6),
        pristine_maze: Maze::new(6, 6),
        firing_dir: NONE,
        next_fire_time: 0,
        next_rat_wave: 0,
        next_brat_wave: 0,
        entities,
        counters: Counters::new(),
        rat_damage: 50,
        brat_damage: 25,
        time: 0,
        sounds: Vec::new(),
    }
}

#[test]
fn an_entity_is_drawn_by_its_kind() {
    let mut maze = Maze::new(2, 2);
    render_entity(&hero(2, 2), &mut maze);
    render_entity(&rodent(5, 5), &mut maze);
    render_entity(&pup(8, 8), &mut maze);
    render_entity(
        &Entity::Factory(Factory {
            next_update: 0,
            pos: Position { row: 11, col: 11 },
            dir: RIGHT,
            state: State::Alive,
            cycle: 0,
        }),
        &mut maze,
    );
    render_entity(
        &Entity::Bullet(Bullet {
            next_update: 0,
            pos: Position { row: 14, col: 14 },
            dir: UP,
            state: State::Alive,
            cycle: 0,
            lifetime: 0,
        }),
        &mut maze,
    );
    assert_eq!(maze.buffer.get_char(2, 2), PLAYER_DOWN);
    assert_eq!(maze.buffer.get_char(3, 3), PLAYER_DOWN + 3);
    assert_eq!(maze.buffer.get_char(5, 5), RATS_RIGHT_A1);
    assert_eq!(maze.buffer.get_char(6, 5), RATS_RIGHT_A1 + 2);
    assert_eq!(maze.buffer.get_char(8, 8), BRATS_RIGHT_A1);
    assert_eq!(maze.buffer.get_char(8, 9), b' ');
    assert_eq!(maze.buffer.get_char(11, 12), FACTORY_A1 + 1);
    assert_eq!(maze.buffer.get_char(14, 14), BULLET_UP);
}

#[test]
fn the_picture_shows_the_maze_and_the_entities_the_first_on_top() {
    let mut game = show_of(vec![hero(30, 50), rodent(31, 51), pup(30, 50), pup(40, 40)]);
    game.pristine_maze.buffer.set_chattr(0, 0, MAZE_CROSS, ATTR_DIM);
    game.pristine_maze.buffer.set_char(30, 51, MAZE_CROSS);
    game.maze.buffer.set_char(7, 7, b'!');
    let mut video = Buffer::new(22, 40);
    video.set_chattr(0, 0, b'S', ATTR_REVERSE);
    video.set_chattr(1, 39, b'T', ATTR_DIM);
    video.set_chattr(9, 9, b'x', ATTR_DIM);
    game.render_frame(&mut video);
    let picture = &game.maze.buffer;
    // the maze of the rules is copied, and what the picture held is gone
    assert_eq!(picture.get_chattr(0, 0), (MAZE_CROSS, ATTR_DIM));
    assert_eq!(picture.get_char(7, 7), b' ');
    // the player lies over the baby rat and over the rat
    assert_eq!(picture.get_char(30, 50), PLAYER_DOWN);
    assert_eq!(picture.get_char(30, 51), PLAYER_DOWN + 1);
    assert_eq!(picture.get_char(31, 50), PLAYER_DOWN + 2);
    assert_eq!(picture.get_char(31, 51), PLAYER_DOWN + 3);
    assert_eq!(picture.get_char(31, 52), RATS_RIGHT_A1 + 1);
    assert_eq!(picture.get_char(32, 51), RATS_RIGHT_A1 + 2);
    assert_eq!(picture.get_char(32, 52), RATS_RIGHT_A1 + 3);
    assert_eq!(picture.get_char(40, 40), BRATS_RIGHT_A1);
    // the maze of the rules is left alone
    assert_eq!(game.pristine_maze.buffer.get_char(30, 51), MAZE_CROSS);
    assert_eq!(game.pristine_maze.buffer.get_char(40, 40), b' ');
    // the screen shows the part round the player under the status rows:
    // ten rows up and twenty columns left of it
    assert_eq!(video.get_chattr(0, 0), (b'S', ATTR_REVERSE));
    assert_eq!(video.get_chattr(1, 39), (b'T', ATTR_DIM));
    assert_eq!(video.get_chattr(9, 9), (b' ', ATTR_NONE));
    assert_eq!(video.get_char(12, 20), PLAYER_DOWN);
    assert_eq!(video.get_char(13, 21), PLAYER_DOWN + 3);
    assert_eq!(video.get_char(14, 22), RATS_RIGHT_A1 + 3);
    assert_eq!(video.get_char(2, 0), b' ');
}

#[test]
fn the_window_wraps_round_the_edges_of_the_maze() {
    let mut game = show_of(vec![hero(1, 2), pup(59, 101)]);
    game.pristine_maze.buffer.set_char(0, 0, MAZE_CROSS);
    let mut video = Buffer::new(12, 20);
    game.render_frame(&mut video);
    // the window begins five rows up and ten columns left of the player
    assert_eq!(video.get_char(2 + 5, 10), PLAYER_DOWN);
    assert_eq!(video.get_char(2 + 4, 8), MAZE_CROSS);
    assert_eq!(video.get_char(2 + 3, 7), BRATS_RIGHT_A1);
}

#[test]
fn frames_are_counted_round_the_clock() {
    let mut game = show_of(vec![hero(1, 2)]);
    game.count_frame();
    game.count_frame();
    assert_eq!(game.frames, 2);
    game.frames = u32::MAX;
    game.count_frame();
    assert_eq!(game.frames, 0);
}

#[test]
fn the_screen_flashes_while_a_big_explosion_lasts() {
    let mut game = show_of(vec![hero(1, 2)]);
    let mut video = Buffer::new(5, 4);
    video.set_chattr(3, 3, b'x', ATTR_DIM);
    game.strobe(&mut video, false);
    assert_eq!(video.attributes, {
        let mut plain = vec![0; 20];
        plain[15] = ATTR_DIM;
        plain
    });
    game.counters.super_boom = 2;
    game.frames = 12 * 7 + 5;
    game.strobe(&mut video, true);
    assert_eq!(game.counters.super_boom, 2);
    assert_eq!(video.get_attr(3, 3), ATTR_DIM);
    game.strobe(&mut video, false);
    assert_eq!(game.counters.super_boom, 1);
    for row in 0..5 {
        for col in 0..4 {
            assert_eq!(video.get_attr(row, col), if row >= 2 { ATTR_REVERSE } else { ATTR_NONE });
        }
    }
    assert_eq!(video.get_char(3, 3), b'x');
    // in the dark half of the period nothing is reversed
    let mut dark = Buffer::new(5, 4);
    game.frames = 12 * 7 + 6;
    game.strobe(&mut dark, false);
    assert_eq!(game.counters.super_boom, 0);
    assert_eq!(dark.attributes, vec![0; 20]);
}

#[test]
fn colours_are_taken_apart_dimmed_and_blended() {
    assert_eq!(red(0x123456), 0x12);
    assert_eq!(green(0x123456), 0x34);
    assert_eq!(blue(0x123456), 0x56);
    assert_eq!(red(0xff123456), 0x12);
    assert_eq!(dim(0x80ff81), 0x407f40);
    assert_eq!(dim(0), 0);
    assert_eq!(dim(0xffffff), 0x7f7f7f);
    // each colour is halved and the halves are averaged
    assert_eq!(between(0xffffff, 0x000000), 0x3f3f3f);
    assert_eq!(between(0x80ff80, CRT_BACKGROUND), 0x294926);
    assert_eq!(between(0x102030, 0x102030), 0x081018);
}

#[test]
fn a_bitmap_is_painted_pixel_by_pixel() {
    let mut pixels = vec![9u8; 3 * 8 * 3 + 6];
    set_pixels_1x1(&mut pixels, &[0b1000_0001, 0, 0xff], 3, 0x102030, 0);
    let ink = [0x10, 0x20, 0x30];
    let paper = [0x25, 0x29, 0x19];
    assert_eq!(pixels[0..3], [9, 9, 9]);
    assert_eq!(pixels[3..6], ink);
    assert_eq!(pixels[6..9], paper);
    assert_eq!(pixels[3 + 7 * 3..3 + 8 * 3], ink);
    for k in 8..16 {
        assert_eq!(pixels[3 + k * 3..6 + k * 3], paper);
    }
    for k in 16..24 {
        assert_eq!(pixels[3 + k * 3..6 + k * 3], ink);
    }
    assert_eq!(pixels[75..78], [9, 9, 9]);
    // reversed, ink and paper change places
    set_pixels_1x1(&mut pixels, &[0b1000_0001], 0, 0x102030, 0xff);
    assert_eq!(pixels[0..3], paper);
    assert_eq!(pixels[3..6], ink);
    assert_eq!(pixels[21..24], paper);
}

#[test]
fn a_scaled_pixel_is_rounded_off() {
    let ink = [0xff, 0xff, 0xff];
    let soft = [0x48, 0x49, 0x45];
    let paper = [0x25, 0x29, 0x19];
    // scale 2: a line is two rows of sixteen pixels; the bottom right of
    // each square is soft
    let mut pixels = vec![0u8; 3 * 32];
    set_pixels_2x2(&mut pixels, &[0b0100_0000], 0, 0xffffff, 0);
    let at = |pixels: &[u8], k: usize| [pixels[3 * k], pixels[3 * k + 1], pixels[3 * k + 2]];
    assert_eq!(at(&pixels, 0), paper);
    assert_eq!(at(&pixels, 2), ink);
    assert_eq!(at(&pixels, 3), ink);
    assert_eq!(at(&pixels, 4), paper);
    assert_eq!(at(&pixels, 16 + 2), ink);
    assert_eq!(at(&pixels, 16 + 3), soft);
    // scale 3: the last row and the last column of each square are soft
    let mut pixels = vec![0u8; 3 * 72];
    set_pixels_3x3(&mut pixels, &[0b1000_0000], 0, 0xffffff, 0);
    for r in 0..3 {
        for c in 0..3 {
            let expected = if r < 2 && c < 2 { ink } else { soft };
            assert_eq!(at(&pixels, r * 24 + c), expected);
        }
        assert_eq!(at(&pixels, r * 24 + 3), paper);
    }
    // scale 4
    let mut pixels = vec![0u8; 3 * 128 * 2];
    set_pixels_4x4(&mut pixels, &[0, 0b0000_0001], 0, 0xffffff, 0);
    for r in 0..4 {
        for c in 0..4 {
            let expected = if r < 3 && c < 3 { ink } else { soft };
            assert_eq!(at(&pixels, 128 + r * 32 + 28 + c), expected);
        }
        assert_eq!(at(&pixels, 128 + r * 32 + 27), paper);
    }
    assert_eq!(at(&pixels, 127), paper);
}

#[test]
fn glyphs_are_painted_at_their_place_in_the_texture() {
    let ink = [0x80, 0xfe, 0x40];
    let dimmed = [0x40, 0x7f, 0x20];
    let paper = [0x25, 0x29, 0x19];
    let at = |pixels: &[u8], k: usize| [pixels[3 * k], pixels[3 * k + 1], pixels[3 * k + 2]];
    let glyph = [0x80u8, 0, 0, 0, 0, 0, 0, 0, 0, 0, 0, 0x01];
    let mut pixels = vec![0u8; 256 * 3 * 8 * 12];
    set_pixels(&mut pixels, &glyph, 0x41, ATTR_NONE, 1, 0x80fe40);
    assert_eq!(at(&pixels, 0x41 * 96), ink);
    assert_eq!(at(&pixels, 0x41 * 96 + 1), paper);
    assert_eq!(at(&pixels, 0x41 * 96 + 95), ink);
    assert_eq!(at(&pixels, 0x41 * 96 - 1), [0, 0, 0]);
    assert_eq!(at(&pixels, 0x42 * 96), [0, 0, 0]);
    set_pixels(&mut pixels, &glyph, 0xff, ATTR_DIM | ATTR_REVERSE, 1, 0x80fe40);
    assert_eq!(at(&pixels, 0xff * 96), paper);
    assert_eq!(at(&pixels, 0xff * 96 + 1), dimmed);
    assert_eq!(at(&pixels, 256 * 96 - 1), paper);
    // at scale 2 a glyph takes four times the room
    let mut large = vec![0u8; 256 * 3 * 16 * 24];
    set_pixels(&mut large, &glyph, 2, ATTR_DIM, 2, 0x80fe40);
    assert_eq!(at(&large, 2 * 384), dimmed);
    assert_eq!(at(&large, 2 * 384 + 2), paper);
    assert_eq!(at(&large, 2 * 384 - 1), [0, 0, 0]);
    // at a scale that is none nothing is painted
    let mut none = vec![7u8; 10];
    set_pixels(&mut none, &glyph, 0, ATTR_NONE, 5, 0x80fe40);
    set_pixels(&mut none, &glyph, 0, ATTR_NONE, 0, 0x80fe40);
    assert_eq!(none, vec![7u8; 10]);
}

#[test]
fn a_large_glyph_is_painted_as_four() {
    let ink = [0x00, 0xff, 0xff];
    let paper = [0x25, 0x29, 0x19];
    let at = |pixels: &[u8], k: usize| [pixels[3 * k], pixels[3 * k + 1], pixels[3 * k + 2]];
    // a dot in each corner of the large glyph, and a second glyph
    let mut wide = vec![0u16; 48];
    wide[0] = 0x8001;
    wide[23] = 0x8001;
    wide[24] = 0x0100;
    let mut pixels = vec![0u8; 256 * 3 * 8 * 12];
    set_pixels_wide(&mut pixels, &wide, 0xf8, ATTR_NONE, 1, 0x00ffff);
    // top left glyph: its first pixel; top right: the last of its first line
    assert_eq!(at(&pixels, 0xf8 * 96), ink);
    assert_eq!(at(&pixels, 0xf8 * 96 + 1), paper);
    assert_eq!(at(&pixels, 0xf9 * 96 + 7), ink);
    assert_eq!(at(&pixels, 0xf9 * 96 + 6), paper);
    // bottom left: the first of its last line; bottom right: its last pixel
    assert_eq!(at(&pixels, 0xfa * 96 + 88), ink);
    assert_eq!(at(&pixels, 0xfb * 96 + 95), ink);
    assert_eq!(at(&pixels, 0xfb * 96 + 94), paper);
    // the second large glyph follows: the last pixel of the first line
    // of its left half
    assert_eq!(at(&pixels, 0xfc * 96 + 7), ink);
    assert_eq!(at(&pixels, 0xfc * 96), paper);
    assert_eq!(at(&pixels, 0xff * 96 + 95), paper);
    assert_eq!(at(&pixels, 0xf8 * 96 - 1), [0, 0, 0]);
}

#[test]
fn the_empty_character_set_shows_a_hollow_square() {
    assert_eq!((0..12).map(empty_line).collect::<Vec<u8>>(), [
        0, 0, 0, 0, 0x3c, 0x24, 0x24, 0x3c, 0, 0, 0, 0
    ]);
    for scale in 1..=3usize {
        let mut pixels = vec![7u8; 256 * 3 * (8 * scale) * (12 * scale)];
        set_pixels_empty(&mut pixels, scale);
        let line = 8 * scale * scale;
        for glyph in [0usize, 1, 0x41, 255] {
            for row in 0..12 {
                for r in 0..scale {
                    for bit in 0..8 {
                        for c in 0..scale {
                            let k = (glyph * 12 + row) * line + r * 8 * scale + bit * scale + c;
                            let lit = empty_line(row) & (0x80 >> bit) != 0;
                            assert_eq!(
                                pixels[3 * k..3 * k + 3],
                                [if lit { 0x80 } else { 0 }, 0, 0]
                            );
                        }
                    }
                }
            }
        }
    }
}
