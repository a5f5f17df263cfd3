use rats::entities::dir::{
    effective_dir, stop_dir, DOWN, DOWN_LEFT, DOWN_RIGHT, LEFT, NONE, RIGHT, UP, UP_LEFT, UP_RIGHT,
};
use rats::entities::position::{distance_squared, Dimensions, Position};
use rats::video::wrapping::SizeWrapping;

fn torus_dims() -> Dimensions {
    Dimensions { rows: 20, cols: 34 }
}

#[test]
fn inc_wraps_at_the_edge() {
    assert_eq!(5u16.inc(10), 6);
    assert_eq!(9u16.inc(10), 0);
    assert_eq!(0u16.inc(1), 0);
}

#[test]
fn dec_wraps_at_zero() {
    assert_eq!(5u16.dec(10), 4);
    assert_eq!(0u16.dec(10), 9);
    assert_eq!(0u16.dec(1), 0);
}

#[test]
fn neighbours_wrap_round_every_edge() {
    let dims = torus_dims();
    let corner = Position { row: 0, col: 0 };
    assert_eq!(corner.up(dims), Position { row: 19, col: 0 });
    assert_eq!(corner.left(dims), Position { row: 0, col: 33 });
    let far = Position { row: 19, col: 33 };
    assert_eq!(far.down(dims), Position { row: 0, col: 33 });
    assert_eq!(far.right(dims), Position { row: 19, col: 0 });
    let inner = Position { row: 7, col: 7 };
    assert_eq!(inner.up(dims), Position { row: 6, col: 7 });
    assert_eq!(inner.down(dims), Position { row: 8, col: 7 });
    assert_eq!(inner.left(dims), Position { row: 7, col: 6 });
    assert_eq!(inner.right(dims), Position { row: 7, col: 8 });
}

#[test]
fn moves_by_steps_are_modular() {
    let dims = torus_dims();
    let mut pos = Position { row: 3, col: 30 };
    pos.move_right(10, dims);
    assert_eq!(pos, Position { row: 3, col: 6 });
    pos.move_left(7, dims);
    assert_eq!(pos, Position { row: 3, col: 33 });
    pos.move_up(5, dims);
    assert_eq!(pos, Position { row: 18, col: 33 });
    pos.move_down(22, dims);
    assert_eq!(pos, Position { row: 0, col: 33 });
    pos.move_down(0, dims);
    assert_eq!(pos, Position { row: 0, col: 33 });
}

#[test]
fn a_step_and_its_opposite_cancel_everywhere() {
    let dims = Dimensions { rows: 5, cols: 7 };
    let pairs = [
        (UP, DOWN),
        (DOWN, UP),
        (LEFT, RIGHT),
        (RIGHT, LEFT),
        (UP_LEFT, DOWN_RIGHT),
        (UP_RIGHT, DOWN_LEFT),
        (DOWN_LEFT, UP_RIGHT),
        (DOWN_RIGHT, UP_LEFT),
        (NONE, NONE),
        (UP | DOWN, UP | DOWN),
        (0x0f, 0x0f),
    ];
    for row in 0..dims.rows {
        for col in 0..dims.cols {
            let pos = Position { row, col };
            for (dir, back) in pairs {
                let there = pos.advance(dir, dims);
                assert!(there.row < dims.rows && there.col < dims.cols);
                assert_eq!(there.advance(back, dims), pos);
            }
        }
    }
}

#[test]
fn advance_takes_every_direction_in_the_mask() {
    let dims = torus_dims();
    let pos = Position { row: 0, col: 33 };
    assert_eq!(pos.advance(UP_RIGHT, dims), Position { row: 19, col: 0 });
    assert_eq!(pos.advance(DOWN_LEFT, dims), Position { row: 1, col: 32 });
    assert_eq!(pos.advance(NONE, dims), pos);
    assert_eq!(pos.advance(UP | DOWN, dims), pos);
}

#[test]
fn distance_takes_the_shorter_way_round() {
    let dims = torus_dims();
    let a = Position { row: 1, col: 1 };
    let b = Position { row: 18, col: 32 };
    assert_eq!(a.distance_squared_to(b, dims), 3 * 3 + 3 * 3);
    assert_eq!(b.distance_squared_to(a, dims), 18);
    assert_eq!(distance_squared(a, b, dims), 18);
    let c = Position { row: 11, col: 18 };
    assert_eq!(a.distance_squared_to(c, dims), 10 * 10 + 17 * 17);
    assert_eq!(a.distance_squared_to(a, dims), 0);
}

#[test]
fn distance_does_not_truncate_on_a_large_torus() {
    let dims = Dimensions { rows: 60000, cols: 60000 };
    let a = Position { row: 0, col: 0 };
    let b = Position { row: 30000, col: 30000 };
    assert_eq!(a.distance_squared_to(b, dims), 1_800_000_000);
}

#[test]
fn direction_to_leads_nearest_to_the_target() {
    let dims = torus_dims();
    let pos = Position { row: 10, col: 10 };
    assert_eq!(pos.direction_to(Position { row: 5, col: 10 }, dims), UP);
    assert_eq!(pos.direction_to(Position { row: 15, col: 10 }, dims), DOWN);
    assert_eq!(pos.direction_to(Position { row: 10, col: 2 }, dims), LEFT);
    assert_eq!(pos.direction_to(Position { row: 10, col: 20 }, dims), RIGHT);
    // round the edge is nearer
    assert_eq!(pos.direction_to(Position { row: 10, col: 30 }, dims), LEFT);
    assert_eq!(Position { row: 1, col: 5 }.direction_to(Position { row: 18, col: 5 }, dims), UP);
}

#[test]
fn direction_to_prefers_up_then_down_then_left_among_equals() {
    let dims = torus_dims();
    let pos = Position { row: 10, col: 10 };
    // on the target every step is as good as another
    assert_eq!(pos.direction_to(pos, dims), UP);
    // straight across the torus up and down are equally good
    assert_eq!(pos.direction_to(Position { row: 0, col: 10 }, dims), UP);
    // a diagonal target: up and left are equally good
    assert_eq!(pos.direction_to(Position { row: 7, col: 7 }, dims), UP);
    // down and right are equally good
    assert_eq!(pos.direction_to(Position { row: 13, col: 13 }, dims), DOWN);
    // left and right are equally good half way round
    assert_eq!(pos.direction_to(Position { row: 10, col: 27 }, dims), LEFT);
}

#[test]
fn stop_dir_faces_a_single_direction() {
    assert_eq!(stop_dir(UP), UP);
    assert_eq!(stop_dir(DOWN), DOWN);
    assert_eq!(stop_dir(LEFT), LEFT);
    assert_eq!(stop_dir(RIGHT), RIGHT);
    assert_eq!(stop_dir(UP_LEFT), LEFT);
    assert_eq!(stop_dir(DOWN_LEFT), LEFT);
    assert_eq!(stop_dir(UP_RIGHT), RIGHT);
    assert_eq!(stop_dir(DOWN_RIGHT), RIGHT);
    assert_eq!(stop_dir(NONE), UP);
    assert_eq!(stop_dir(UP | DOWN), UP);
}

#[test]
fn effective_dir_strips_cancelling_pairs() {
    assert_eq!(effective_dir(UP | DOWN), NONE);
    assert_eq!(effective_dir(LEFT | RIGHT), NONE);
    assert_eq!(effective_dir(UP | DOWN | LEFT), LEFT);
    assert_eq!(effective_dir(UP | LEFT | RIGHT), UP);
    assert_eq!(effective_dir(0x0f), NONE);
    assert_eq!(effective_dir(UP_RIGHT), UP_RIGHT);
    assert_eq!(effective_dir(NONE), NONE);
}
