//! The player: moves where the keys say and slides along walls.

use vstd::prelude::*;
use crate::config::{Timestamp, later, PLAYER_UPDATE_MS};
use crate::entities::{in_quad, quad_holds, Entity, EntityAction, State};
use crate::entities::dir::{
    effective, effective_dir, includes, Direction, DOWN, DOWN_LEFT, DOWN_RIGHT, LEFT, NONE, RIGHT,
    UP, UP_LEFT, UP_RIGHT,
};
use crate::entities::position::{Dimensions, Position};
use crate::game_context::Action;
use crate::maze::{Maze, MAZE_CELL_COLS, MAZE_CELL_ROWS};
use crate::video::buffer::ATTR_NONE;
use crate::video::charmaps::{
    BIG_BLANK_START, BIG_BOOM_A1, BIG_BOOM_A2, PLAYER_DOWN, PLAYER_LEFT, PLAYER_RIGHT, PLAYER_UP,
};
use crate::video::wrapping::{wrap_inc, SizeWrapping};

verus! {

/// The player. It fills a square of four cells.
#[derive(Debug, Clone, Copy, PartialEq, Eq, Structural)]
pub struct Player {
    /// The time from which the next update is due.
    pub next_update: Timestamp,
    pub pos: Position,
    /// Where the keys that are held point.
    pub dir: Direction,
    /// Where the player looks when no key is held.
    pub stop_dir: Direction,
    pub state: State,
    /// The frame of its animation: 0 to 3.
    pub cycle: u8,
}

/// Whether a large entity at `pos` can take a step in `dir`: whether the
/// cells of the maze that its square newly comes to cover are free of
/// walls. In each direction of `dir` those are the two cells on that side
/// of the square where it would be after the step.
pub open spec fn quad_free(maze: &Maze, pos: Position, dir: Direction) -> bool {
    let there = pos.advanced(dir, maze.dimensions);
    let row1 = there.row as int;
    let col1 = there.col as int;
    let row2 = wrap_inc(row1, maze.dimensions.rows as int);
    let col2 = wrap_inc(col1, maze.dimensions.cols as int);
    !({
        ||| includes(dir, UP) && (maze.wall_at(row1, col1) || maze.wall_at(row1, col2))
        ||| includes(dir, DOWN) && (maze.wall_at(row2, col1) || maze.wall_at(row2, col2))
        ||| includes(dir, LEFT) && (maze.wall_at(row1, col1) || maze.wall_at(row2, col1))
        ||| includes(dir, RIGHT) && (maze.wall_at(row1, col2) || maze.wall_at(row2, col2))
    })
}

/// Whether a large entity at `pos` can take a step in `dir`.
pub fn quad_can_advance(maze: &Maze, pos: Position, dir: Direction) -> (free: bool)
    requires
        maze.wf(),
    ensures
        free == quad_free(maze, pos, dir),
{
    let there: Position = pos.advance(dir, maze.dimensions);
    let (row1, col1) = (there.row, there.col);
    let row2: u16 = there.row.inc(maze.dimensions.rows);
    let col2: u16 = there.col.inc(maze.dimensions.cols);
    !(((dir & UP) != 0 && (maze.is_wall(row1, col1) || maze.is_wall(row1, col2))) || ((dir & DOWN)
        != 0 && (maze.is_wall(row2, col1) || maze.is_wall(row2, col2))) || ((dir & LEFT) != 0 && (
    maze.is_wall(row1, col1) || maze.is_wall(row2, col1))) || ((dir & RIGHT) != 0 && (maze.is_wall(
        row1,
        col2,
    ) || maze.is_wall(row2, col2))))
}

/// Where a large entity at `pos` comes to when it pushes in `dir`: a step
/// in `dir` if that is free; else a step in each of the single directions
/// of `dir` that is free where the entity then is, taken in the order up,
/// down, left, right.
pub open spec fn slid(maze: &Maze, pos: Position, dir: Direction) -> Position {
    let dims = maze.dimensions;
    if quad_free(maze, pos, dir) {
        pos.advanced(dir, dims)
    } else {
        let a = if includes(dir, UP) && quad_free(maze, pos, UP) {
            pos.advanced(UP, dims)
        } else {
            pos
        };
        let b = if includes(dir, DOWN) && quad_free(maze, a, DOWN) {
            a.advanced(DOWN, dims)
        } else {
            a
        };
        let c = if includes(dir, LEFT) && quad_free(maze, b, LEFT) {
            b.advanced(LEFT, dims)
        } else {
            b
        };
        if includes(dir, RIGHT) && quad_free(maze, c, RIGHT) {
            c.advanced(RIGHT, dims)
        } else {
            c
        }
    }
}

/// The frame of a four-frame animation that follows frame `cycle`.
pub open spec fn next_cycle(cycle: u8) -> u8 {
    ((cycle + 1) % 4) as u8
}

/// The frame of a four-frame animation that follows frame `cycle`.
pub fn advance_cycle(cycle: u8) -> (next: u8)
    requires
        cycle <= 3,
    ensures
        next == next_cycle(cycle),
        next <= 3,
{
    assert((cycle + 1) as u8 & 0x3 == (cycle + 1) % 4) by (bit_vector)
        requires
            cycle <= 3,
    ;
    (cycle + 1) & 0x3
}

impl Player {
    /// Whether a shot at `pos` hits the player: a live player is hit on
    /// any of its four cells.
    pub open spec fn covers(&self, pos: Position, dims: Dimensions) -> bool {
        self.state == State::Alive && in_quad(self.pos, pos, dims)
    }

    /// The player is on the grid and its animation within its frames.
    pub open spec fn wf(&self, dims: Dimensions) -> bool {
        self.pos.within(dims) && self.cycle <= 3
    }

    /// The player at the start of a game: near the top left corner of the
    /// maze, in the middle of the first cell, at rest and facing down.
    pub open spec fn fresh(now: u32) -> Player {
        Player {
            next_update: now as u64,
            pos: Position { row: 4, col: 8 },
            dir: NONE,
            stop_dir: DOWN,
            state: State::Alive,
            cycle: 0,
        }
    }

    /// The player at the start of a game.
    pub fn new(now: u32) -> (player: Player)
        ensures
            player == Player::fresh(now),
    {
        assert(MAZE_CELL_ROWS / 2 == 4 && MAZE_CELL_COLS / 2 == 8);
        Player {
            next_update: now as u64,
            pos: Position { row: MAZE_CELL_ROWS / 2, col: MAZE_CELL_COLS / 2 },
            dir: NONE,
            stop_dir: DOWN,
            state: State::Alive,
            cycle: 0,
        }
    }

    /// Where the player is.
    pub fn position(&self) -> (pos: Position)
        ensures
            pos == self.pos,
    {
        self.pos
    }

    /// Takes a step in `dir`, whatever is there.
    pub fn advance(&mut self, dir: Direction, dims: Dimensions)
        requires
            dims.wf(),
        ensures
            *final(self) == (Player { pos: old(self).pos.advanced(dir, dims), ..*old(self) }),
            old(self).pos.within(dims) ==> final(self).pos.within(dims),
    {
        self.pos = self.pos.advance(dir, dims);
    }

    /// Whether a step in `dir` would keep the player clear of the walls.
    pub fn can_advance(&self, maze: &Maze, dir: Direction) -> (free: bool)
        requires
            maze.wf(),
        ensures
            free == quad_free(maze, self.pos, dir),
    {
        quad_can_advance(maze, self.pos, dir)
    }

    /// Pushes in `dir`: takes the step if it is free, and else slides
    /// along the wall, a step in each single direction of `dir` that is
    /// free.
    pub fn advance_all(&mut self, maze: &Maze, dir: Direction)
        requires
            maze.wf(),
        ensures
            *final(self) == (Player { pos: slid(maze, old(self).pos, dir), ..*old(self) }),
            old(self).pos.within(maze.dimensions) ==> final(self).pos.within(maze.dimensions),
    {
        let dims: Dimensions = maze.dimensions;
        proof {
            crate::entities::position::lemma_single_steps(self.pos, dims);
        }
        if self.can_advance(maze, dir) {
            self.advance(dir, dims);
        } else {
            if dir & UP != 0 && self.can_advance(maze, UP) {
                self.advance(UP, dims);
            }
            if dir & DOWN != 0 && self.can_advance(maze, DOWN) {
                self.advance(DOWN, dims);
            }
            if dir & LEFT != 0 && self.can_advance(maze, LEFT) {
                self.advance(LEFT, dims);
            }
            if dir & RIGHT != 0 && self.can_advance(maze, RIGHT) {
                self.advance(RIGHT, dims);
            }
        }
    }

    /// Where the held keys point once up has cancelled down and left has
    /// cancelled right.
    pub fn effective_dir(&self) -> (dir: Direction)
        ensures
            dir == effective(self.dir),
    {
        effective_dir(self.dir)
    }

    /// What `update_player` decides, once the update is due.
    pub open spec fn decision(&self, maze: &Maze, now: u32) -> Action {
        match self.state {
            State::Alive => Action::Update(
                Entity::Player(
                    Player {
                        next_update: (now + PLAYER_UPDATE_MS) as u64,
                        cycle: next_cycle(self.cycle),
                        pos: slid(maze, self.pos, self.dir),
                        ..*self
                    },
                ),
            ),
            State::Dead => Action::Update(
                Entity::Player(
                    Player {
                        next_update: (now + PLAYER_UPDATE_MS * 2) as u64,
                        state: State::Alive,
                        ..*self
                    },
                ),
            ),
            _ => Action::Update(
                Entity::Player(
                    Player {
                        next_update: (now + PLAYER_UPDATE_MS / 2) as u64,
                        state: self.state.after(),
                        ..*self
                    },
                ),
            ),
        }
    }
}

impl EntityAction for Player {
    open spec fn hits(&self, pos: Position, dims: Dimensions) -> bool {
        self.covers(pos, dims)
    }

    open spec fn exploded(&self) -> Player {
        Player { state: State::Exploding1, ..*self }
    }

    fn hit(&self, pos: Position, dims: Dimensions) -> (hit: bool) {
        if self.state != State::Alive {
            return false;
        }
        quad_holds(self.pos, pos, dims)
    }

    fn explode(&mut self) {
        self.state = State::Exploding1;
    }
}

/// The way the player is drawn to face: where it moves, or where it
/// looked last when it stands.
pub open spec fn facing(player: &Player) -> Direction {
    if effective(player.dir) == NONE {
        player.stop_dir
    } else {
        effective(player.dir)
    }
}

/// The first glyph of the standing player that faces `dir`: a diagonal
/// shows its horizontal part, and what is no direction shows down.
pub open spec fn facing_glyph(dir: Direction) -> u8 {
    if dir == DOWN_LEFT || dir == UP_LEFT || dir == LEFT {
        PLAYER_LEFT
    } else if dir == DOWN_RIGHT || dir == UP_RIGHT || dir == RIGHT {
        PLAYER_RIGHT
    } else if dir == UP {
        PLAYER_UP
    } else {
        PLAYER_DOWN
    }
}

/// The first of the four glyphs that show the player: alive, the frame
/// of its stride in the direction it faces, the standing frame when it
/// does not move; else the frame of its explosion.
pub open spec fn player_glyph(player: &Player) -> u8 {
    match player.state {
        State::Alive => {
            let stride: int = if effective(player.dir) == NONE {
                0
            } else {
                player.cycle / 2 + 1
            };
            (facing_glyph(facing(player)) + stride * 4) as u8
        },
        State::Exploding1 => BIG_BOOM_A1,
        State::Exploding2 => BIG_BOOM_A2,
        State::Exploding3 => BIG_BOOM_A1,
        State::Dead => BIG_BLANK_START,
    }
}

/// Draws the player into the maze: a large glyph, by its state, the way
/// it faces and the frame of its stride.
pub fn render_player(player: &Player, maze: &mut Maze)
    requires
        old(maze).buffer.wf(),
        player.cycle <= 3,
    ensures
        final(maze).buffer.wf(),
        final(maze).buffer.same_size(&old(maze).buffer),
        final(maze).cell_rows == old(maze).cell_rows,
        final(maze).cell_cols == old(maze).cell_cols,
        final(maze).dimensions == old(maze).dimensions,
        final(maze).buffer.wrote_quad(
            &old(maze).buffer,
            player.pos.row as int,
            player.pos.col as int,
            player_glyph(player),
            ATTR_NONE,
        ),
{
    let ch: u8 = match player.state {
        State::Alive => {
            let moving: Direction = player.effective_dir();
            let dir: Direction = if moving == NONE {
                player.stop_dir
            } else {
                moving
            };
            let cycle: u8 = player.cycle;
            assert(cycle >> 1 == cycle / 2) by (bit_vector);
            let offset: u8 = if moving == NONE {
                0
            } else {
                (cycle >> 1) + 1
            };
            let base: u8 = if dir == DOWN_LEFT || dir == UP_LEFT || dir == LEFT {
                PLAYER_LEFT
            } else if dir == DOWN_RIGHT || dir == UP_RIGHT || dir == RIGHT {
                PLAYER_RIGHT
            } else if dir == UP {
                PLAYER_UP
            } else {
                PLAYER_DOWN
            };
            base + offset * 4
        },
        State::Exploding1 => BIG_BOOM_A1,
        State::Exploding2 => BIG_BOOM_A2,
        State::Exploding3 => BIG_BOOM_A1,
        State::Dead => BIG_BLANK_START,
    };
    maze.buffer.set_quad(player.pos.row, player.pos.col, ch, ATTR_NONE);
}

/// What becomes of the player at time `now`.
///
/// Before its update is due, nothing. A live player pushes where the keys
/// point. An exploding player goes on to the next frame after half its
/// interval. A dead player comes back to life, to move again after twice
/// its interval. The player is never deleted.
pub fn update_player(player: &Player, maze: &Maze, now: u32) -> (action: Action)
    requires
        maze.wf(),
        player.wf(maze.dimensions),
    ensures
        action == (if (now as u64) < player.next_update {
            Action::Nothing
        } else {
            player.decision(maze, now)
        }),
        action matches Action::Update(entity) ==> entity.wf(maze.dimensions) && entity is Player,
        action is Nothing || action is Update,
{
    if (now as u64) < player.next_update {
        return Action::Nothing;
    }
    let mut player: Player = *player;
    match player.state {
        State::Alive => {
            player.advance_all(maze, player.dir);
            Action::Update(
                Entity::Player(
                    Player {
                        next_update: later(now, PLAYER_UPDATE_MS),
                        cycle: advance_cycle(player.cycle),
                        ..player
                    },
                ),
            )
        },
        State::Exploding1 => Action::Update(
            Entity::Player(
                Player {
                    next_update: later(now, PLAYER_UPDATE_MS / 2),
                    state: State::Exploding2,
                    ..player
                },
            ),
        ),
        State::Exploding2 => Action::Update(
            Entity::Player(
                Player {
                    next_update: later(now, PLAYER_UPDATE_MS / 2),
                    state: State::Exploding3,
                    ..player
                },
            ),
        ),
        State::Exploding3 => Action::Update(
            Entity::Player(
                Player {
                    next_update: later(now, PLAYER_UPDATE_MS / 2),
                    state: State::Dead,
                    ..player
                },
            ),
        ),
        State::Dead => Action::Update(
            Entity::Player(
                Player {
                    next_update: later(now, PLAYER_UPDATE_MS * 2),
                    state: State::Alive,
                    ..player
                },
            ),
        ),
    }
}

} // verus!
