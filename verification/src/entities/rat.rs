//! Rats: large, after the player, and given to breeding.

use vstd::prelude::*;
use crate::config::{Timestamp, later, DETECTION_RADIUS_SQUARED, RAT_UPDATE_MS};
use crate::entities::{in_quad, random_wander, Entity, EntityAction, State, Wander};
use crate::entities::brat::{hit_player_1, Brat};
use crate::entities::dir::{Direction, DOWN, LEFT, RIGHT, UP};
use crate::entities::player::{advance_cycle, next_cycle, quad_can_advance, quad_free, Player};
use crate::entities::position::{Dimensions, Position};
use crate::game_context::{flip_a_coin, Action};
use crate::maze::Maze;
use crate::video::Size;
use crate::video::buffer::ATTR_NONE;
use crate::video::charmaps::{
    BIG_BLANK_START, BIG_BOOM_A1, BIG_BOOM_A2, RATS_DOWN_A1, RATS_DOWN_A2, RATS_LEFT_A1,
    RATS_LEFT_A2, RATS_RIGHT_A1, RATS_RIGHT_A2, RATS_UP_A1, RATS_UP_A2,
};
use crate::video::wrapping::{
    lemma_wrap_dec_by_mod, lemma_wrap_dec_by_step, lemma_wrap_inc_by_mod, lemma_wrap_inc_by_step,
};

verus! {

/// A rat. It is drawn on a square of four cells and moves like one, but
/// only its top left cell can be shot.
#[derive(Debug, Clone, Copy, PartialEq, Eq, Structural)]
pub struct Rat {
    /// The time from which the next update is due.
    pub next_update: Timestamp,
    /// Steps left before the rat turns at random.
    pub distance: Size,
    pub pos: Position,
    pub dir: Direction,
    pub state: State,
    /// The frame of its animation: 0 to 3.
    pub cycle: u8,
}

/// How many steps back along an axis of `n` cells lead from `from` to
/// `to`, round the edge if need be.
pub open spec fn steps_back(from: int, to: int, n: int) -> int {
    if from >= to {
        from - to
    } else {
        from + n - to
    }
}

/// How many steps forward along an axis of `n` cells lead from `from` to
/// `to`, round the edge if need be.
pub open spec fn steps_forth(from: int, to: int, n: int) -> int {
    if to >= from {
        to - from
    } else {
        to + n - from
    }
}

/// The cell `k` steps from `pos` in the single direction `dir`.
pub open spec fn run_cell(pos: Position, dir: Direction, k: nat, dims: Dimensions) -> Position {
    if dir == UP {
        pos.moved_up(k, dims)
    } else if dir == DOWN {
        pos.moved_down(k, dims)
    } else if dir == LEFT {
        pos.moved_left(k, dims)
    } else {
        pos.moved_right(k, dims)
    }
}

/// How many steps in the single direction `dir` bring `pos` level with
/// `target`: into its row when `dir` goes up or down, into its column
/// when it goes left or right.
pub open spec fn run_length(pos: Position, target: Position, dir: Direction, dims: Dimensions) -> int {
    if dir == UP {
        steps_back(pos.row as int, target.row as int, dims.rows as int)
    } else if dir == DOWN {
        steps_forth(pos.row as int, target.row as int, dims.rows as int)
    } else if dir == LEFT {
        steps_back(pos.col as int, target.col as int, dims.cols as int)
    } else {
        steps_forth(pos.col as int, target.col as int, dims.cols as int)
    }
}

/// Whether the cell `k` steps from `pos` in the direction `dir` is a
/// wall.
pub open spec fn run_blocked(maze: &Maze, pos: Position, dir: Direction, k: int) -> bool {
    let cell = run_cell(pos, dir, k as nat, maze.dimensions);
    maze.wall_at(cell.row as int, cell.col as int)
}

/// Whether no wall stands on the first `steps` cells from `pos` in the
/// direction `dir`.
pub open spec fn run_clear(maze: &Maze, pos: Position, dir: Direction, steps: int) -> bool {
    forall|k: int| 1 <= k <= steps ==> !#[trigger] run_blocked(maze, pos, dir, k)
}

/// The way to the player, for an enemy that has the player in its
/// sights: the player is nearer than the detection radius, and from `pos`
/// in the direction that leads nearest to the player no wall stands
/// before the player's row or column is reached.
pub open spec fn chase(maze: &Maze, pos: Position, target: Position) -> Option<Direction> {
    let dims = maze.dimensions;
    if pos.distance_squared(target, dims) < DETECTION_RADIUS_SQUARED {
        let dir = pos.direction_towards(target, dims);
        if run_clear(maze, pos, dir, run_length(pos, target, dir, dims)) {
            Some(dir)
        } else {
            None
        }
    } else {
        None
    }
}

/// Whether the square of a large entity at `pos` shares a cell with the
/// player's.
pub open spec fn quads_touch(pos: Position, player: Position, dims: Dimensions) -> bool {
    let right = pos.moved_right(1, dims);
    let below = pos.moved_down(1, dims);
    let across = below.moved_right(1, dims);
    in_quad(player, pos, dims) || in_quad(player, right, dims) || in_quad(player, below, dims)
        || in_quad(player, across, dims)
}

impl Rat {
    /// Whether a shot at `pos` hits the rat: a live rat is hit on its top
    /// left cell.
    pub open spec fn covers(&self, pos: Position, dims: Dimensions) -> bool {
        self.state == State::Alive && self.pos == pos
    }

    /// The rat is on the grid and its animation within its frames.
    pub open spec fn wf(&self, dims: Dimensions) -> bool {
        self.pos.within(dims) && self.cycle <= 3
    }

    /// Takes a step in `dir`, whatever is there.
    pub fn advance(&mut self, dir: Direction, dims: Dimensions)
        requires
            dims.wf(),
        ensures
            *final(self) == (Rat { pos: old(self).pos.advanced(dir, dims), ..*old(self) }),
            old(self).pos.within(dims) ==> final(self).pos.within(dims),
    {
        self.pos = self.pos.advance(dir, dims);
    }

    /// Whether a step in `dir` would keep the rat clear of the walls.
    pub fn can_advance(&self, maze: &Maze, dir: Direction) -> (free: bool)
        requires
            maze.wf(),
        ensures
            free == quad_free(maze, self.pos, dir),
    {
        quad_can_advance(maze, self.pos, dir)
    }

    /// The rat after a move at time `now`. It turns towards the player if
    /// it has the player in its sights. Then, with steps left and the way
    /// free, it takes a step; else it stays and starts on the stretch
    /// `wander`.
    pub open spec fn moved(&self, target: Position, now: u32, maze: &Maze, wander: Wander) -> Rat {
        let dir = match chase(maze, self.pos, target) {
            Some(dir) => dir,
            None => self.dir,
        };
        if self.distance == 0 || !quad_free(maze, self.pos, dir) {
            Rat {
                next_update: (now + RAT_UPDATE_MS) as u64,
                cycle: next_cycle(self.cycle),
                dir: wander.dir,
                distance: wander.distance,
                ..*self
            }
        } else {
            Rat {
                next_update: (now + RAT_UPDATE_MS) as u64,
                cycle: next_cycle(self.cycle),
                dir,
                distance: (self.distance - 1) as Size,
                pos: self.pos.advanced(dir, maze.dimensions),
                ..*self
            }
        }
    }

    /// The baby rat that the rat gives birth to at time `now`, to start
    /// on the stretch `first`.
    pub open spec fn offspring(&self, now: u32, first: Wander) -> Brat {
        Brat {
            next_update: now as u64,
            distance: first.distance,
            pos: self.pos,
            dir: first.dir,
            state: State::Alive,
            cycle: 0,
        }
    }

    /// What `update_rat` decides, once the update is due, if `wander` is
    /// the stretch that the rat would start on, `breeds` says whether it
    /// would breed, and `first` is the stretch that its baby would start
    /// on.
    pub open spec fn decision(
        &self,
        player: &Player,
        damage: usize,
        now: u32,
        spawn: bool,
        maze: &Maze,
        wander: Wander,
        breeds: bool,
        first: Wander,
    ) -> Action {
        match self.state {
            State::Alive => {
                if quads_touch(self.pos, player.pos, maze.dimensions) {
                    Action::Attack(damage)
                } else if spawn && breeds {
                    Action::New(Entity::Brat(self.offspring(now, first)))
                } else {
                    Action::Update(Entity::Rat(self.moved(player.pos, now, maze, wander)))
                }
            },
            State::Dead => Action::Delete,
            _ => Action::Update(
                Entity::Rat(
                    Rat {
                        next_update: (now + RAT_UPDATE_MS / 2) as u64,
                        state: self.state.after(),
                        ..*self
                    },
                ),
            ),
        }
    }
}

impl EntityAction for Rat {
    open spec fn hits(&self, pos: Position, dims: Dimensions) -> bool {
        self.covers(pos, dims)
    }

    open spec fn exploded(&self) -> Rat {
        Rat { state: State::Exploding1, ..*self }
    }

    fn hit(&self, pos: Position, dims: Dimensions) -> (hit: bool) {
        self.state == State::Alive && self.pos == pos
    }

    fn explode(&mut self) {
        self.state = State::Exploding1;
    }
}

/// The first of the four glyphs that show a rat.
pub open spec fn rat_glyph(rat: &Rat) -> u8 {
    match rat.state {
        State::Alive => {
            let second = rat.cycle & 0x1 != 0;
            if rat.dir == UP {
                if second {
                    RATS_UP_A2
                } else {
                    RATS_UP_A1
                }
            } else if rat.dir == DOWN {
                if second {
                    RATS_DOWN_A2
                } else {
                    RATS_DOWN_A1
                }
            } else if rat.dir == LEFT {
                if second {
                    RATS_LEFT_A2
                } else {
                    RATS_LEFT_A1
                }
            } else {
                if second {
                    RATS_RIGHT_A2
                } else {
                    RATS_RIGHT_A1
                }
            }
        },
        State::Exploding1 => BIG_BOOM_A1,
        State::Exploding2 => BIG_BOOM_A2,
        State::Exploding3 => BIG_BOOM_A1,
        State::Dead => BIG_BLANK_START,
    }
}

/// Draws a rat into the maze: a large glyph, by its state, its way and
/// the frame of its animation.
pub fn render_rat(rat: &Rat, maze: &mut Maze)
    requires
        old(maze).buffer.wf(),
    ensures
        final(maze).buffer.wf(),
        final(maze).buffer.same_size(&old(maze).buffer),
        final(maze).cell_rows == old(maze).cell_rows,
        final(maze).cell_cols == old(maze).cell_cols,
        final(maze).dimensions == old(maze).dimensions,
        final(maze).buffer.wrote_quad(
            &old(maze).buffer,
            rat.pos.row as int,
            rat.pos.col as int,
            rat_glyph(rat),
            ATTR_NONE,
        ),
{
    let ch: u8 = match rat.state {
        State::Alive => {
            let second: bool = rat.cycle & 0x1 != 0;
            if rat.dir == UP {
                if second {
                    RATS_UP_A2
                } else {
                    RATS_UP_A1
                }
            } else if rat.dir == DOWN {
                if second {
                    RATS_DOWN_A2
                } else {
                    RATS_DOWN_A1
                }
            } else if rat.dir == LEFT {
                if second {
                    RATS_LEFT_A2
                } else {
                    RATS_LEFT_A1
                }
            } else {
                if second {
                    RATS_RIGHT_A2
                } else {
                    RATS_RIGHT_A1
                }
            }
        },
        State::Exploding1 => BIG_BOOM_A1,
        State::Exploding2 => BIG_BOOM_A2,
        State::Exploding3 => BIG_BOOM_A1,
        State::Dead => BIG_BLANK_START,
    };
    maze.buffer.set_quad(rat.pos.row, rat.pos.col, ch, ATTR_NONE);
}

/// What becomes of a rat at time `now`, if `wander` is the stretch that
/// it would start on, `breeds` says whether it would breed, and `first`
/// is the stretch that its baby would start on.
///
/// Before its update is due, nothing. A live rat whose square touches the
/// player's attacks; else, if baby rats are wanted and it would breed, it
/// gives birth where it stands; else it moves. An exploding rat goes on
/// to the next frame after half its interval, and a dead one is deleted.
pub fn update_rat_with(
    rat: &Rat,
    player: &Player,
    damage: usize,
    now: u32,
    spawn: bool,
    maze: &Maze,
    wander: Wander,
    breeds: bool,
    first: Wander,
) -> (action: Action)
    requires
        maze.wf(),
        rat.wf(maze.dimensions),
        player.pos.within(maze.dimensions),
    ensures
        action == (if (now as u64) < rat.next_update {
            Action::Nothing
        } else {
            rat.decision(player, damage, now, spawn, maze, wander, breeds, first)
        }),
        action matches Action::Update(entity) ==> entity.wf(maze.dimensions) && entity is Rat,
        now >= rat.next_update && rat.state != State::Alive ==> action == Entity::Rat(
            *rat,
        ).burnt(now),
        action matches Action::New(entity) ==> entity.wf(maze.dimensions) && entity is Brat,
{
    if (now as u64) < rat.next_update {
        return Action::Nothing;
    }
    let mut rat: Rat = *rat;
    let dims: Dimensions = maze.dimensions;
    match rat.state {
        State::Alive => {
            if hit_player(rat.pos, player, dims) {
                return Action::Attack(damage);
            }
            if spawn && breeds {
                return Action::New(
                    Entity::Brat(
                        Brat {
                            next_update: now as u64,
                            distance: first.distance,
                            pos: rat.pos,
                            dir: first.dir,
                            state: State::Alive,
                            cycle: 0,
                        },
                    ),
                );
            }
            if let Some(dir) = player_dir(rat.pos, player.pos, maze) {
                rat.dir = dir;
            }
            if rat.distance == 0 || !rat.can_advance(maze, rat.dir) {
                rat.dir = wander.dir;
                rat.distance = wander.distance;
            } else {
                rat.advance(rat.dir, dims);
                rat.distance -= 1;
            }
            Action::Update(
                Entity::Rat(
                    Rat {
                        next_update: later(now, RAT_UPDATE_MS),
                        cycle: advance_cycle(rat.cycle),
                        ..rat
                    },
                ),
            )
        },
        State::Exploding1 => Action::Update(
            Entity::Rat(Rat {
                next_update: later(now, RAT_UPDATE_MS / 2),
                state: State::Exploding2,
                ..rat
            }),
        ),
        State::Exploding2 => Action::Update(
            Entity::Rat(Rat {
                next_update: later(now, RAT_UPDATE_MS / 2),
                state: State::Exploding3,
                ..rat
            }),
        ),
        State::Exploding3 => Action::Update(
            Entity::Rat(Rat {
                next_update: later(now, RAT_UPDATE_MS / 2),
                state: State::Dead,
                ..rat
            }),
        ),
        State::Dead => Action::Delete,
    }
}

/// What becomes of a rat at time `now`. Where it has to turn, it turns at
/// random, to walk a random five to fifteen steps; whether it breeds is
/// the toss of a coin; its baby starts in a random direction, to walk a
/// random twenty to thirty steps.
pub fn update_rat(rat: &Rat, player: &Player, damage: usize, now: u32, spawn: bool, maze: &Maze) -> (action:
    Action)
    requires
        maze.wf(),
        rat.wf(maze.dimensions),
        player.pos.within(maze.dimensions),
    ensures
        now < rat.next_update ==> action == Action::Nothing,
        now >= rat.next_update ==> exists|wander: Wander, breeds: bool, first: Wander|
            wander.within(5, 15) && first.within(20, 30) && action == #[trigger] rat.decision(
                player,
                damage,
                now,
                spawn,
                maze,
                wander,
                breeds,
                first,
            ),
        action matches Action::Update(entity) ==> entity.wf(maze.dimensions) && entity is Rat,
        now >= rat.next_update && rat.state != State::Alive ==> action == Entity::Rat(
            *rat,
        ).burnt(now),
        action matches Action::New(entity) ==> entity.wf(maze.dimensions) && entity is Brat,
{
    let wander: Wander = random_wander(5, 15);
    let breeds: bool = flip_a_coin();
    let first: Wander = random_wander(20, 30);
    let action = update_rat_with(rat, player, damage, now, spawn, maze, wander, breeds, first);
    proof {
        if now >= rat.next_update {
            assert(action == rat.decision(player, damage, now, spawn, maze, wander, breeds, first));
        }
    }
    action
}

/// Whether the square of a rat at `pos` shares a cell with the player's,
/// alive or not.
pub fn hit_player(pos: Position, player: &Player, dims: Dimensions) -> (hit: bool)
    requires
        dims.wf(),
    ensures
        hit == quads_touch(pos, player.pos, dims),
{
    if hit_player_1(pos, player, dims) {
        return true;
    }
    let mut pos2: Position = pos;
    pos2.move_right(1, dims);
    if hit_player_1(pos2, player, dims) {
        return true;
    }
    let mut pos2: Position = pos;
    pos2.move_down(1, dims);
    if hit_player_1(pos2, player, dims) {
        return true;
    }
    pos2.move_right(1, dims);
    hit_player_1(pos2, player, dims)
}

/// Whether no wall stands on the first `steps` cells from `pos` in the
/// single direction `dir`.
fn run_is_clear(maze: &Maze, pos: Position, dir: Direction, steps: Size) -> (clear: bool)
    requires
        maze.wf(),
        pos.within(maze.dimensions),
        dir == UP || dir == DOWN || dir == LEFT || dir == RIGHT,
    ensures
        clear == run_clear(maze, pos, dir, steps as int),
{
    let dims: Dimensions = maze.dimensions;
    let mut at: Position = pos;
    let mut done: Size = 0;
    while done < steps
        invariant
            maze.wf(),
            dims == maze.dimensions,
            pos.within(dims),
            dir == UP || dir == DOWN || dir == LEFT || dir == RIGHT,
            done <= steps,
            at == run_cell(pos, dir, done as nat, dims),
            run_clear(maze, pos, dir, done as int),
        decreases steps - done,
    {
        proof {
            lemma_wrap_dec_by_step(pos.row as int, dims.rows as int, done as nat);
            lemma_wrap_inc_by_step(pos.row as int, dims.rows as int, done as nat);
            lemma_wrap_dec_by_step(pos.col as int, dims.cols as int, done as nat);
            lemma_wrap_inc_by_step(pos.col as int, dims.cols as int, done as nat);
            lemma_wrap_dec_by_mod(pos.row as int, dims.rows as int, done as nat);
            lemma_wrap_inc_by_mod(pos.row as int, dims.rows as int, done as nat);
            lemma_wrap_dec_by_mod(pos.col as int, dims.cols as int, done as nat);
            lemma_wrap_inc_by_mod(pos.col as int, dims.cols as int, done as nat);
        }
        at = if dir == UP {
            at.up(dims)
        } else if dir == DOWN {
            at.down(dims)
        } else if dir == LEFT {
            at.left(dims)
        } else {
            at.right(dims)
        };
        done += 1;
        if maze.is_wall(at.row, at.col) {
            assert(run_blocked(maze, pos, dir, done as int));
            return false;
        }
    }
    true
}

/// The way to the player, for an enemy at `pos` that has the player in
/// its sights; `None` for one that has not.
pub fn player_dir(pos: Position, player_pos: Position, maze: &Maze) -> (way: Option<Direction>)
    requires
        maze.wf(),
        pos.within(maze.dimensions),
        player_pos.within(maze.dimensions),
    ensures
        way == chase(maze, pos, player_pos),
        way matches Some(dir) ==> dir == UP || dir == DOWN || dir == LEFT || dir == RIGHT,
{
    let dims: Dimensions = maze.dimensions;
    if pos.distance_squared_to(player_pos, dims) < DETECTION_RADIUS_SQUARED {
        let dir: Direction = pos.direction_to(player_pos, dims);
        let steps: Size = if dir == UP {
            if pos.row >= player_pos.row {
                pos.row - player_pos.row
            } else {
                pos.row + (dims.rows - player_pos.row)
            }
        } else if dir == DOWN {
            if player_pos.row >= pos.row {
                player_pos.row - pos.row
            } else {
                player_pos.row + (dims.rows - pos.row)
            }
        } else if dir == LEFT {
            if pos.col >= player_pos.col {
                pos.col - player_pos.col
            } else {
                pos.col + (dims.cols - player_pos.col)
            }
        } else {
            if player_pos.col >= pos.col {
                player_pos.col - pos.col
            } else {
                player_pos.col + (dims.cols - pos.col)
            }
        };
        if run_is_clear(maze, pos, dir, steps) {
            Some(dir)
        } else {
            None
        }
    } else {
        None
    }
}

} // verus!
