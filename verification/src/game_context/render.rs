//! The picture of a frame: the maze with the entities in it, and the part
//! of it round the player that the screen shows.

use vstd::prelude::*;
use crate::entities::Entity;
use crate::entities::brat::{brat_glyph, render_brat};
use crate::entities::bullet::{bullet_glyph, render_bullet};
use crate::entities::factory::{factory_glyph, render_factory};
use crate::entities::player::{player_glyph, render_player};
use crate::entities::position::{Dimensions, Position};
use crate::entities::rat::{rat_glyph, render_rat};
use crate::game_context::GameContext;
use crate::maze::{Maze, CELL_HEIGHT, CELL_WIDTH};
use crate::video::Size;
use crate::video::buffer::{Buffer, ATTR_MASK, ATTR_NONE};
use crate::video::wrapping::{wrap_inc, wrap_inc_by};

verus! {

/// How many rows at the top of the screen are kept for the status.
pub const STATUS_ROWS: Size = 2;

impl Entity {
    /// The first glyph that shows the entity.
    pub open spec fn glyph(&self) -> u8 {
        match self {
            Entity::Player(player) => player_glyph(player),
            Entity::Rat(rat) => rat_glyph(rat),
            Entity::Brat(brat) => brat_glyph(brat),
            Entity::Factory(factory) => factory_glyph(factory),
            Entity::Bullet(bullet) => bullet_glyph(bullet),
        }
    }

    /// Whether the entity is drawn with a large glyph.
    pub open spec fn large(&self) -> bool {
        self is Player || self is Rat || self is Factory
    }

    /// The glyph that the entity puts on the cell (`row`, `col`) of a
    /// buffer; none where it is not drawn. A small entity puts its glyph
    /// on its cell. A large one puts four glyphs in a row on the cells of
    /// its square: top left, top right, bottom left, bottom right.
    pub open spec fn paints(&self, before: &Buffer, row: int, col: int) -> Option<u8> {
        let pos = self.pos();
        if self.large() {
            let row2 = wrap_inc(pos.row as int, before.rows as int);
            let col2 = wrap_inc(pos.col as int, before.cols as int);
            if (row == pos.row || row == row2) && (col == pos.col || col == col2) {
                Some(Buffer::quad_char(before, pos.row as int, pos.col as int, self.glyph(), row, col))
            } else {
                None
            }
        } else if row == pos.row && col == pos.col {
            Some(self.glyph())
        } else {
            None
        }
    }

    /// Whether a buffer is `before` with the entity drawn into it.
    pub open spec fn drawn(&self, after: &Buffer, before: &Buffer) -> bool {
        &&& forall|r: int, c: int|
            before.holds(r, c) ==> #[trigger] after.char_at(r, c) == (match self.paints(
                before,
                r,
                c,
            ) {
                Some(glyph) => glyph,
                None => before.char_at(r, c),
            })
        &&& forall|r: int, c: int|
            before.holds(r, c) ==> #[trigger] after.attr_at(r, c) == (if self.paints(
                before,
                r,
                c,
            ) is Some {
                ATTR_NONE
            } else {
                before.attr_at(r, c)
            })
    }
}

/// Draws an entity into the maze.
pub fn render_entity(entity: &Entity, maze: &mut Maze)
    requires
        old(maze).wf(),
        entity.wf(old(maze).dimensions),
    ensures
        final(maze).wf(),
        final(maze).cell_rows == old(maze).cell_rows,
        final(maze).cell_cols == old(maze).cell_cols,
        final(maze).dimensions == old(maze).dimensions,
        entity.drawn(&final(maze).buffer, &old(maze).buffer),
{
    match entity {
        Entity::Player(player) => render_player(player, maze),
        Entity::Rat(rat) => render_rat(rat, maze),
        Entity::Brat(brat) => render_brat(brat, maze),
        Entity::Factory(factory) => render_factory(factory, maze),
        Entity::Bullet(bullet) => render_bullet(bullet, maze),
    }
}

/// The glyph at (`row`, `col`) of a picture of the entities from `from`
/// on over a background: that of the first entity that is drawn there,
/// or the background's where none is.
pub open spec fn scene_char(
    entities: Seq<Entity>,
    background: &Buffer,
    row: int,
    col: int,
    from: int,
) -> u8
    decreases entities.len() - from,
{
    if from >= entities.len() {
        background.char_at(row, col)
    } else {
        match entities[from].paints(background, row, col) {
            Some(glyph) => glyph,
            None => scene_char(entities, background, row, col, from + 1),
        }
    }
}

/// The attribute at (`row`, `col`) of a picture of the entities from
/// `from` on over a background: none where an entity is drawn, and the
/// background's elsewhere.
pub open spec fn scene_attr(
    entities: Seq<Entity>,
    background: &Buffer,
    row: int,
    col: int,
    from: int,
) -> u8
    decreases entities.len() - from,
{
    if from >= entities.len() {
        background.attr_at(row, col)
    } else if entities[from].paints(background, row, col) is Some {
        ATTR_NONE
    } else {
        scene_attr(entities, background, row, col, from + 1)
    }
}

impl GameContext {
    /// Whether the picture shows the entities from `from` on over the
    /// maze.
    pub open spec fn pictured(&self, from: int) -> bool {
        &&& forall|r: int, c: int|
            self.maze.buffer.holds(r, c) ==> #[trigger] self.maze.buffer.char_at(r, c)
                == scene_char(self.entities@, &self.pristine_maze.buffer, r, c, from)
        &&& forall|r: int, c: int|
            self.maze.buffer.holds(r, c) ==> #[trigger] self.maze.buffer.attr_at(r, c)
                == scene_attr(self.entities@, &self.pristine_maze.buffer, r, c, from)
    }

    /// The top left corner of the part of the maze that a screen of
    /// `rows` by `cols` characters shows: so far up and left of the
    /// player that the player stands in the middle of it.
    pub open spec fn window(&self, rows: Size, cols: Size) -> Position {
        let up: nat = if rows >= STATUS_ROWS {
            ((rows - STATUS_ROWS) / 2) as nat
        } else {
            0
        };
        self.player().pos.moved_up(up, self.dims()).moved_left((cols / 2) as nat, self.dims())
    }

    /// Draws the picture of the frame: the maze with every entity in it,
    /// the last ones first, so that the player and what else came early
    /// lies on top. The part of the picture round the player goes to the
    /// screen, under its status rows.
    pub fn render_frame(&mut self, video: &mut Buffer)
        requires
            old(self).wf(),
            old(video).wf(),
        ensures
            final(self).wf(),
            *final(self) == (GameContext { maze: final(self).maze, ..*old(self) }),
            final(self).pictured(0),
            final(video).wf(),
            final(video).same_size(old(video)),
            forall|r: int, c: int|
                old(video).holds(r, c) ==> #[trigger] final(video).char_at(r, c) == (if r
                    >= STATUS_ROWS {
                    final(self).maze.buffer.char_at(
                        wrap_inc_by(
                            old(self).window(old(video).rows, old(video).cols).row as int,
                            old(self).dims().rows as int,
                            (r - STATUS_ROWS) as nat,
                        ),
                        wrap_inc_by(
                            old(self).window(old(video).rows, old(video).cols).col as int,
                            old(self).dims().cols as int,
                            c as nat,
                        ),
                    )
                } else {
                    old(video).char_at(r, c)
                }),
            forall|r: int, c: int|
                old(video).holds(r, c) ==> #[trigger] final(video).attr_at(r, c) == (if r
                    >= STATUS_ROWS {
                    final(self).maze.buffer.attr_at(
                        wrap_inc_by(
                            old(self).window(old(video).rows, old(video).cols).row as int,
                            old(self).dims().rows as int,
                            (r - STATUS_ROWS) as nat,
                        ),
                        wrap_inc_by(
                            old(self).window(old(video).rows, old(video).cols).col as int,
                            old(self).dims().cols as int,
                            c as nat,
                        ),
                    ) & ATTR_MASK
                } else {
                    old(video).attr_at(r, c)
                }),
    {
        assert(CELL_HEIGHT == 10 && CELL_WIDTH == 17 && STATUS_ROWS == 2);
        let dims: Dimensions = self.pristine_maze.dimensions;
        self.pristine_maze.buffer.copy_to(&mut self.maze.buffer);
        let mut index: usize = self.entities.len();
        while index > 0
            invariant
                self.wf(),
                *self == (GameContext { maze: self.maze, ..*old(self) }),
                dims == self.dims(),
                index <= self.entities@.len(),
                self.pictured(index as int),
            decreases index,
        {
            index -= 1;
            let ghost before = self.maze.buffer;
            assert(self.entities@[index as int].wf(dims));
            render_entity(&self.entities[index], &mut self.maze);
            proof {
                let entity = self.entities@[index as int];
                let background = &self.pristine_maze.buffer;
                assert forall|r: int, c: int|
                    self.maze.buffer.holds(r, c) implies #[trigger] self.maze.buffer.char_at(r, c)
                    == scene_char(self.entities@, background, r, c, index as int) by {
                    let _ = before.char_at(r, c);
                    assert(entity.paints(&before, r, c) is Some == entity.paints(
                        background,
                        r,
                        c,
                    ) is Some);
                }
                assert forall|r: int, c: int|
                    self.maze.buffer.holds(r, c) implies #[trigger] self.maze.buffer.attr_at(r, c)
                    == scene_attr(self.entities@, background, r, c, index as int) by {
                    let _ = before.attr_at(r, c);
                }
            }
        }
        let mut start_pos: Position = self.player_position();
        start_pos.move_up(
            if video.rows >= STATUS_ROWS {
                (video.rows - STATUS_ROWS) / 2
            } else {
                0
            },
            dims,
        );
        start_pos.move_left(video.cols / 2, dims);
        self.maze.buffer.copy_buffer(start_pos.row, start_pos.col, video, STATUS_ROWS);
    }
}

/// Frames in a period of the flashing of the screen.
pub const STROBE_PERIOD: u32 = 12;

impl GameContext {
    /// Whether the screen is lit at this frame of a flash: during the
    /// first half of each period.
    pub open spec fn lit(&self) -> bool {
        self.frames % STROBE_PERIOD < STROBE_PERIOD / 2
    }

    /// Counts a frame. The count starts again from 0 once it has reached
    /// the largest number it can hold.
    pub fn count_frame(&mut self)
        ensures
            *final(self) == (GameContext {
                frames: if old(self).frames < u32::MAX {
                    (old(self).frames + 1) as u32
                } else {
                    0
                },
                ..*old(self)
            }),
    {
        self.frames = if self.frames < u32::MAX {
            self.frames + 1
        } else {
            0
        };
    }

    /// Flashes the screen while a big explosion lasts, unless flashing is
    /// turned off: in the lit half of each period the part of the screen
    /// that shows the maze is reversed, and every frame brings the end
    /// of the flash a frame nearer.
    pub fn strobe(&mut self, video: &mut Buffer, no_strobe: bool)
        requires
            old(self).wf(),
            old(video).wf(),
        ensures
            final(video).wf(),
            final(video).same_size(old(video)),
            final(video).characters == old(video).characters,
            no_strobe || old(self).counters.super_boom == 0 ==> *final(self) == *old(self)
                && *final(video) == *old(video),
            !no_strobe && old(self).counters.super_boom > 0 ==> {
                &&& *final(self) == (GameContext {
                    counters: crate::game_context::Counters {
                        super_boom: (old(self).counters.super_boom - 1) as usize,
                        ..old(self).counters
                    },
                    ..*old(self)
                })
                &&& forall|r: int, c: int|
                    old(video).holds(r, c) ==> #[trigger] final(video).attr_at(r, c) == (
                    if old(self).lit() && STATUS_ROWS <= r < old(self).maze.dimensions.rows && c
                        < old(self).maze.dimensions.cols {
                        crate::video::buffer::ATTR_REVERSE
                    } else {
                        old(video).attr_at(r, c)
                    })
            },
    {
        assert(STROBE_PERIOD == 12 && STATUS_ROWS == 2);
        if !no_strobe && self.counters.super_boom > 0 {
            if self.frames % STROBE_PERIOD < STROBE_PERIOD / 2 {
                let rows: Size = self.maze.rows();
                let cols: Size = self.maze.cols();
                let mut row: Size = STATUS_ROWS;
                while row < rows
                    invariant
                        video.wf(),
                        video.same_size(old(video)),
                        video.characters == old(video).characters,
                        STATUS_ROWS == 2,
                        STATUS_ROWS <= row,
                        row <= rows || row == STATUS_ROWS,
                        forall|r: int, c: int|
                            old(video).holds(r, c) ==> #[trigger] video.attr_at(r, c) == (
                            if STATUS_ROWS <= r < row && r < rows && c < cols {
                                crate::video::buffer::ATTR_REVERSE
                            } else {
                                old(video).attr_at(r, c)
                            }),
                    decreases rows - row,
                {
                    let mut col: Size = 0;
                    while col < cols
                        invariant
                            video.wf(),
                            video.same_size(old(video)),
                            video.characters == old(video).characters,
                            STATUS_ROWS == 2,
                            STATUS_ROWS <= row < rows,
                            col <= cols,
                            forall|r: int, c: int|
                                old(video).holds(r, c) ==> #[trigger] video.attr_at(r, c) == (
                                if ((STATUS_ROWS <= r < row && c < cols) || (r == row && c < col)) {
                                    crate::video::buffer::ATTR_REVERSE
                                } else {
                                    old(video).attr_at(r, c)
                                }),
                        decreases cols - col,
                    {
                        let ghost before = *video;
                        video.set_attr(row, col, crate::video::buffer::ATTR_REVERSE);
                        proof {
                            assert(crate::video::buffer::ATTR_REVERSE & ATTR_MASK
                                == crate::video::buffer::ATTR_REVERSE) by (bit_vector)
                                requires
                                    crate::video::buffer::ATTR_REVERSE == 1,
                                    ATTR_MASK == 3,
                            ;
                            assert forall|r: int, c: int|
                                old(video).holds(r, c) implies #[trigger] video.attr_at(r, c) == (
                            if ((STATUS_ROWS <= r < row && c < cols) || (r == row && c < col + 1)) {
                                crate::video::buffer::ATTR_REVERSE
                            } else {
                                old(video).attr_at(r, c)
                            }) by {
                                let _ = before.attr_at(r, c);
                            }
                        }
                        col += 1;
                    }
                    row += 1;
                }
            }
            self.counters.super_boom -= 1;
        }
    }
}

} // verus!
