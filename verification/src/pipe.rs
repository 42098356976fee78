//! Pipes and obstacles: a pipe is one vertical segment, an obstacle is a
//! top and a bottom pipe sharing one horizontal position with a fixed gap
//! between them.  Obstacles scroll leftward one unit per frame and are
//! recycled: when one leaves the screen on the left it reappears at the
//! right edge with a freshly randomized gap placement.

use vstd::prelude::*;

use crate::geometry::{Collidable, Rect, Vec2};
use crate::rng::{spec_next_state, spec_next_value, RandomSource};
use crate::{GAP, MAX_PIPE_HEIGHT, PIPE_WIDTH, SCREEN_HEIGHT, SCREEN_WIDTH, TILE};

verus! {

/// One vertical pipe segment.  `height` is in tiles; the bounding box's
/// vertical extent is derived from it.
#[derive(Clone, Copy, Debug, PartialEq, Eq, Structural)]
pub struct Pipe {
    pub height: i32,
    pub rect: Rect,
    pub moving: bool,
}

impl Pipe {
    /// A pipe is well formed: non-negative tile height, fixed width, and
    /// a bounding box whose vertical extent matches the height.
    pub open spec fn wf(self) -> bool {
        &&& 0 <= self.height
        &&& self.rect.size.x == PIPE_WIDTH
        &&& self.rect.size.y == self.height * TILE
    }

    /// A new pipe of height zero at the origin, not yet moving.
    pub fn new() -> (r: Self)
        ensures
            r == (Pipe {
                height: 0,
                rect: Rect { pos: Vec2 { x: 0, y: 0 }, size: Vec2 { x: PIPE_WIDTH, y: 0 } },
                moving: false,
            }),
            r.wf(),
    {
        Pipe {
            height: 0,
            rect: Rect { pos: Vec2 { x: 0, y: 0 }, size: Vec2 { x: PIPE_WIDTH, y: 0 } },
            moving: false,
        }
    }

    /// Sets the pipe's height in tiles; the bounding box follows.
    pub fn set_height(&mut self, height: i32)
        requires
            0 <= height <= 0xffff,
        ensures
            *final(self) == (Pipe {
                height,
                rect: Rect {
                    pos: old(self).rect.pos,
                    size: Vec2 { x: PIPE_WIDTH, y: (height * TILE) as i32 },
                },
                moving: old(self).moving,
            }),
            final(self).wf(),
    {
        self.height = height;
        self.rect.size = Vec2 { x: PIPE_WIDTH, y: height * TILE };
    }

    /// Moves the pipe's bounding box to `pos`.
    pub fn update_pos(&mut self, pos: Vec2)
        ensures
            *final(self) == (Pipe { height: old(self).height, rect: Rect { pos, size: old(self).rect.size }, moving: old(self).moving }),
    {
        self.rect.pos = pos;
    }
}

impl Collidable for Pipe {
    open spec fn bounds(&self) -> Rect {
        self.rect
    }

    open spec fn name_spec(&self) -> Seq<char> {
        "Pipe"@
    }

    fn get_rect(&self) -> (r: Rect) {
        self.rect
    }

    fn get_name(&self) -> (r: &'static str) {
        "Pipe"
    }
}

/// Vertical placement of an obstacle's two pipes, derived from one random
/// draw.  Positions are pixel coordinates of each pipe's top edge; heights
/// are pixel extents before rounding down to whole tiles.
#[derive(Clone, Copy, Debug, PartialEq, Eq, Structural)]
pub struct PipePlacement {
    pub top_pipe_top: i32,
    pub top_pipe_height: i32,
    pub bot_pipe_top: i32,
    pub bot_pipe_height: i32,
}

/// The placement computed from the raw random draw `r`.  The top pipe's
/// top edge sits above the screen by `r % MAX_PIPE_HEIGHT` pixels, so the
/// gap's position is uniform over its admissible range while the gap
/// itself is always the fixed size and fully on screen.
pub open spec fn spec_placement(r: u32) -> PipePlacement {
    let offset = (r % (MAX_PIPE_HEIGHT as u32)) as int;
    PipePlacement {
        top_pipe_top: (-offset) as i32,
        top_pipe_height: MAX_PIPE_HEIGHT,
        bot_pipe_top: (-offset + MAX_PIPE_HEIGHT + GAP) as i32,
        bot_pipe_height: (SCREEN_HEIGHT - (-offset + MAX_PIPE_HEIGHT + GAP)) as i32,
    }
}

/// An obstacle: a top and a bottom pipe at one horizontal position, and a
/// flag recording whether the bird has already been credited for passing.
#[derive(Clone, Copy, Debug, PartialEq, Eq, Structural)]
pub struct Obstacle {
    pub top_pipe: Pipe,
    pub bot_pipe: Pipe,
    pub passed: bool,
}

/// The obstacle built at horizontal position `x` from the raw random draw
/// `r`, with both pipes' `moving` flags set to `moving`.
pub open spec fn spec_obstacle_at(r: u32, x: i32, moving: bool) -> Obstacle {
    let p = spec_placement(r);
    let top_tiles = p.top_pipe_height / TILE;
    let bot_tiles = p.bot_pipe_height / TILE;
    Obstacle {
        top_pipe: Pipe {
            height: top_tiles as i32,
            rect: Rect {
                pos: Vec2 { x, y: p.top_pipe_top },
                size: Vec2 { x: PIPE_WIDTH, y: (top_tiles * TILE) as i32 },
            },
            moving,
        },
        bot_pipe: Pipe {
            height: bot_tiles as i32,
            rect: Rect {
                pos: Vec2 { x, y: p.bot_pipe_top },
                size: Vec2 { x: PIPE_WIDTH, y: (bot_tiles * TILE) as i32 },
            },
            moving,
        },
        passed: false,
    }
}

/// One scroll tick of an obstacle.  While moving, the obstacle steps one
/// unit leftward; when it has passed fully off the left screen edge it is
/// recycled to the right edge with a freshly drawn gap placement, which
/// advances the generator.  The result pairs the new obstacle with the new
/// generator state.
pub open spec fn spec_obstacle_tick(o: Obstacle, rng: RandomSource) -> (Obstacle, RandomSource) {
    if !o.top_pipe.moving {
        (o, rng)
    } else {
        let x1 = o.top_pipe.rect.pos.x - 1;
        if x1 < -PIPE_WIDTH {
            (spec_obstacle_at(spec_next_value(rng), SCREEN_WIDTH, o.top_pipe.moving), spec_next_state(rng))
        } else {
            (Obstacle {
                top_pipe: Pipe {
                    height: o.top_pipe.height,
                    rect: Rect { pos: Vec2 { x: x1 as i32, y: o.top_pipe.rect.pos.y }, size: o.top_pipe.rect.size },
                    moving: o.top_pipe.moving,
                },
                bot_pipe: Pipe {
                    height: o.bot_pipe.height,
                    rect: Rect { pos: Vec2 { x: x1 as i32, y: o.bot_pipe.rect.pos.y }, size: o.bot_pipe.rect.size },
                    moving: o.bot_pipe.moving,
                },
                passed: o.passed,
            }, rng)
        }
    }
}

impl Obstacle {
    /// An obstacle is well formed: both pipes well formed and aligned at
    /// one horizontal position within the scroll range; the bottom pipe's
    /// top edge sits exactly the gap below the top pipe's bottom edge; the
    /// gap lies fully on screen; both pipes agree on whether they move.
    pub open spec fn wf(self) -> bool {
        &&& self.top_pipe.wf()
        &&& self.bot_pipe.wf()
        &&& self.top_pipe.rect.pos.x == self.bot_pipe.rect.pos.x
        &&& -PIPE_WIDTH <= self.top_pipe.rect.pos.x <= SCREEN_WIDTH
        &&& self.bot_pipe.rect.pos.y == self.top_pipe.rect.pos.y + self.top_pipe.rect.size.y + GAP
        &&& 0 <= self.top_pipe.rect.pos.y + self.top_pipe.rect.size.y
        &&& self.bot_pipe.rect.pos.y + self.bot_pipe.rect.size.y <= SCREEN_HEIGHT
        &&& self.top_pipe.moving == self.bot_pipe.moving
    }

    /// Draws the vertical placement for a new or recycled obstacle.  The
    /// gap between the two pipes is exactly `GAP`, and the top pipe's
    /// bottom edge — the top of the gap — lies on screen, so the whole
    /// opening is visible.
    pub fn create_pipe_pos_and_height(rng: &mut RandomSource) -> (p: PipePlacement)
        ensures
            p == spec_placement(spec_next_value(*old(rng))),
            *final(rng) == spec_next_state(*old(rng)),
            p.bot_pipe_top - (p.top_pipe_top + p.top_pipe_height) == GAP,
            0 <= p.top_pipe_top + p.top_pipe_height <= SCREEN_HEIGHT,
            p.top_pipe_height == MAX_PIPE_HEIGHT,
            -MAX_PIPE_HEIGHT < p.top_pipe_top <= 0,
            p.bot_pipe_top + p.bot_pipe_height == SCREEN_HEIGHT,
            GAP < p.bot_pipe_top <= SCREEN_HEIGHT,
            0 < p.bot_pipe_height < SCREEN_HEIGHT,
    {
        let offset = rng.next_bounded(MAX_PIPE_HEIGHT as u32) as i32;
        let top_pipe_top = -offset;
        let top_pipe_bot = top_pipe_top + MAX_PIPE_HEIGHT;
        let bot_pipe_top = top_pipe_bot + GAP;
        PipePlacement {
            top_pipe_top,
            top_pipe_height: MAX_PIPE_HEIGHT,
            bot_pipe_top,
            bot_pipe_height: SCREEN_HEIGHT - bot_pipe_top,
        }
    }

    /// Builds a new obstacle at horizontal position `x` with a randomized
    /// gap placement, not yet moving.
    pub fn new(rng: &mut RandomSource, x: i32) -> (r: Self)
        requires
            -PIPE_WIDTH <= x <= SCREEN_WIDTH,
        ensures
            r == spec_obstacle_at(spec_next_value(*old(rng)), x, false),
            *final(rng) == spec_next_state(*old(rng)),
            r.wf(),
            !r.top_pipe.moving,
            !r.passed,
    {
        let p = Obstacle::create_pipe_pos_and_height(rng);
        let mut top_pipe = Pipe::new();
        let mut bot_pipe = Pipe::new();
        top_pipe.update_pos(Vec2 { x, y: p.top_pipe_top });
        top_pipe.set_height(div_tile(p.top_pipe_height));
        bot_pipe.update_pos(Vec2 { x, y: p.bot_pipe_top });
        bot_pipe.set_height(div_tile(p.bot_pipe_height));
        proof {
            lemma_tile_rounding(p.bot_pipe_height as int);
        }
        Obstacle { top_pipe, bot_pipe, passed: false }
    }

    /// Moves the obstacle to horizontal position `x`, keeping its vertical
    /// placement.
    pub fn set_pos(&mut self, x: i32)
        requires
            -PIPE_WIDTH <= x <= SCREEN_WIDTH,
        ensures
            *final(self) == (Obstacle {
                top_pipe: Pipe {
                    height: old(self).top_pipe.height,
                    rect: Rect { pos: Vec2 { x, y: old(self).top_pipe.rect.pos.y }, size: old(self).top_pipe.rect.size },
                    moving: old(self).top_pipe.moving,
                },
                bot_pipe: Pipe {
                    height: old(self).bot_pipe.height,
                    rect: Rect { pos: Vec2 { x, y: old(self).bot_pipe.rect.pos.y }, size: old(self).bot_pipe.rect.size },
                    moving: old(self).bot_pipe.moving,
                },
                passed: old(self).passed,
            }),
            old(self).wf() ==> final(self).wf(),
    {
        let top_y = self.top_pipe.rect.pos.y;
        self.top_pipe.update_pos(Vec2 { x, y: top_y });
        let bot_y = self.bot_pipe.rect.pos.y;
        self.bot_pipe.update_pos(Vec2 { x, y: bot_y });
    }

    /// One scroll tick: steps leftward while moving, recycling to the
    /// right edge with a fresh random placement once fully off screen.
    pub fn move_tick(&mut self, rng: &mut RandomSource)
        requires
            old(self).wf(),
        ensures
            (*final(self), *final(rng)) == spec_obstacle_tick(*old(self), *old(rng)),
            final(self).wf(),
            final(self).top_pipe.moving == old(self).top_pipe.moving,
    {
        if !self.top_pipe.moving {
            return;
        }
        let x1 = self.top_pipe.rect.pos.x - 1;
        if x1 < -PIPE_WIDTH {
            let p = Obstacle::create_pipe_pos_and_height(rng);
            self.top_pipe.update_pos(Vec2 { x: SCREEN_WIDTH, y: p.top_pipe_top });
            self.top_pipe.set_height(div_tile(p.top_pipe_height));
            self.bot_pipe.update_pos(Vec2 { x: SCREEN_WIDTH, y: p.bot_pipe_top });
            self.bot_pipe.set_height(div_tile(p.bot_pipe_height));
            self.passed = false;
            proof {
                lemma_tile_rounding(p.bot_pipe_height as int);
            }
        } else {
            let top_y = self.top_pipe.rect.pos.y;
            self.top_pipe.update_pos(Vec2 { x: x1, y: top_y });
            let bot_y = self.bot_pipe.rect.pos.y;
            self.bot_pipe.update_pos(Vec2 { x: x1, y: bot_y });
        }
    }
}

/// An obstacle built from any draw at any on-range position is well
/// formed, carries the requested `moving` flag on both pipes, and starts
/// uncredited.
pub proof fn lemma_obstacle_at_wf(r: u32, x: i32, moving: bool)
    requires
        -PIPE_WIDTH <= x <= SCREEN_WIDTH,
    ensures
        spec_obstacle_at(r, x, moving).wf(),
        spec_obstacle_at(r, x, moving).top_pipe.moving == moving,
        !spec_obstacle_at(r, x, moving).passed,
{
    let p = spec_placement(r);
    lemma_tile_rounding(p.bot_pipe_height as int);
}

/// One tick of a well-formed obstacle yields a well-formed obstacle and
/// leaves its `moving` flag as it was.
pub proof fn lemma_obstacle_tick_wf(o: Obstacle, rng: RandomSource)
    requires
        o.wf(),
    ensures
        spec_obstacle_tick(o, rng).0.wf(),
        spec_obstacle_tick(o, rng).0.top_pipe.moving == o.top_pipe.moving,
{
    if o.top_pipe.moving && o.top_pipe.rect.pos.x - 1 < -PIPE_WIDTH {
        lemma_obstacle_at_wf(spec_next_value(rng), SCREEN_WIDTH, o.top_pipe.moving);
    }
}

/// Converts a pixel extent to whole tiles, rounding down.
fn div_tile(a: i32) -> (r: i32)
    requires
        0 <= a,
    ensures
        r == (a as int) / (TILE as int),
{
    ((a as u32) / (TILE as u32)) as i32
}

/// Rounding a non-negative pixel extent down to whole tiles never grows it.
proof fn lemma_tile_rounding(a: int)
    requires
        0 <= a,
    ensures
        0 <= (a / (TILE as int)) * TILE <= a,
{
    assert(0 <= (a / 8) * 8 <= a) by (nonlinear_arith)
        requires 0 <= a;
}

} // verus!
