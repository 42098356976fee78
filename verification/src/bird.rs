//! The bird: vertical position, velocity and acceleration, and the
//! per-frame integration rule that moves it.
//!
//! A flap adds an upward impulse to the acceleration; the acceleration
//! decays toward zero each frame, the velocity decays toward a fixed fall
//! speed, and both are clamped, so the bird rises quickly on a flap and
//! then settles into a steady fall.  The position is clamped to the screen.

use vstd::prelude::*;

use crate::geometry::{Collidable, Rect, Vec2};
use crate::{ACCEL_DECAY, ACCEL_MAX, ACCEL_MIN, BIRD_SIZE, FLAP_IMPULSE, SCALE, SCREEN_HEIGHT,
    TERMINAL_VELOCITY, VEL_MAX};

verus! {

/// The bird's simulation state.  `moving` gates the physics: until the
/// first flap after a reset the bird is frozen in place.
#[derive(Clone, Copy, Debug, PartialEq, Eq, Structural)]
pub struct Bird {
    pub rect: Rect,
    pub vel: Vec2,
    pub accel: Vec2,
    pub moving: bool,
}

/// `v` clamped into `[lo, hi]`.
pub open spec fn clamp_spec(v: int, lo: int, hi: int) -> int {
    if v < lo {
        lo
    } else if v > hi {
        hi
    } else {
        v
    }
}

/// Division by the fixed-point scale, rounding toward zero as the machine
/// division does.
pub open spec fn spec_div_scale(a: int) -> int {
    if a >= 0 {
        a / (SCALE as int)
    } else {
        -((-a) / (SCALE as int))
    }
}

/// One integration step of the bird, as a mathematical function.
///
/// While `moving`: a flap adds the upward impulse to the acceleration; the
/// velocity takes the scaled acceleration; the position takes the velocity;
/// the velocity decays by one toward the terminal fall speed and the
/// acceleration by a fixed step toward zero; finally position, velocity and
/// acceleration are clamped to their ranges.  While not `moving` the bird
/// is unchanged.
pub open spec fn spec_step(b: Bird, flap: bool) -> Bird {
    if !b.moving {
        b
    } else {
        let a0 = if flap {
            b.accel.y - FLAP_IMPULSE
        } else {
            b.accel.y as int
        };
        let v1 = b.vel.y + spec_div_scale(a0);
        let y1 = b.rect.pos.y + v1;
        let v2 = if v1 > TERMINAL_VELOCITY {
            v1 - 1
        } else if v1 < TERMINAL_VELOCITY {
            v1 + 1
        } else {
            v1
        };
        let a1 = if a0 > 0 {
            a0 - ACCEL_DECAY
        } else if a0 < 0 {
            a0 + ACCEL_DECAY
        } else {
            a0
        };
        let y2 = clamp_spec(y1, 0, SCREEN_HEIGHT - b.rect.size.y);
        let v3 = clamp_spec(v2, 0, VEL_MAX as int);
        let a2 = clamp_spec(a1, ACCEL_MIN as int, ACCEL_MAX as int);
        Bird {
            rect: Rect {
                pos: Vec2 { x: b.rect.pos.x, y: y2 as i32 },
                size: b.rect.size,
            },
            vel: Vec2 { x: b.vel.x, y: v3 as i32 },
            accel: Vec2 { x: b.accel.x, y: a2 as i32 },
            moving: b.moving,
        }
    }
}

/// The bird after a whole sequence of per-frame flap inputs.
pub open spec fn spec_run(b: Bird, inputs: Seq<bool>) -> Bird
    decreases inputs.len(),
{
    if inputs.len() == 0 {
        b
    } else {
        spec_run(spec_step(b, inputs.first()), inputs.drop_first())
    }
}

/// `v` clamped into `[lo, hi]`.
fn clamp_i32(v: i32, lo: i32, hi: i32) -> (r: i32)
    requires
        lo <= hi,
    ensures
        r == clamp_spec(v as int, lo as int, hi as int),
{
    if v < lo {
        lo
    } else if v > hi {
        hi
    } else {
        v
    }
}

impl Bird {
    /// The bird is well formed: box of the fixed size, on screen, velocity
    /// and acceleration in their clamped ranges, no horizontal motion.
    pub open spec fn wf(self) -> bool {
        &&& self.rect.size.x == BIRD_SIZE
        &&& self.rect.size.y == BIRD_SIZE
        &&& 0 <= self.rect.pos.y <= SCREEN_HEIGHT - BIRD_SIZE
        &&& 0 <= self.vel.y <= VEL_MAX
        &&& ACCEL_MIN <= self.accel.y <= ACCEL_MAX
        &&& self.vel.x == 0
        &&& self.accel.x == 0
    }

    /// A new bird at `(x, y)`, at rest and frozen.
    pub fn new(x: i32, y: i32) -> (r: Self)
        requires
            0 <= y <= SCREEN_HEIGHT - BIRD_SIZE,
        ensures
            r == (Bird {
                rect: Rect { pos: Vec2 { x, y }, size: Vec2 { x: BIRD_SIZE, y: BIRD_SIZE } },
                vel: Vec2 { x: 0, y: 0 },
                accel: Vec2 { x: 0, y: 0 },
                moving: false,
            }),
            r.wf(),
    {
        Bird {
            rect: Rect { pos: Vec2 { x, y }, size: Vec2 { x: BIRD_SIZE, y: BIRD_SIZE } },
            vel: Vec2 { x: 0, y: 0 },
            accel: Vec2 { x: 0, y: 0 },
            moving: false,
        }
    }

    /// One integration step, driven by whether a flap was freshly pressed
    /// this frame.  After every update the bird is still on screen:
    /// its vertical position stays within `[0, SCREEN_HEIGHT - BIRD_SIZE]`.
    pub fn handle_movement(&mut self, flap: bool)
        requires
            old(self).wf(),
        ensures
            *final(self) == spec_step(*old(self), flap),
            final(self).wf(),
            0 <= final(self).rect.pos.y <= SCREEN_HEIGHT - BIRD_SIZE,
    {
        if !self.moving {
            return;
        }
        if flap {
            self.accel.y = self.accel.y - FLAP_IMPULSE;
        }
        let dv = div_scale(self.accel.y);
        self.vel.y = self.vel.y + dv;
        let mut new_y = self.rect.pos.y + self.vel.y;
        if self.vel.y > TERMINAL_VELOCITY {
            self.vel.y = self.vel.y - 1;
        } else if self.vel.y < TERMINAL_VELOCITY {
            self.vel.y = self.vel.y + 1;
        }
        if self.accel.y > 0 {
            self.accel.y = self.accel.y - ACCEL_DECAY;
        } else if self.accel.y < 0 {
            self.accel.y = self.accel.y + ACCEL_DECAY;
        }
        new_y = clamp_i32(new_y, 0, SCREEN_HEIGHT - BIRD_SIZE);
        self.vel.y = clamp_i32(self.vel.y, 0, VEL_MAX);
        self.accel.y = clamp_i32(self.accel.y, ACCEL_MIN, ACCEL_MAX);
        self.rect.pos.y = new_y;
    }
}

/// Divides an acceleration by the fixed-point scale, rounding toward zero.
fn div_scale(a: i32) -> (r: i32)
    requires
        -100000 <= a <= 100000,
    ensures
        r == spec_div_scale(a as int),
{
    if a >= 0 {
        ((a as u32) / (SCALE as u32)) as i32
    } else {
        -((((-a) as u32) / (SCALE as u32)) as i32)
    }
}

/// Every step from a well-formed bird yields a well-formed bird.
pub proof fn lemma_step_preserves_wf(b: Bird, flap: bool)
    requires
        b.wf(),
    ensures
        spec_step(b, flap).wf(),
{
}

/// Under any sequence of inputs the bird stays well formed; in particular
/// its vertical position is always within `[0, SCREEN_HEIGHT - BIRD_SIZE]`.
pub proof fn lemma_bird_stays_on_screen(b: Bird, inputs: Seq<bool>)
    requires
        b.wf(),
    ensures
        spec_run(b, inputs).wf(),
        0 <= spec_run(b, inputs).rect.pos.y <= SCREEN_HEIGHT - BIRD_SIZE,
    decreases inputs.len(),
{
    if inputs.len() > 0 {
        lemma_step_preserves_wf(b, inputs.first());
        lemma_bird_stays_on_screen(spec_step(b, inputs.first()), inputs.drop_first());
    }
}

impl Collidable for Bird {
    open spec fn bounds(&self) -> Rect {
        self.rect
    }

    open spec fn name_spec(&self) -> Seq<char> {
        "bird"@
    }

    fn get_rect(&self) -> (r: Rect) {
        self.rect
    }

    fn get_name(&self) -> (r: &'static str) {
        "bird"
    }
}

} // verus!
