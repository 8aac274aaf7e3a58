//! Animation clocks: a cycle of frames that advances with elapsed time.

use crate::components::SpriteRender;
use vstd::prelude::*;

verus! {

/// A cycle of `frames` sprite frames that starts at `start_sprite_index` on
/// the sheet and shows each frame for `time_per_frame` thousandths of a second.
#[derive(Clone, Copy, Debug)]
pub struct Animation {
    pub start_sprite_index: usize,
    pub frames: usize,
    pub current_frame: usize,
    pub time_per_frame: u32,
    pub elapsed_time: u64,
}

/// Elapsed time after `delta` more thousandths of a second; the clock stops at the end of its range.
pub open spec fn advance(elapsed: u64, delta: u32) -> u64 {
    if elapsed + delta > u64::MAX {
        u64::MAX
    } else {
        (elapsed + delta) as u64
    }
}

/// The frame that a cycle shows after `elapsed` thousandths of a second.
pub open spec fn frame_at(elapsed: int, time_per_frame: int, frames: int) -> int {
    (elapsed / time_per_frame) % frames
}

impl Animation {
    /// A cycle can run: it has a frame, each frame lasts, and its last frame is a valid index.
    pub open spec fn wf(self) -> bool {
        &&& self.frames > 0
        &&& self.time_per_frame > 0
        &&& self.start_sprite_index + self.frames <= usize::MAX
    }

    /// The frame shown is the one that the elapsed time calls for.
    pub open spec fn in_step(self) -> bool {
        self.current_frame == frame_at(
            self.elapsed_time as int,
            self.time_per_frame as int,
            self.frames as int,
        )
    }

    /// The cycle at its start.
    pub open spec fn fresh(start_sprite_index: usize, frames: usize, time_per_frame: u32) -> Animation {
        Animation { start_sprite_index, frames, current_frame: 0, time_per_frame, elapsed_time: 0 }
    }

    /// The cycle after `delta` more thousandths of a second.
    pub open spec fn animated(self, delta: u32) -> Animation {
        let elapsed = advance(self.elapsed_time, delta);
        Animation {
            current_frame: frame_at(
                elapsed as int,
                self.time_per_frame as int,
                self.frames as int,
            ) as usize,
            elapsed_time: elapsed,
            ..self
        }
    }

    /// The sprite after the cycle advanced by `delta`: it changes only when the frame does.
    pub open spec fn animated_sprite(self, delta: u32, render: SpriteRender) -> SpriteRender {
        let next = self.animated(delta);
        if next.current_frame != self.current_frame {
            SpriteRender {
                sprite_number: (next.current_frame + self.start_sprite_index) as usize,
                ..render
            }
        } else {
            render
        }
    }

    /// The cycle put back to its start.
    pub open spec fn rewound(self) -> Animation {
        Animation { current_frame: 0, elapsed_time: 0, ..self }
    }

    /// Whether the cycle stands at its start.
    pub open spec fn at_start(self) -> bool {
        self.current_frame == 0 && self.elapsed_time == 0
    }

    /// Whether the cycle can run (see [`Animation::wf`]).
    pub fn is_valid(&self) -> (b: bool)
        ensures
            b == self.wf(),
    {
        self.frames > 0 && self.time_per_frame > 0 && self.start_sprite_index <= usize::MAX
            - self.frames
    }

    /// Lets `elapsed_time` more thousandths of a second pass.
    ///
    /// The frame shown becomes `floor(elapsed / time_per_frame) mod frames`;
    /// when that differs from the frame shown before, the sprite is set to it.
    pub fn animate(&mut self, elapsed_time: u32, render: &mut SpriteRender)
        requires
            old(self).wf(),
        ensures
            *final(self) == old(self).animated(elapsed_time),
            *final(render) == old(self).animated_sprite(elapsed_time, *old(render)),
            final(self).wf(),
            final(self).in_step(),
            final(self).current_frame < final(self).frames,
    {
        let total: u64 = if self.elapsed_time > u64::MAX - elapsed_time as u64 {
            u64::MAX
        } else {
            self.elapsed_time + elapsed_time as u64
        };
        self.elapsed_time = total;
        let frame_count: usize = ((total / self.time_per_frame as u64) % self.frames as u64) as usize;
        if frame_count != self.current_frame {
            self.current_frame = frame_count;
            render.sprite_number = frame_count + self.start_sprite_index;
        }
    }

    /// Puts the cycle back to its first frame and zero elapsed time.
    pub fn reset(&mut self)
        ensures
            *final(self) == old(self).rewound(),
            final(self).at_start(),
            old(self).wf() ==> final(self).wf() && final(self).in_step(),
    {
        self.current_frame = 0;
        self.elapsed_time = 0;
        proof {
            if old(self).wf() {
                lemma_first_frame(self.time_per_frame as int, self.frames as int);
            }
        }
    }

    /// Whether the cycle stands at its first frame with no time elapsed.
    pub fn is_reset(&self) -> (b: bool)
        ensures
            b == self.at_start(),
    {
        self.current_frame == 0 && self.elapsed_time == 0
    }
}

/// A cycle with no time elapsed shows its first frame.
pub proof fn lemma_first_frame(time_per_frame: int, frames: int)
    requires
        time_per_frame > 0,
        frames > 0,
    ensures
        frame_at(0, time_per_frame, frames) == 0,
{
    assert(0int / time_per_frame == 0) by (nonlinear_arith)
        requires
            time_per_frame > 0,
    ;
    assert(0int % frames == 0) by (nonlinear_arith)
        requires
            frames > 0,
    ;
}

/// Resetting after any advance restores the start: frame zero and no elapsed time.
pub proof fn lemma_reset_restores_start(a: Animation, delta: u32)
    ensures
        a.animated(delta).rewound().at_start(),
        a.animated(delta).rewound() == a.rewound(),
{
}

/// Letting no time pass never changes the frame of a cycle that is in step,
/// nor its sprite; and every advance leaves the cycle in step.
pub proof fn lemma_zero_advance_is_identity(a: Animation, render: SpriteRender)
    requires
        a.wf(),
        a.in_step(),
    ensures
        a.animated(0) == a,
        a.animated_sprite(0, render) == render,
{
}

/// Every advance leaves a cycle in step, so that letting no time pass after it changes nothing.
pub proof fn lemma_advance_then_zero(a: Animation, delta: u32)
    requires
        a.wf(),
    ensures
        a.animated(delta).wf(),
        a.animated(delta).in_step(),
        a.animated(delta).animated(0) == a.animated(delta),
{
    let elapsed = advance(a.elapsed_time, delta);
    let f = frame_at(elapsed as int, a.time_per_frame as int, a.frames as int);
    assert(0 <= f < a.frames) by (nonlinear_arith)
        requires
            f == (elapsed as int / a.time_per_frame as int) % (a.frames as int),
            a.frames > 0,
            a.time_per_frame > 0,
            elapsed >= 0,
    ;
}

/// The idle cycle of an entity.
#[derive(Clone, Copy, Debug)]
pub struct IdleAnimation {
    pub anim: Animation,
}

impl IdleAnimation {
    /// A idle cycle at its start: `frames` frames from `start_sprite_index`
    /// on, each shown for `time_per_frame` thousandths of a second.
    pub fn new(start_sprite_index: usize, frames: usize, time_per_frame: u32) -> (a: IdleAnimation)
        ensures
            a.anim == Animation::fresh(start_sprite_index, frames, time_per_frame),
    {
        IdleAnimation {
            anim: Animation {
                start_sprite_index: start_sprite_index,
                frames: frames,
                current_frame: 0,
                time_per_frame: time_per_frame,
                elapsed_time: 0,
            },
        }
    }
}

/// The walk cycle of an entity.
#[derive(Clone, Copy, Debug)]
pub struct WalkAnimation {
    pub anim: Animation,
}

impl WalkAnimation {
    /// A walk cycle at its start: `frames` frames from `start_sprite_index`
    /// on, each shown for `time_per_frame` thousandths of a second.
    pub fn new(start_sprite_index: usize, frames: usize, time_per_frame: u32) -> (a: WalkAnimation)
        ensures
            a.anim == Animation::fresh(start_sprite_index, frames, time_per_frame),
    {
        WalkAnimation {
            anim: Animation {
                start_sprite_index: start_sprite_index,
                frames: frames,
                current_frame: 0,
                time_per_frame: time_per_frame,
                elapsed_time: 0,
            },
        }
    }
}

/// The fight cycle of an entity.
#[derive(Clone, Copy, Debug)]
pub struct FightAnimation {
    pub anim: Animation,
}

impl FightAnimation {
    /// A fight cycle at its start: `frames` frames from `start_sprite_index`
    /// on, each shown for `time_per_frame` thousandths of a second.
    pub fn new(start_sprite_index: usize, frames: usize, time_per_frame: u32) -> (a: FightAnimation)
        ensures
            a.anim == Animation::fresh(start_sprite_index, frames, time_per_frame),
    {
        FightAnimation {
            anim: Animation {
                start_sprite_index: start_sprite_index,
                frames: frames,
                current_frame: 0,
                time_per_frame: time_per_frame,
                elapsed_time: 0,
            },
        }
    }
}

} // verus!
