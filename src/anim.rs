use vstd::prelude::*;

use crate::figure::{FRAME_COUNT, FRAME_SIZE};

verus! {

/// How long each frame stays on screen, in microseconds.
pub const FRAME_MICROS: u64 = 200_000;

/// The frame that follows `f` in the walk cycle.
pub open spec fn next_frame(f: u32) -> u32 {
    ((f + 1) % (FRAME_COUNT as int)) as u32
}

/// Which frame is showing and how long it has been showing, in
/// microseconds.
#[derive(Clone, Copy, Debug, PartialEq, Eq, Structural)]
pub struct AnimState {
    pub frame: u32,
    pub timer_us: u64,
}

/// A rectangle of whole pixels: top-left corner `(x, y)`, `w` wide, `h` high.
#[derive(Clone, Copy, Debug, PartialEq, Eq, Structural)]
pub struct Rect {
    pub x: u32,
    pub y: u32,
    pub w: u32,
    pub h: u32,
}

/// What to draw on one tick: the `source` part of the sheet, stretched to a
/// `dest_size` square whose top-left corner is `(dest_x, dest_y)` on screen.
#[derive(Clone, Copy, Debug, PartialEq, Eq, Structural)]
pub struct DrawCommand {
    pub source: Rect,
    pub dest_x: i64,
    pub dest_y: i64,
    pub dest_size: u32,
}

/// The frame's place on screen: twice its size, centred in a `view_w` by
/// `view_h` viewport.
pub open spec fn spec_draw_command(frame: u32, view_w: u32, view_h: u32) -> DrawCommand {
    DrawCommand {
        source: Rect { x: (frame * FRAME_SIZE) as u32, y: 0, w: FRAME_SIZE, h: FRAME_SIZE },
        dest_x: (view_w / 2 - FRAME_SIZE) as i64,
        dest_y: (view_h / 2 - FRAME_SIZE) as i64,
        dest_size: (2 * FRAME_SIZE) as u32,
    }
}

impl AnimState {
    /// The frame is one of the cycle and the timer has not yet reached a
    /// frame's duration.
    pub open spec fn wf(self) -> bool {
        self.frame < FRAME_COUNT && self.timer_us < FRAME_MICROS
    }

    /// The state after `dt` more microseconds: once the timer reaches a
    /// frame's duration it restarts from zero and the next frame shows.
    pub open spec fn after(self, dt: u64) -> AnimState {
        if self.timer_us + dt >= FRAME_MICROS {
            AnimState { frame: next_frame(self.frame), timer_us: 0 }
        } else {
            AnimState { frame: self.frame, timer_us: (self.timer_us + dt) as u64 }
        }
    }

    /// Whether `dt` more microseconds move on to the next frame.
    pub open spec fn advances_after(self, dt: u64) -> bool {
        self.timer_us + dt >= FRAME_MICROS
    }

    /// The first frame, with the timer at zero.
    pub fn new() -> (s: AnimState)
        ensures
            s == (AnimState { frame: 0, timer_us: 0 }),
            s.wf(),
    {
        AnimState { frame: 0, timer_us: 0 }
    }

    /// Adds `dt_us` microseconds to the timer and moves on to the next frame
    /// when the timer reaches a frame's duration. Returns whether it did.
    pub fn tick(&mut self, dt_us: u64) -> (advanced: bool)
        requires
            old(self).wf(),
        ensures
            *final(self) == old(self).after(dt_us),
            final(self).wf(),
            advanced == old(self).advances_after(dt_us),
    {
        if dt_us >= FRAME_MICROS - self.timer_us {
            self.timer_us = 0;
            self.frame = (self.frame + 1) % FRAME_COUNT;
            true
        } else {
            self.timer_us = self.timer_us + dt_us;
            false
        }
    }

    /// Where the current frame lies in the sheet, and where it goes on a
    /// `view_w` by `view_h` screen.
    pub fn draw_command(&self, view_w: u32, view_h: u32) -> (c: DrawCommand)
        requires
            self.wf(),
        ensures
            c == spec_draw_command(self.frame, view_w, view_h),
    {
        DrawCommand {
            source: Rect { x: self.frame * FRAME_SIZE, y: 0, w: FRAME_SIZE, h: FRAME_SIZE },
            dest_x: (view_w / 2) as i64 - FRAME_SIZE as i64,
            dest_y: (view_h / 2) as i64 - FRAME_SIZE as i64,
            dest_size: (2 * FRAME_SIZE) as u32,
        }
    }
}

/// The total of the time steps.
pub open spec fn total(dts: Seq<u64>) -> int
    decreases dts.len(),
{
    if dts.len() == 0 {
        0
    } else {
        total(dts.drop_last()) + dts.last()
    }
}

/// The state after one tick for each of the time steps, in order.
pub open spec fn run(s: AnimState, dts: Seq<u64>) -> AnimState
    decreases dts.len(),
{
    if dts.len() == 0 {
        s
    } else {
        run(s, dts.drop_last()).after(dts.last())
    }
}

/// How many of those ticks moved on to the next frame.
pub open spec fn advance_count(s: AnimState, dts: Seq<u64>) -> nat
    decreases dts.len(),
{
    if dts.len() == 0 {
        0
    } else {
        advance_count(s, dts.drop_last()) + if run(s, dts.drop_last()).advances_after(dts.last()) {
            1nat
        } else {
            0nat
        }
    }
}

proof fn lemma_total_nonneg(dts: Seq<u64>)
    ensures
        total(dts) >= 0,
    decreases dts.len(),
{
    if dts.len() > 0 {
        lemma_total_nonneg(dts.drop_last());
    }
}

proof fn lemma_below_threshold(s: AnimState, dts: Seq<u64>)
    requires
        s.wf(),
        s.timer_us + total(dts) < FRAME_MICROS,
    ensures
        advance_count(s, dts) == 0,
        run(s, dts) == (AnimState { frame: s.frame, timer_us: (s.timer_us + total(dts)) as u64 }),
    decreases dts.len(),
{
    lemma_total_nonneg(dts);
    if dts.len() > 0 {
        lemma_total_nonneg(dts.drop_last());
        lemma_below_threshold(s, dts.drop_last());
    }
}

proof fn lemma_one_crossing(s: AnimState, dts: Seq<u64>)
    requires
        s.wf(),
        total(dts) <= FRAME_MICROS,
        s.timer_us + total(dts) >= FRAME_MICROS,
    ensures
        advance_count(s, dts) == 1,
        run(s, dts).frame == next_frame(s.frame),
        run(s, dts).timer_us <= s.timer_us + total(dts) - FRAME_MICROS,
    decreases dts.len(),
{
    let pre = dts.drop_last();
    lemma_total_nonneg(pre);
    if s.timer_us + total(pre) >= FRAME_MICROS {
        lemma_one_crossing(s, pre);
    } else {
        lemma_below_threshold(s, pre);
    }
}

/// Time split into small steps counts as it would in one step: ticks whose
/// steps add up to exactly one frame's duration move on exactly one frame,
/// and starting with the timer at zero they end in the very state that one
/// tick of a whole frame's duration reaches.
pub proof fn lemma_split_ticks(s: AnimState, dts: Seq<u64>)
    requires
        s.wf(),
        total(dts) == FRAME_MICROS,
    ensures
        advance_count(s, dts) == 1,
        run(s, dts).frame == next_frame(s.frame),
        s.timer_us == 0 ==> run(s, dts) == s.after(FRAME_MICROS),
{
    lemma_one_crossing(s, dts);
}

/// The frame stays within the cycle, and four advances come back to where
/// they started.
pub proof fn lemma_cycle(f: u32)
    requires
        f < FRAME_COUNT,
    ensures
        next_frame(f) < FRAME_COUNT,
        next_frame(next_frame(next_frame(next_frame(f)))) == f,
{
}

} // verus!
