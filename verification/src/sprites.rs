//! Frame-timing state of animated sprites, and the builder that slices
//! an animation strip out of a sprite sheet.
//!
//! Pixel data never enters the core: a sprite is modeled by its frame
//! count, the shared frame extents, and its animation clock.  The
//! renderer owns the actual sheet; collision only ever consumes the
//! current frame's bounding box.

use vstd::prelude::*;
use crate::arith::clip_u64;
use crate::collision::{AxisAlignedBox, BoxView};

verus! {

/// Milliseconds each animation frame stays on screen.
pub const FRAME_RATE_MS: u64 = 250;

/// How an animation advances through its frames.
#[derive(Clone, Copy, Debug, PartialEq, Eq, Structural)]
pub enum AnimationState {
    /// Frozen, remembering the accumulated time at the pause.
    Paused(u64),
    /// Wraps back to the first frame after the last.
    Loop,
    /// Stays on the last frame once reached.
    Once,
}

/// An animated sprite's logical state: which frame is current and how
/// far the clock has advanced toward the next one.
#[derive(Clone, Copy, Debug, PartialEq, Eq, Structural)]
pub struct AnimatedSprite {
    pub frame_count: usize,
    pub frame_w: i32,
    pub frame_h: i32,
    pub current_frame: usize,
    pub accumulated_ms: u64,
    pub state: AnimationState,
}

/// Mathematical view of an animated sprite.
#[verifier::ext_equal]
pub ghost struct SpriteView {
    pub frame_count: int,
    pub frame_w: int,
    pub frame_h: int,
    pub current_frame: int,
    pub accumulated_ms: int,
    pub state: AnimationState,
}

impl View for AnimatedSprite {
    type V = SpriteView;

    open spec fn view(&self) -> SpriteView {
        SpriteView {
            frame_count: self.frame_count as int,
            frame_w: self.frame_w as int,
            frame_h: self.frame_h as int,
            current_frame: self.current_frame as int,
            accumulated_ms: self.accumulated_ms as int,
            state: self.state,
        }
    }
}

impl SpriteView {
    /// A sprite always has at least one frame, the current frame is in
    /// range, and the frame extents are non-negative.
    pub open spec fn wf(self) -> bool {
        &&& self.frame_count >= 1
        &&& 0 <= self.current_frame < self.frame_count
        &&& self.frame_w >= 0
        &&& self.frame_h >= 0
    }

    /// Bounding box of the current frame, at the sheet origin.
    pub open spec fn dim_view(self) -> BoxView {
        BoxView { x: 0, y: 0, w: self.frame_w, h: self.frame_h }
    }
}

/// One animation step: accumulate the frame delta, advance one frame
/// each time the clock passes the frame rate, then wrap (looping
/// animations) or hold the last frame (one-shot animations).  Paused
/// sprites do not move.
pub open spec fn sprite_animate_step(s: SpriteView, delta: int) -> SpriteView {
    if s.state is Paused {
        s
    } else {
        let acc = clip_u64(s.accumulated_ms + delta);
        let (acc2, cur2) = if acc >= FRAME_RATE_MS {
            (acc - FRAME_RATE_MS, s.current_frame + 1)
        } else {
            (acc, s.current_frame)
        };
        let cur3 = if s.state is Once && cur2 >= s.frame_count {
            cur2 - 1
        } else if cur2 >= s.frame_count {
            0
        } else {
            cur2
        };
        SpriteView { accumulated_ms: acc2, current_frame: cur3, ..s }
    }
}

/// Unfreezing restores the accumulated clock of the pause, if any, and
/// turns the sprite into a one-shot animation.
pub open spec fn sprite_once_step(s: SpriteView) -> SpriteView {
    let acc = match s.state {
        AnimationState::Paused(a) => a as int,
        _ => s.accumulated_ms,
    };
    SpriteView { accumulated_ms: acc, state: AnimationState::Once, ..s }
}

impl AnimatedSprite {
    pub open spec fn wf(self) -> bool {
        self@.wf()
    }

    /// A fresh looping sprite on its first frame.
    pub fn new(frame_count: usize, frame_w: i32, frame_h: i32) -> (r: AnimatedSprite)
        requires
            frame_count >= 1,
            frame_w >= 0,
            frame_h >= 0,
        ensures
            r@ == (SpriteView {
                frame_count: frame_count as int,
                frame_w: frame_w as int,
                frame_h: frame_h as int,
                current_frame: 0,
                accumulated_ms: 0,
                state: AnimationState::Loop,
            }),
            r.wf(),
    {
        AnimatedSprite {
            frame_count,
            frame_w,
            frame_h,
            current_frame: 0,
            accumulated_ms: 0,
            state: AnimationState::Loop,
        }
    }

    /// Advance the animation clock by the frame delta.
    pub fn animate(&mut self, delta_ms: u64)
        requires
            old(self).wf(),
        ensures
            final (self)@ == sprite_animate_step(old(self)@, delta_ms as int),
            final (self).wf(),
    {
        if let AnimationState::Paused(_) = self.state {
            return ;
        }
        self.accumulated_ms = crate::arith::u64_add_clamped(self.accumulated_ms, delta_ms);
        if self.accumulated_ms >= FRAME_RATE_MS {
            self.accumulated_ms = self.accumulated_ms - FRAME_RATE_MS;
            self.current_frame = self.current_frame + 1;
        }
        if self.state == AnimationState::Once && self.current_frame >= self.frame_count {
            self.current_frame = self.current_frame - 1;
        } else if self.current_frame >= self.frame_count {
            self.current_frame = 0;
        }
    }

    /// Bounding box of the current frame.
    pub fn dimensions(&self) -> (r: Option<AxisAlignedBox>)
        requires
            self.wf(),
        ensures
            r matches Some(b) && b@ == self@.dim_view(),
    {
        Some(AxisAlignedBox::new(0, 0, self.frame_w, self.frame_h))
    }

    /// Switch to a one-shot animation, resuming a paused clock.
    pub fn once_animation(&mut self)
        requires
            old(self).wf(),
        ensures
            final (self)@ == sprite_once_step(old(self)@),
            final (self).wf(),
    {
        if let AnimationState::Paused(a) = self.state {
            self.accumulated_ms = a;
        }
        self.state = AnimationState::Once;
    }
}

/// Builds animation strips against a sprite sheet of known extents.
#[derive(Clone, Copy, Debug, PartialEq, Eq, Structural)]
pub struct AnimatedBuilder {
    pub sheet_w: i32,
    pub sheet_h: i32,
}

/// How many frames fit when slicing from `x` in steps of `w` while the
/// frame still ends within the sheet, taking at most `left` frames.
pub open spec fn frames_that_fit(x: int, w: int, sheet_w: int, left: nat) -> nat
    decreases left,
{
    if left == 0 {
        0
    } else if x + w <= sheet_w {
        (1 + frames_that_fit(x + w, w, sheet_w, (left - 1) as nat)) as nat
    } else {
        0
    }
}

/// A clip rectangle lies fully inside a sheet of the given extents.
pub open spec fn clip_contained(clip: BoxView, sheet_w: int, sheet_h: int) -> bool {
    &&& clip.x >= 0
    &&& clip.y >= 0
    &&& clip.w >= 0
    &&& clip.h >= 0
    &&& clip.x + clip.w <= sheet_w
    &&& clip.y + clip.h <= sheet_h
}

impl AnimatedBuilder {
    pub fn new(sheet_w: i32, sheet_h: i32) -> (r: AnimatedBuilder)
        requires
            sheet_w >= 0,
            sheet_h >= 0,
        ensures
            r.sheet_w == sheet_w,
            r.sheet_h == sheet_h,
    {
        AnimatedBuilder { sheet_w, sheet_h }
    }

    /// Slice a looping animation beginning at `clip` and continuing
    /// rightward one frame at a time: it may produce fewer, but never
    /// more, than `max_frames` frames.  Fails when no frame fits or the
    /// clip reaches outside the sheet.
    pub fn create_animated(&self, clip: &AxisAlignedBox, max_frames: usize) -> (r: Result<
        AnimatedSprite,
        (),
    >)
        ensures
            ({
                let n = frames_that_fit(
                    clip@.x,
                    clip@.w,
                    self.sheet_w as int,
                    max_frames as nat,
                );
                if n >= 1 && clip_contained(clip@, self.sheet_w as int, self.sheet_h as int) {
                    r matches Ok(s) && s@ == (SpriteView {
                        frame_count: n as int,
                        frame_w: clip@.w,
                        frame_h: clip@.h,
                        current_frame: 0,
                        accumulated_ms: 0,
                        state: AnimationState::Loop,
                    }) && s.wf()
                } else {
                    r is Err
                }
            }),
    {
        let mut count: usize = 0;
        let mut xpos: i128 = clip.x as i128;
        let mut left: usize = max_frames;
        proof {
            assert(frames_that_fit(clip@.x, clip@.w, self.sheet_w as int, max_frames as nat)
                <= max_frames as nat) by {
                lemma_frames_that_fit_bounded(clip@.x, clip@.w, self.sheet_w as int, max_frames as nat);
            }
        }
        while left > 0 && xpos + (clip.w as i128) <= self.sheet_w as i128
            invariant
                count + left == max_frames,
                -0x8000_0000 <= clip@.x <= 0x7fff_ffff,
                -0x8000_0000 <= clip@.w <= 0x7fff_ffff,
                xpos == clip@.x + count * clip@.w,
                xpos + clip@.w <= 0x7fff_ffff_ffff_ffff_ffff_ffff_ffff_ffff,
                xpos + clip@.w >= -0x8000_0000_0000_0000_0000_0000_0000_0000,
                count as nat + frames_that_fit(
                    xpos as int,
                    clip@.w,
                    self.sheet_w as int,
                    left as nat,
                ) == frames_that_fit(clip@.x, clip@.w, self.sheet_w as int, max_frames as nat),
            decreases left,
        {
            count = count + 1;
            left = left - 1;
            proof {
                assert((count - 1) * clip@.w + clip@.w == count * clip@.w) by (nonlinear_arith);
                lemma_xpos_bounded(clip@.x, clip@.w, count as int);
            }
            xpos = xpos + clip.w as i128;
        }
        let n = count;
        if n == 0 {
            return Err(());
        }
        if clip.x < 0 || clip.y < 0 || clip.w < 0 || clip.h < 0 {
            return Err(());
        }
        let ends_x: i64 = clip.x as i64 + clip.w as i64;
        let ends_y: i64 = clip.y as i64 + clip.h as i64;
        if ends_x > self.sheet_w as i64 || ends_y > self.sheet_h as i64 {
            return Err(());
        }
        Ok(AnimatedSprite::new(n, clip.w, clip.h))
    }

    /// Like `create_animated`, but the animation plays once and holds
    /// its last frame.
    pub fn create_animated_once(&self, clip: &AxisAlignedBox, max_frames: usize) -> (r: Result<
        AnimatedSprite,
        (),
    >)
        ensures
            ({
                let n = frames_that_fit(
                    clip@.x,
                    clip@.w,
                    self.sheet_w as int,
                    max_frames as nat,
                );
                if n >= 1 && clip_contained(clip@, self.sheet_w as int, self.sheet_h as int) {
                    r matches Ok(s) && s@ == (SpriteView {
                        frame_count: n as int,
                        frame_w: clip@.w,
                        frame_h: clip@.h,
                        current_frame: 0,
                        accumulated_ms: 0,
                        state: AnimationState::Once,
                    }) && s.wf()
                } else {
                    r is Err
                }
            }),
    {
        match self.create_animated(clip, max_frames) {
            Ok(mut s) => {
                s.once_animation();
                Ok(s)
            },
            Err(e) => Err(e),
        }
    }
}

/// No more frames can fit than were asked for.
proof fn lemma_frames_that_fit_bounded(x: int, w: int, sheet_w: int, left: nat)
    ensures
        frames_that_fit(x, w, sheet_w, left) <= left,
    decreases left,
{
    if left > 0 && x + w <= sheet_w {
        lemma_frames_that_fit_bounded(x + w, w, sheet_w, (left - 1) as nat);
    }
}

/// The running clip position stays far inside `i64`.
proof fn lemma_xpos_bounded(x: int, w: int, count: int)
    requires
        -0x8000_0000 <= x <= 0x7fff_ffff,
        -0x8000_0000 <= w <= 0x7fff_ffff,
        0 <= count <= 0xffff_ffff_ffff_ffff,
    ensures
        x + count * w + w <= 0x7fff_ffff_ffff_ffff_ffff_ffff_ffff_ffff,
        x + count * w + w >= -0x8000_0000_0000_0000_0000_0000_0000_0000,
{
    assert(count * w <= count * 0x7fff_ffff) by (nonlinear_arith)
        requires 0 <= count, w <= 0x7fff_ffff;
    assert(count * w >= count * (-0x8000_0000)) by (nonlinear_arith)
        requires 0 <= count, w >= -0x8000_0000;
    assert(count * 0x7fff_ffff <= 0xffff_ffff_ffff_ffff * 0x7fff_ffff) by (nonlinear_arith)
        requires 0 <= count <= 0xffff_ffff_ffff_ffff;
    assert(count * (-0x8000_0000) >= 0xffff_ffff_ffff_ffff * (-0x8000_0000)) by (nonlinear_arith)
        requires 0 <= count <= 0xffff_ffff_ffff_ffff;
}

} // verus!
