//! Shared entity vocabulary: facing directions, animation names, and
//! the per-entity sprite table from which live hitboxes are derived.

use vstd::prelude::*;
use crate::collision::BoxView;
use crate::sprites::{sprite_animate_step, AnimatedSprite, AnimationState, SpriteView};

verus! {

/// Last-known facing of an entity; selects animations and offsets
/// attack boxes.
#[derive(Clone, Copy, Debug, PartialEq, Eq, Structural)]
pub enum Direction {
    Up,
    Left,
    Down,
    Right,
}

/// Named animations an entity can play.
#[derive(Clone, Copy, Debug, PartialEq, Eq, Structural)]
pub enum Animations {
    Stand,
    Walking,
    Cast,
    Slash,
    Die,
}

/// Slot of a facing direction in a sprite table row.
pub open spec fn direction_index(d: Direction) -> int {
    match d {
        Direction::Up => 0,
        Direction::Left => 1,
        Direction::Down => 2,
        Direction::Right => 3,
    }
}

/// Row of an animation in a sprite table.
pub open spec fn animation_index(a: Animations) -> int {
    match a {
        Animations::Stand => 0,
        Animations::Walking => 1,
        Animations::Cast => 2,
        Animations::Slash => 3,
        Animations::Die => 4,
    }
}

/// Slot of an (animation, direction) pair in a sprite table.
pub open spec fn anim_slot(a: Animations, d: Direction) -> int {
    animation_index(a) * 4 + direction_index(d)
}

/// Number of slots in a complete sprite table.
pub const SPRITE_SLOTS: usize = 20;

/// A complete sprite table: one animated sprite per (animation,
/// direction) pair, so an entity can switch to any animation and still
/// report a hitbox.
#[derive(Clone, Debug)]
pub struct SpriteSet {
    pub sprites: Vec<AnimatedSprite>,
}

impl View for SpriteSet {
    type V = Seq<SpriteView>;

    open spec fn view(&self) -> Seq<SpriteView> {
        self.sprites@.map_values(|s: AnimatedSprite| s@)
    }
}

impl SpriteSet {
    /// Every slot is filled with a well-formed sprite.
    pub open spec fn wf(self) -> bool {
        &&& self@.len() == SPRITE_SLOTS
        &&& forall|i: int| 0 <= i < self@.len() ==> (#[trigger] self@[i]).wf()
    }

    /// Build a table from an explicit list of sprites, one per slot.
    pub fn new(sprites: Vec<AnimatedSprite>) -> (r: SpriteSet)
        requires
            sprites@.len() == SPRITE_SLOTS,
            forall|i: int| 0 <= i < sprites@.len() ==> (#[trigger] sprites@[i]).wf(),
        ensures
            r@ == sprites@.map_values(|s: AnimatedSprite| s@),
            r.wf(),
    {
        let ghost gs = sprites@;
        let r = SpriteSet { sprites };
        proof {
            assert forall|i: int| 0 <= i < r@.len() implies (#[trigger] r@[i]).wf() by {
                assert(r@[i] == gs[i]@);
            }
        }
        r
    }

    /// Build a table whose every slot holds the same single-frame
    /// looping sprite of the given extents.
    pub fn uniform(frame_w: i32, frame_h: i32) -> (r: SpriteSet)
        requires
            frame_w >= 0,
            frame_h >= 0,
        ensures
            r.wf(),
            forall|i: int|
                0 <= i < r@.len() ==> (#[trigger] r@[i]) == (SpriteView {
                    frame_count: 1,
                    frame_w: frame_w as int,
                    frame_h: frame_h as int,
                    current_frame: 0,
                    accumulated_ms: 0,
                    state: AnimationState::Loop,
                }),
    {
        let mut sprites: Vec<AnimatedSprite> = Vec::new();
        while sprites.len() < SPRITE_SLOTS
            invariant
                sprites@.len() <= SPRITE_SLOTS,
                frame_w >= 0,
                frame_h >= 0,
                forall|i: int|
                    0 <= i < sprites@.len() ==> (#[trigger] sprites@[i])@ == (SpriteView {
                        frame_count: 1,
                        frame_w: frame_w as int,
                        frame_h: frame_h as int,
                        current_frame: 0,
                        accumulated_ms: 0,
                        state: AnimationState::Loop,
                    }),
            decreases SPRITE_SLOTS - sprites.len(),
        {
            sprites.push(AnimatedSprite::new(1, frame_w, frame_h));
        }
        proof {
            assert forall|i: int| 0 <= i < sprites@.len() implies (#[trigger] sprites@[i]).wf() by {
                assert(sprites@[i]@.wf());
            }
        }
        SpriteSet { sprites }
    }

    /// Slot lookup for an (animation, direction) pair.
    pub fn slot(a: Animations, d: Direction) -> (r: usize)
        ensures
            r as int == anim_slot(a, d),
            r < SPRITE_SLOTS,
    {
        let row: usize = match a {
            Animations::Stand => 0,
            Animations::Walking => 1,
            Animations::Cast => 2,
            Animations::Slash => 3,
            Animations::Die => 4,
        };
        let col: usize = match d {
            Direction::Up => 0,
            Direction::Left => 1,
            Direction::Down => 2,
            Direction::Right => 3,
        };
        row * 4 + col
    }

    /// Extents of the current frame of the sprite in the given slot.
    pub fn current_dims(&self, a: Animations, d: Direction) -> (r: (i32, i32))
        requires
            self.wf(),
        ensures
            r.0 as int == self@[anim_slot(a, d)].frame_w,
            r.1 as int == self@[anim_slot(a, d)].frame_h,
    {
        let i = Self::slot(a, d);
        let s = &self.sprites[i];
        proof {
            assert(s@ == self@[anim_slot(a, d)]);
        }
        (s.frame_w, s.frame_h)
    }

    /// Advance the animation clock of the sprite in the given slot.
    pub fn animate(&mut self, a: Animations, d: Direction, delta_ms: u64)
        requires
            old(self).wf(),
        ensures
            final (self)@ == old(self)@.update(
                anim_slot(a, d),
                sprite_animate_step(old(self)@[anim_slot(a, d)], delta_ms as int),
            ),
            final (self).wf(),
    {
        let ghost pre = self@;
        let i = Self::slot(a, d);
        proof {
            assert(self.sprites@[i as int]@ == pre[anim_slot(a, d)]);
        }
        self.sprites[i].animate(delta_ms);
        proof {
            assert forall|k: int| 0 <= k < self@.len() implies self@[k] == pre.update(
                anim_slot(a, d),
                sprite_animate_step(pre[anim_slot(a, d)], delta_ms as int),
            )[k] by {}
            assert(self@ =~= pre.update(
                anim_slot(a, d),
                sprite_animate_step(pre[anim_slot(a, d)], delta_ms as int),
            ));
        }
    }
}

} // verus!
