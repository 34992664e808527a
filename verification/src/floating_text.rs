//! Transient floating combat text: spawned on a hit, block or pickup,
//! drifts upward at a fixed rate, and is removed once its lifetime
//! elapses.

use vstd::prelude::*;
use crate::arith::{clip_i32, clip_u64, u64_add_clamped};

verus! {

/// How long a floating text lives, in milliseconds.
pub const TEXT_LIFETIME_MS: u64 = 1000;

/// Upward drift in half-units per second: twenty-five world units.
pub const TEXT_FLOAT_SPEED: u64 = 50;

/// What a floating text says.
#[derive(Clone, Copy, Debug, PartialEq, Eq, Structural)]
pub enum TextContent {
    /// A damage number, shown negated ("-2").
    Damage(u32),
    /// A hit that the defender's defense fully absorbed.
    Blocked,
    /// A heal amount from a potion.
    Healed(u32),
    /// Pickup announcement: the macguffin is found and the boss wakes.
    PickedUpMacguffin,
    /// The collector's line once the macguffin is in hand.
    FoundMacguffin,
    /// The collector's plea while the macguffin is still out there.
    BringMacguffin,
}

/// Display color of a floating text.
#[derive(Clone, Copy, Debug, PartialEq, Eq, Structural)]
pub enum TextColor {
    White,
    Black,
    Red,
    Green,
    Blue,
}

/// A floating text at its spawn position; its current position derives
/// from how long it has been alive.
#[derive(Clone, Copy, Debug, PartialEq, Eq, Structural)]
pub struct FloatingText {
    pub x: i32,
    pub spawn_y: i32,
    pub content: TextContent,
    pub color: TextColor,
    pub elapsed_ms: u64,
}

/// Mathematical view of a floating text.
#[verifier::ext_equal]
pub ghost struct TextView {
    pub x: int,
    pub spawn_y: int,
    pub content: TextContent,
    pub color: TextColor,
    pub elapsed_ms: int,
}

impl View for FloatingText {
    type V = TextView;

    open spec fn view(&self) -> TextView {
        TextView {
            x: self.x as int,
            spawn_y: self.spawn_y as int,
            content: self.content,
            color: self.color,
            elapsed_ms: self.elapsed_ms as int,
        }
    }
}

/// A text is alive while its age is below the fixed lifetime.
pub open spec fn text_live(t: TextView) -> bool {
    t.elapsed_ms < TEXT_LIFETIME_MS
}

/// Aging a text only accumulates its elapsed time.
pub open spec fn text_aged(t: TextView, delta: int) -> TextView {
    TextView { elapsed_ms: clip_u64(t.elapsed_ms + delta), ..t }
}

/// Current vertical position: the text drifts upward from its spawn
/// point at a fixed speed.
pub open spec fn text_y(t: TextView) -> int {
    clip_i32(t.spawn_y - t.elapsed_ms * TEXT_FLOAT_SPEED / 1000)
}

impl FloatingText {
    pub fn new(x: i32, y: i32, content: TextContent, color: TextColor) -> (r: FloatingText)
        ensures
            r@ == (TextView {
                x: x as int,
                spawn_y: y as int,
                content: content,
                color: color,
                elapsed_ms: 0,
            }),
    {
        FloatingText { x, spawn_y: y, content, color, elapsed_ms: 0 }
    }

    /// Advance the text's age by the frame delta.
    pub fn update(&mut self, delta_ms: u64)
        ensures
            final (self)@ == text_aged(old(self)@, delta_ms as int),
    {
        self.elapsed_ms = u64_add_clamped(self.elapsed_ms, delta_ms);
    }

    /// True while the text should stay on screen.
    pub fn live(&self) -> (r: bool)
        ensures
            r == text_live(self@),
    {
        self.elapsed_ms < TEXT_LIFETIME_MS
    }

    /// Where the text currently stands.
    pub fn position(&self) -> (r: (i32, i32))
        ensures
            r.0 == self@.x,
            r.1 as int == text_y(self@),
    {
        let drift: i128 = self.elapsed_ms as i128 * (TEXT_FLOAT_SPEED as i128) / 1000;
        let y128: i128 = self.spawn_y as i128 - drift;
        let y: i32 = if y128 > i32::MAX as i128 {
            i32::MAX
        } else if y128 < i32::MIN as i128 {
            i32::MIN
        } else {
            y128 as i32
        };
        (self.x, y)
    }
}

/// Aging of a whole text list: texts that already expired are removed,
/// the survivors accumulate the frame delta.
pub open spec fn texts_aged(s: Seq<TextView>, delta: int) -> Seq<TextView>
    decreases s.len(),
{
    if s.len() == 0 {
        Seq::empty()
    } else {
        texts_aged(s.drop_last(), delta) + if text_live(s.last()) {
            seq![text_aged(s.last(), delta)]
        } else {
            Seq::<TextView>::empty()
        }
    }
}

/// The specification-level contents of a text list.
pub open spec fn text_views_of(s: Seq<FloatingText>) -> Seq<TextView> {
    s.map_values(|t: FloatingText| t@)
}

/// Retire expired texts and age the survivors by the frame delta.
pub fn age_texts(texts: &mut Vec<FloatingText>, delta_ms: u64)
    ensures
        text_views_of(final (texts)@) == texts_aged(
            text_views_of(old(texts)@),
            delta_ms as int,
        ),
{
    let ghost orig = text_views_of(texts@);
    let mut kept: Vec<FloatingText> = Vec::new();
    let ghost mut done: int = 0;
    while texts.len() > 0
        invariant
            0 <= done <= orig.len(),
            texts@.len() == orig.len() - done,
            text_views_of(texts@) == orig.skip(done),
            text_views_of(kept@) == texts_aged(orig.take(done), delta_ms as int),
        decreases texts.len(),
    {
        let ghost pre = texts@;
        let mut t = texts.remove(0);
        proof {
            assert(t@ == orig.skip(done)[0]);
            assert(t@ == orig[done]);
            assert forall|k: int| 0 <= k < texts@.len() implies texts@[k] == pre[k + 1] by {
                assert(texts@[k] == pre.remove(0)[k]);
            }
        }
        if t.live() {
            t.update(delta_ms);
            kept.push(t);
        }
        proof {
            assert(orig.take(done + 1).drop_last() =~= orig.take(done));
            assert(orig.take(done + 1).last() == orig[done]);
            assert(text_views_of(kept@) =~= texts_aged(orig.take(done + 1), delta_ms as int));
            assert forall|k: int|
                0 <= k < texts@.len() implies text_views_of(texts@)[k] == orig.skip(done + 1)[k] by {
                assert(text_views_of(texts@)[k] == texts@[k]@);
                assert(pre[k + 1]@ == text_views_of(pre)[k + 1]);
                assert(text_views_of(pre)[k + 1] == orig.skip(done)[k + 1]);
            }
            assert(text_views_of(texts@) =~= orig.skip(done + 1));
            done = done + 1;
        }
    }
    proof {
        assert(orig.take(done) =~= orig);
    }
    *texts = kept;
}

} // verus!
