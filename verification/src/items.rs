//! Items and the one NPC of the session: the macguffin the player is
//! after, healing potions, and the collector who asks for the
//! macguffin and ends the game when it is delivered.

use vstd::prelude::*;
use crate::collision::{AxisAlignedBox, BoxView, CollideEntity};
use crate::floating_text::{
    text_views_of, texts_aged, FloatingText, TextColor, TextContent, TextView,
};
use crate::player::lemma_text_views_push;
use crate::timers::{count_up_step, CooldownTimer};

verus! {

/// Milliseconds between the collector's lines.
pub const TALK_COOLDOWN_MS: u64 = 1000;

/// The quest item.
#[derive(Clone, Copy, Debug, PartialEq, Eq, Structural)]
pub struct Macguffin {
    pub x: i32,
    pub y: i32,
    pub w: i32,
    pub h: i32,
}

impl View for Macguffin {
    type V = BoxView;

    open spec fn view(&self) -> BoxView {
        BoxView { x: self.x as int, y: self.y as int, w: self.w as int, h: self.h as int }
    }
}

impl Macguffin {
    pub fn new(xpos: i32, ypos: i32, w: i32, h: i32) -> (r: Macguffin)
        requires
            w >= 0,
            h >= 0,
        ensures
            r@ == (BoxView { x: xpos as int, y: ypos as int, w: w as int, h: h as int }),
    {
        Macguffin { x: xpos, y: ypos, w, h }
    }
}

impl CollideEntity for Macguffin {
    open spec fn cwf(&self) -> bool {
        true
    }

    open spec fn hitbox_view(&self) -> BoxView {
        self@
    }

    open spec fn sub_hitbox_views(&self) -> Seq<BoxView> {
        seq![self@]
    }

    fn get_hitbox(&self) -> (r: AxisAlignedBox) {
        AxisAlignedBox { x: self.x, y: self.y, w: self.w, h: self.h }
    }

    fn get_sub_hitboxs(&self) -> (r: Vec<AxisAlignedBox>) {
        let mut v: Vec<AxisAlignedBox> = Vec::new();
        v.push(self.get_hitbox());
        proof {
            assert(crate::collision::views_of(v@) =~= seq![self@]);
        }
        v
    }
}

/// A healing potion; consumed once used.
#[derive(Clone, Copy, Debug, PartialEq, Eq, Structural)]
pub struct Potions {
    pub x: i32,
    pub y: i32,
    pub used: bool,
    pub w: i32,
    pub h: i32,
}

/// Mathematical view of a potion.
#[verifier::ext_equal]
pub ghost struct PotionView {
    pub x: int,
    pub y: int,
    pub used: bool,
    pub w: int,
    pub h: int,
}

impl View for Potions {
    type V = PotionView;

    open spec fn view(&self) -> PotionView {
        PotionView {
            x: self.x as int,
            y: self.y as int,
            used: self.used,
            w: self.w as int,
            h: self.h as int,
        }
    }
}

/// Hitbox of a potion.
pub open spec fn potion_box(p: PotionView) -> BoxView {
    BoxView { x: p.x, y: p.y, w: p.w, h: p.h }
}

impl Potions {
    pub fn new(xpos: i32, ypos: i32, w: i32, h: i32) -> (r: Potions)
        requires
            w >= 0,
            h >= 0,
        ensures
            r@ == (PotionView { x: xpos as int, y: ypos as int, used: false, w: w as int, h: h as int }),
    {
        Potions { x: xpos, y: ypos, used: false, w, h }
    }
}

impl CollideEntity for Potions {
    open spec fn cwf(&self) -> bool {
        true
    }

    open spec fn hitbox_view(&self) -> BoxView {
        potion_box(self@)
    }

    open spec fn sub_hitbox_views(&self) -> Seq<BoxView> {
        seq![potion_box(self@)]
    }

    fn get_hitbox(&self) -> (r: AxisAlignedBox) {
        AxisAlignedBox { x: self.x, y: self.y, w: self.w, h: self.h }
    }

    fn get_sub_hitboxs(&self) -> (r: Vec<AxisAlignedBox>) {
        let mut v: Vec<AxisAlignedBox> = Vec::new();
        v.push(self.get_hitbox());
        proof {
            assert(crate::collision::views_of(v@) =~= seq![potion_box(self@)]);
        }
        v
    }
}

/// The collector NPC who wants the macguffin.
pub struct MacguffinMan {
    pub x: i32,
    pub y: i32,
    pub hp: u32,
    pub atk: u32,
    pub def: u32,
    pub floating_text: Vec<FloatingText>,
    pub cooldown: CooldownTimer,
    pub w: i32,
    pub h: i32,
}

/// Mathematical view of the collector.
#[verifier::ext_equal]
pub ghost struct ManView {
    pub x: int,
    pub y: int,
    pub hp: int,
    pub atk: int,
    pub def: int,
    pub texts: Seq<TextView>,
    pub cooldown: int,
    pub w: int,
    pub h: int,
}

impl View for MacguffinMan {
    type V = ManView;

    open spec fn view(&self) -> ManView {
        ManView {
            x: self.x as int,
            y: self.y as int,
            hp: self.hp as int,
            atk: self.atk as int,
            def: self.def as int,
            texts: text_views_of(self.floating_text@),
            cooldown: self.cooldown.elapsed_ms as int,
            w: self.w as int,
            h: self.h as int,
        }
    }
}

/// Hitbox of the collector.
pub open spec fn man_hitbox(m: ManView) -> BoxView {
    BoxView { x: m.x, y: m.y, w: m.w, h: m.h }
}

/// Housekeeping tick of the collector: age the floating texts and let
/// the talk cooldown run.
pub open spec fn man_update_step(m: ManView, delta: int) -> ManView {
    ManView {
        texts: texts_aged(m.texts, delta),
        cooldown: count_up_step(m.cooldown, delta, TALK_COOLDOWN_MS as int),
        ..m
    }
}

/// Speaking: a line appears only once the talk cooldown has run out,
/// which also restarts the cooldown.
pub open spec fn man_talk_step(m: ManView, content: TextContent) -> ManView {
    if m.cooldown >= TALK_COOLDOWN_MS {
        ManView {
            cooldown: 0,
            texts: m.texts.push(
                TextView {
                    x: m.x,
                    spawn_y: m.y,
                    content: content,
                    color: TextColor::White,
                    elapsed_ms: 0,
                },
            ),
            ..m
        }
    } else {
        m
    }
}

impl MacguffinMan {
    pub fn new(xpos: i32, ypos: i32, w: i32, h: i32) -> (r: MacguffinMan)
        requires
            w >= 0,
            h >= 0,
        ensures
            r@ == (ManView {
                x: xpos as int,
                y: ypos as int,
                hp: 20,
                atk: 6,
                def: 2,
                texts: Seq::empty(),
                cooldown: 1000,
                w: w as int,
                h: h as int,
            }),
    {
        let r = MacguffinMan {
            x: xpos,
            y: ypos,
            hp: 20,
            atk: 6,
            def: 2,
            floating_text: Vec::new(),
            cooldown: CooldownTimer::new(1000),
            w,
            h,
        };
        proof {
            assert(text_views_of(r.floating_text@) =~= Seq::<TextView>::empty());
        }
        r
    }

    /// One housekeeping tick.
    pub fn update(&mut self, delta_ms: u64)
        ensures
            final (self)@ == man_update_step(old(self)@, delta_ms as int),
    {
        crate::floating_text::age_texts(&mut self.floating_text, delta_ms);
        self.cooldown.advance(delta_ms, TALK_COOLDOWN_MS);
        proof {
            assert(self@ =~= man_update_step(old(self)@, delta_ms as int));
        }
    }

    /// Say a line, if the talk cooldown allows one.
    pub fn talk(&mut self, content: TextContent)
        ensures
            final (self)@ == man_talk_step(old(self)@, content),
    {
        if !(self.cooldown.elapsed_ms < TALK_COOLDOWN_MS) {
            self.cooldown.trigger();
            let t = FloatingText::new(self.x, self.y, content, TextColor::White);
            self.floating_text.push(t);
            proof {
                lemma_text_views_push(old(self).floating_text@, t);
                assert(self@ =~= man_talk_step(old(self)@, content));
            }
        }
    }
}

impl CollideEntity for MacguffinMan {
    open spec fn cwf(&self) -> bool {
        true
    }

    open spec fn hitbox_view(&self) -> BoxView {
        man_hitbox(self@)
    }

    open spec fn sub_hitbox_views(&self) -> Seq<BoxView> {
        seq![man_hitbox(self@)]
    }

    fn get_hitbox(&self) -> (r: AxisAlignedBox) {
        AxisAlignedBox { x: self.x, y: self.y, w: self.w, h: self.h }
    }

    fn get_sub_hitboxs(&self) -> (r: Vec<AxisAlignedBox>) {
        let mut v: Vec<AxisAlignedBox> = Vec::new();
        v.push(self.get_hitbox());
        proof {
            assert(crate::collision::views_of(v@) =~= seq![man_hitbox(self@)]);
        }
        v
    }
}

} // verus!
