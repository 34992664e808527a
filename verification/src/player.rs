//! The player controller: per-tick input resolution in a fixed
//! priority order (death, cast, melee, movement, idle), attack-hitbox
//! construction, resource spending, damage intake with an
//! invulnerability window, and pickup text.
//!
//! Every tick clears the previous attack hitbox and rebuilds it only
//! while the triggering input is held; there is no multi-tick
//! persistence.

use vstd::prelude::*;
use crate::arith::{clip_i32, clip_u32, i32_add_clamped, i32_sub_clamped};
use crate::atk_box::{atk_box_view, AtkBox};
use crate::collision::{AxisAlignedBox, BoxView, CollideEntity};
use crate::entities::{anim_slot, Animations, Direction, SpriteSet};
use crate::floating_text::{
    text_views_of, texts_aged, FloatingText, TextColor, TextContent, TextView,
};
use crate::sprites::{sprite_animate_step, SpriteView};
use crate::stats::{Stats, StatsView};
use crate::timers::{count_up_step, CooldownTimer, INVULNERABLE_MS};

verus! {

/// Movement per tick: two and a half world units, in half-units.
pub const MOVE_STEP: i32 = 5;

/// Movement per tick while the run modifier is held: double speed.
pub const RUN_STEP: i32 = 10;

/// Milliseconds the melee attack needs to recharge.
pub const ATK_COOLDOWN_MS: u64 = 350;

/// Milliseconds between pickup texts.
pub const PICKUP_COOLDOWN_MS: u64 = 250;

/// Extents and forward offset of the cast attack box, in half-units.
pub const CAST_W: i32 = 128;

pub const CAST_H: i32 = 200;

pub const CAST_OFFSET: i32 = 80;

/// Extents and forward offset of the melee attack box, in half-units.
pub const MELEE_W: i32 = 64;

pub const MELEE_H: i32 = 160;

pub const MELEE_OFFSET: i32 = 80;

/// Which movement and action keys are currently held.
#[derive(Clone, Copy, Debug, PartialEq, Eq, Structural)]
pub struct InputState {
    pub up: bool,
    pub down: bool,
    pub left: bool,
    pub right: bool,
    pub run: bool,
    pub attack: bool,
    pub cast: bool,
}

impl Default for InputState {
    /// No key held.
    fn default() -> (r: InputState)
        ensures
            r == (InputState {
                up: false,
                down: false,
                left: false,
                right: false,
                run: false,
                attack: false,
                cast: false,
            }),
    {
        InputState {
            up: false,
            down: false,
            left: false,
            right: false,
            run: false,
            attack: false,
            cast: false,
        }
    }
}

/// The player.
pub struct Player {
    pub x: i32,
    pub y: i32,
    pub stats: Stats,
    pub sprites: SpriteSet,
    pub animation: (Animations, Direction),
    pub atk_box: Option<AtkBox>,
    pub attacking: bool,
    pub atk_cooldown: CooldownTimer,
    pub invulnerable: CooldownTimer,
    pub direction: Direction,
    pub macguffin: bool,
    pub cooldown: CooldownTimer,
    pub floating_text: Vec<FloatingText>,
    pub atk_cooldown_enforced: bool,
}

/// Mathematical view of the player.
#[verifier::ext_equal]
pub ghost struct PlayerView {
    pub x: int,
    pub y: int,
    pub stats: StatsView,
    pub sprites: Seq<SpriteView>,
    pub animation: (Animations, Direction),
    pub atk_box: Option<BoxView>,
    pub attacking: bool,
    pub atk_cooldown: int,
    pub invulnerable: int,
    pub direction: Direction,
    pub macguffin: bool,
    pub cooldown: int,
    pub texts: Seq<TextView>,
    pub atk_cooldown_enforced: bool,
}

impl View for Player {
    type V = PlayerView;

    open spec fn view(&self) -> PlayerView {
        PlayerView {
            x: self.x as int,
            y: self.y as int,
            stats: self.stats@,
            sprites: self.sprites@,
            animation: self.animation,
            atk_box: match self.atk_box {
                Some(b) => Some(b@),
                None => None,
            },
            attacking: self.attacking,
            atk_cooldown: self.atk_cooldown.elapsed_ms as int,
            invulnerable: self.invulnerable.elapsed_ms as int,
            direction: self.direction,
            macguffin: self.macguffin,
            cooldown: self.cooldown.elapsed_ms as int,
            texts: text_views_of(self.floating_text@),
            atk_cooldown_enforced: self.atk_cooldown_enforced,
        }
    }
}

impl PlayerView {
    /// The sprite table is complete and well-formed.
    pub open spec fn wf(self) -> bool {
        &&& self.sprites.len() == crate::entities::SPRITE_SLOTS
        &&& forall|i: int| 0 <= i < self.sprites.len() ==> (#[trigger] self.sprites[i]).wf()
    }
}

/// The player's live hitbox: the current animation frame's extents,
/// centered on the player's position.
pub open spec fn player_hitbox(p: PlayerView) -> BoxView {
    let s = p.sprites[anim_slot(p.animation.0, p.animation.1)];
    BoxView {
        x: clip_i32(p.x - s.frame_w / 2),
        y: clip_i32(p.y - s.frame_h / 2),
        w: s.frame_w,
        h: s.frame_h,
    }
}

/// Damage intake: while not inside the invulnerability window, positive
/// true damage (attack minus defense) reduces hp (clamped at zero),
/// restarts the window and spawns a damage text; non-positive true
/// damage spawns a "Blocked" text and leaves the window untouched.
pub open spec fn player_take_dmg_step(p: PlayerView, dmg: int) -> PlayerView {
    let true_dmg = dmg - p.stats.def;
    if p.invulnerable >= INVULNERABLE_MS {
        if true_dmg > 0 {
            PlayerView {
                stats: StatsView { hp: clip_u32(p.stats.hp - true_dmg), ..p.stats },
                invulnerable: 0,
                texts: p.texts.push(
                    TextView {
                        x: p.x,
                        spawn_y: p.y,
                        content: TextContent::Damage(clip_u32(true_dmg) as u32),
                        color: TextColor::Red,
                        elapsed_ms: 0,
                    },
                ),
                ..p
            }
        } else {
            PlayerView {
                texts: p.texts.push(
                    TextView {
                        x: p.x,
                        spawn_y: p.y,
                        content: TextContent::Blocked,
                        color: TextColor::Blue,
                        elapsed_ms: 0,
                    },
                ),
                ..p
            }
        }
    } else {
        p
    }
}

/// Invulnerability law: a hit arriving once the grace window has
/// passed lands — positive true damage comes off the hp (clamped at
/// zero) and a fresh window starts — while any hit arriving inside the
/// window leaves the player entirely unchanged.
pub proof fn lemma_invulnerability_window(p: PlayerView, dmg: int)
    ensures
        p.invulnerable >= INVULNERABLE_MS && dmg - p.stats.def > 0 ==> {
            let q = player_take_dmg_step(p, dmg);
            &&& q.stats.hp == clip_u32(p.stats.hp - (dmg - p.stats.def))
            &&& q.invulnerable == 0
        },
        p.invulnerable < INVULNERABLE_MS ==> player_take_dmg_step(p, dmg) == p,
{
}

/// Pickup text: shown only once the pickup cooldown has run out, which
/// also restarts the cooldown.
pub open spec fn player_pick_up_step(p: PlayerView, content: TextContent) -> PlayerView {
    if p.cooldown >= PICKUP_COOLDOWN_MS {
        PlayerView {
            cooldown: 0,
            texts: p.texts.push(
                TextView {
                    x: p.x,
                    spawn_y: p.y,
                    content: content,
                    color: TextColor::Green,
                    elapsed_ms: 0,
                },
            ),
            ..p
        }
    } else {
        p
    }
}

/// Outcome of the single priority branch of one player tick: exactly
/// one of death, casting, melee, movement, or idling applies.
pub open spec fn player_branch_step(p: PlayerView, input: InputState) -> PlayerView {
    if p.stats.hp <= 0 {
        PlayerView { animation: (Animations::Die, Direction::Down), ..p }
    } else if input.cast && p.stats.mp > 0 {
        PlayerView {
            atk_box: Some(
                atk_box_view(p.x, p.y, CAST_W as int, CAST_H as int, p.direction, CAST_OFFSET as int),
            ),
            animation: (Animations::Cast, p.animation.1),
            stats: StatsView { mp: p.stats.mp - 1, ..p.stats },
            ..p
        }
    } else if input.attack && (!p.atk_cooldown_enforced || p.atk_cooldown > ATK_COOLDOWN_MS) {
        PlayerView {
            atk_box: Some(
                atk_box_view(
                    p.x,
                    p.y,
                    MELEE_W as int,
                    MELEE_H as int,
                    p.direction,
                    MELEE_OFFSET as int,
                ),
            ),
            animation: (Animations::Slash, p.animation.1),
            atk_cooldown: 0,
            ..p
        }
    } else if input.right {
        let step: int = if input.run { RUN_STEP as int } else { MOVE_STEP as int };
        PlayerView {
            x: clip_i32(p.x + step),
            animation: (Animations::Walking, Direction::Right),
            direction: Direction::Right,
            ..p
        }
    } else if input.left {
        let step: int = if input.run { RUN_STEP as int } else { MOVE_STEP as int };
        PlayerView {
            x: clip_i32(p.x - step),
            animation: (Animations::Walking, Direction::Left),
            direction: Direction::Left,
            ..p
        }
    } else if input.up {
        let step: int = if input.run { RUN_STEP as int } else { MOVE_STEP as int };
        PlayerView {
            y: clip_i32(p.y - step),
            animation: (Animations::Walking, Direction::Up),
            direction: Direction::Up,
            ..p
        }
    } else if input.down {
        let step: int = if input.run { RUN_STEP as int } else { MOVE_STEP as int };
        PlayerView {
            y: clip_i32(p.y + step),
            animation: (Animations::Walking, Direction::Down),
            direction: Direction::Down,
            ..p
        }
    } else {
        PlayerView { animation: (Animations::Stand, p.animation.1), ..p }
    }
}

/// One whole player tick: clear the attack hitbox, advance the
/// invulnerability and attack-cooldown clocks, resolve the priority
/// branch, animate the resulting animation, age the floating texts and
/// advance the pickup cooldown.
pub open spec fn player_update_step(p: PlayerView, input: InputState, delta: int) -> PlayerView {
    let p1 = PlayerView {
        atk_box: None,
        invulnerable: count_up_step(p.invulnerable, delta, INVULNERABLE_MS as int),
        atk_cooldown: count_up_step(p.atk_cooldown, delta, ATK_COOLDOWN_MS as int + 1),
        ..p
    };
    let p2 = player_branch_step(p1, input);
    let slot = anim_slot(p2.animation.0, p2.animation.1);
    let p3 = PlayerView {
        sprites: p2.sprites.update(slot, sprite_animate_step(p2.sprites[slot], delta)),
        texts: texts_aged(p2.texts, delta),
        cooldown: count_up_step(p2.cooldown, delta, PICKUP_COOLDOWN_MS as int),
        ..p2
    };
    p3
}

impl Player {
    pub open spec fn wf(self) -> bool {
        self@.wf()
    }

    /// A fresh player at the starting position with starting stats.
    pub fn new(sprites: SpriteSet) -> (r: Player)
        requires
            sprites.wf(),
        ensures
            r@ == (PlayerView {
                x: 20,
                y: 20,
                stats: StatsView {
                    lv: 1,
                    exp: 0,
                    hp: 100,
                    max_hp: 100,
                    mp: 150,
                    max_mp: 150,
                    atk: 6,
                    def: 1,
                    spd: 2,
                },
                sprites: sprites@,
                animation: (Animations::Walking, Direction::Right),
                atk_box: None,
                attacking: false,
                atk_cooldown: 0,
                invulnerable: 0,
                direction: Direction::Right,
                macguffin: false,
                cooldown: 1000,
                texts: Seq::empty(),
                atk_cooldown_enforced: false,
            }),
            r.wf(),
    {
        let r = Player {
            x: 20,
            y: 20,
            stats: Stats::new(1, 0, 100, 150, 6, 1, 2),
            sprites,
            animation: (Animations::Walking, Direction::Right),
            atk_box: None,
            attacking: false,
            atk_cooldown: CooldownTimer::new(0),
            invulnerable: CooldownTimer::new(0),
            direction: Direction::Right,
            macguffin: false,
            cooldown: CooldownTimer::new(1000),
            floating_text: Vec::new(),
            atk_cooldown_enforced: false,
        };
        proof {
            assert(text_views_of(r.floating_text@) =~= Seq::<TextView>::empty());
        }
        r
    }

    /// One player tick.
    pub fn update(&mut self, input: &InputState, delta_ms: u64)
        requires
            old(self).wf(),
        ensures
            final (self)@ == player_update_step(old(self)@, *input, delta_ms as int),
            final (self).wf(),
    {
        self.atk_box = None;
        self.invulnerable.advance(delta_ms, INVULNERABLE_MS);
        self.atk_cooldown.advance(delta_ms, ATK_COOLDOWN_MS + 1);
        let ghost p1 = self@;
        if self.stats.hp == 0 {
            self.animation = (Animations::Die, Direction::Down);
        } else if input.cast && self.stats.mp > 0 {
            self.atk_box = Some(
                AtkBox::new(self.x, self.y, CAST_W, CAST_H, &self.direction, CAST_OFFSET),
            );
            self.animation = (Animations::Cast, self.animation.1);
            self.stats.mp = self.stats.mp - 1;
        } else if input.attack && (!self.atk_cooldown_enforced || self.atk_cooldown.elapsed_ms
            > ATK_COOLDOWN_MS) {
            self.atk_box = Some(
                AtkBox::new(self.x, self.y, MELEE_W, MELEE_H, &self.direction, MELEE_OFFSET),
            );
            self.animation = (Animations::Slash, self.animation.1);
            self.atk_cooldown.trigger();
        } else if input.right {
            let step = if input.run { RUN_STEP } else { MOVE_STEP };
            self.x = i32_add_clamped(self.x, step);
            self.animation = (Animations::Walking, Direction::Right);
            self.direction = Direction::Right;
        } else if input.left {
            let step = if input.run { RUN_STEP } else { MOVE_STEP };
            self.x = i32_sub_clamped(self.x, step);
            self.animation = (Animations::Walking, Direction::Left);
            self.direction = Direction::Left;
        } else if input.up {
            let step = if input.run { RUN_STEP } else { MOVE_STEP };
            self.y = i32_sub_clamped(self.y, step);
            self.animation = (Animations::Walking, Direction::Up);
            self.direction = Direction::Up;
        } else if input.down {
            let step = if input.run { RUN_STEP } else { MOVE_STEP };
            self.y = i32_add_clamped(self.y, step);
            self.animation = (Animations::Walking, Direction::Down);
            self.direction = Direction::Down;
        } else {
            self.animation = (Animations::Stand, self.animation.1);
        }
        proof {
            assert(self@ =~= player_branch_step(p1, *input));
        }
        let ghost p2 = self@;
        self.sprites.animate(self.animation.0, self.animation.1, delta_ms);
        crate::floating_text::age_texts(&mut self.floating_text, delta_ms);
        self.cooldown.advance(delta_ms, PICKUP_COOLDOWN_MS);
        proof {
            assert(self@ =~= player_update_step(old(self)@, *input, delta_ms as int));
        }
    }

    /// Teleport the player.
    pub fn move_location(&mut self, xinc: i32, yinc: i32)
        ensures
            final (self)@ == (PlayerView { x: xinc as int, y: yinc as int, ..old(self)@ }),
    {
        self.x = xinc;
        self.y = yinc;
    }

    /// Take a hit of the given attack strength.
    pub fn take_dmg(&mut self, dmg_to_take: u32)
        ensures
            final (self)@ == player_take_dmg_step(old(self)@, dmg_to_take as int),
    {
        if !(self.invulnerable.elapsed_ms < INVULNERABLE_MS) {
            if dmg_to_take > self.stats.def {
                let true_dmg = dmg_to_take - self.stats.def;
                self.stats.hp = crate::arith::u32_sub_clamped(self.stats.hp, true_dmg);
                self.invulnerable.trigger();
                let ghost pretexts = text_views_of(self.floating_text@);
                let t = FloatingText::new(
                    self.x,
                    self.y,
                    TextContent::Damage(true_dmg),
                    TextColor::Red,
                );
                self.floating_text.push(t);
                proof {
                    lemma_text_views_push(old(self).floating_text@, t);
                }
            } else {
                let t = FloatingText::new(self.x, self.y, TextContent::Blocked, TextColor::Blue);
                self.floating_text.push(t);
                proof {
                    lemma_text_views_push(old(self).floating_text@, t);
                }
            }
            proof {
                assert(self@ =~= player_take_dmg_step(old(self)@, dmg_to_take as int));
            }
        }
    }

    /// Show a pickup message, if the pickup cooldown allows one.
    pub fn pick_up(&mut self, content: TextContent)
        ensures
            final (self)@ == player_pick_up_step(old(self)@, content),
    {
        if !(self.cooldown.elapsed_ms < PICKUP_COOLDOWN_MS) {
            self.cooldown.trigger();
            let t = FloatingText::new(self.x, self.y, content, TextColor::Green);
            self.floating_text.push(t);
            proof {
                lemma_text_views_push(old(self).floating_text@, t);
                assert(self@ =~= player_pick_up_step(old(self)@, content));
            }
        }
    }
}

/// Pushing one floating text extends the text views by its view.
pub proof fn lemma_text_views_push(s: Seq<FloatingText>, t: FloatingText)
    ensures
        text_views_of(s.push(t)) =~= text_views_of(s).push(t@),
{
    assert forall|k: int|
        0 <= k < s.len() + 1 implies text_views_of(s.push(t))[k] == text_views_of(s).push(t@)[k] by {
        if k < s.len() {
            assert(s.push(t)[k] == s[k]);
        } else {
            assert(s.push(t)[k] == t);
        }
    }
}

impl CollideEntity for Player {
    open spec fn cwf(&self) -> bool {
        self.wf()
    }

    open spec fn hitbox_view(&self) -> BoxView {
        player_hitbox(self@)
    }

    open spec fn sub_hitbox_views(&self) -> Seq<BoxView> {
        seq![player_hitbox(self@)]
    }

    /// The current animation frame's extents, centered on the player.
    fn get_hitbox(&self) -> (r: AxisAlignedBox) {
        let (w, h) = self.sprites.current_dims(self.animation.0, self.animation.1);
        let x = i32_sub_clamped(self.x, w / 2);
        let y = i32_sub_clamped(self.y, h / 2);
        AxisAlignedBox { x, y, w, h }
    }

    fn get_sub_hitboxs(&self) -> (r: Vec<AxisAlignedBox>) {
        let mut v: Vec<AxisAlignedBox> = Vec::new();
        v.push(self.get_hitbox());
        proof {
            assert(crate::collision::views_of(v@) =~= seq![player_hitbox(self@)]);
        }
        v
    }
}

} // verus!
