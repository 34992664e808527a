//! Enemies and their behavior: per-tick damage intake from the
//! player's attack box, the per-axis unit-step chase with speculative
//! move and rollback, sight-gated chasing, the AI dispatcher keyed by
//! behavior tag, and the roster that owns the live collection.

use vstd::prelude::*;
use crate::arith::{clip_i32, clip_u32, i32_add_clamped, i32_sub_clamped, u32_sub_clamped};
use crate::collision::{any_overlap, boxes_overlap, AxisAlignedBox, BoxView, CollideEntity};
use crate::entities::{anim_slot, Animations, Direction, SpriteSet, SPRITE_SLOTS};
use crate::floating_text::{
    text_views_of, texts_aged, FloatingText, TextColor, TextContent, TextView,
};
use crate::level::Level;
use crate::player::{
    lemma_text_views_push, player_hitbox, player_take_dmg_step, Player, PlayerView,
};
use crate::sprites::{sprite_animate_step, AnimationState, SpriteView};
use crate::stats::{award_exp_step, EXP_PER_KILL};
use crate::timers::{count_up_step, CooldownTimer, INVULNERABLE_MS};

verus! {

/// Side of the square line-of-sight box.
pub const SIGHT_SIZE: i32 = 400;

/// How far the sight box is offset back from the enemy's position, so
/// that it ends up centered on the enemy.
pub const SIGHT_OFFSET: i32 = 200;

/// Extent of the world square in which reinforcements appear.
pub const SPAWN_RANGE: u32 = 1600;

/// One whole world unit of chase movement per axis and tick.
pub const CHASE_STEP: i32 = 2;

/// The movement/attack strategy tag carried by each enemy.
#[derive(Clone, Copy, Debug, PartialEq, Eq, Structural)]
pub enum AITypes {
    /// Move directly toward the player, always.
    MeleeDirect,
    /// Chase only while the player is in sight.
    MeleeLineOfSight,
    /// Move toward the player while firing, always.
    RangeDirect,
    /// Fire and chase only while the player is in sight.
    RangeLineOfSight,
    /// The composite boss behavior: both of the above, every tick.
    Boss,
    /// A misconfigured enemy: does nothing rather than crash.
    Error,
}

/// Which enemy variant this is.
#[derive(Clone, Copy, Debug, PartialEq, Eq, Structural)]
pub enum EnemyKind {
    Blob,
    Skeleton,
    Specter,
    Boss,
}

/// A fixed-size square re-centered on its owner each tick, used to
/// control sight-based behaviors.
#[derive(Clone, Copy, Debug, PartialEq, Eq, Structural)]
pub struct LineOfSight {
    pub line_of_sight: AxisAlignedBox,
}

impl LineOfSight {
    pub fn new(xpos: i32, ypos: i32) -> (r: LineOfSight)
        ensures
            r.line_of_sight@ == (BoxView { x: xpos as int, y: ypos as int, w: 1, h: 1 }),
    {
        LineOfSight { line_of_sight: AxisAlignedBox::new(xpos, ypos, 1, 1) }
    }

    pub fn update(&mut self, xpos: i32, ypos: i32, width: i32, height: i32)
        requires
            width >= 0,
            height >= 0,
        ensures
            final (self).line_of_sight@ == (BoxView {
                x: xpos as int,
                y: ypos as int,
                w: width as int,
                h: height as int,
            }),
    {
        self.line_of_sight = AxisAlignedBox::new(xpos, ypos, width, height);
    }
}

/// An enemy instance; the variants share one state shape and differ in
/// their defaults and behavior flags.
pub struct Enemy {
    pub kind: EnemyKind,
    pub x: i32,
    pub y: i32,
    pub hp: u32,
    pub atk: u32,
    pub def: u32,
    pub floating_text: Vec<FloatingText>,
    pub invulnerable: CooldownTimer,
    pub line_of_sight: LineOfSight,
    pub ai_type: AITypes,
    pub sprites: SpriteSet,
    pub animation: (Animations, Direction),
    pub direction: Direction,
}

/// Mathematical view of an enemy.
#[verifier::ext_equal]
pub ghost struct EnemyView {
    pub kind: EnemyKind,
    pub x: int,
    pub y: int,
    pub hp: int,
    pub atk: int,
    pub def: int,
    pub texts: Seq<TextView>,
    pub invulnerable: int,
    pub sight: BoxView,
    pub ai_type: AITypes,
    pub sprites: Seq<SpriteView>,
    pub animation: (Animations, Direction),
    pub direction: Direction,
}

impl View for Enemy {
    type V = EnemyView;

    open spec fn view(&self) -> EnemyView {
        EnemyView {
            kind: self.kind,
            x: self.x as int,
            y: self.y as int,
            hp: self.hp as int,
            atk: self.atk as int,
            def: self.def as int,
            texts: text_views_of(self.floating_text@),
            invulnerable: self.invulnerable.elapsed_ms as int,
            sight: self.line_of_sight.line_of_sight@,
            ai_type: self.ai_type,
            sprites: self.sprites@,
            animation: self.animation,
            direction: self.direction,
        }
    }
}

impl EnemyView {
    /// The sprite table is complete and well-formed.
    pub open spec fn wf(self) -> bool {
        &&& self.sprites.len() == SPRITE_SLOTS
        &&& forall|i: int| 0 <= i < self.sprites.len() ==> (#[trigger] self.sprites[i]).wf()
    }
}

/// An enemy's live hitbox: the current animation frame's extents at
/// its position.
pub open spec fn enemy_hitbox(e: EnemyView) -> BoxView {
    let s = e.sprites[anim_slot(e.animation.0, e.animation.1)];
    BoxView { x: e.x, y: e.y, w: s.frame_w, h: s.frame_h }
}

/// One axis of the unit-step chase, applied to the two axes
/// independently: step toward the target by one world unit from either
/// side; at a distance of up to one unit the two opposing steps cancel
/// out.
pub open spec fn chase_coord(c: int, t: int) -> int {
    let c1 = if c >= t {
        clip_i32(c - CHASE_STEP)
    } else {
        c
    };
    if c1 <= t {
        clip_i32(c1 + CHASE_STEP)
    } else {
        c1
    }
}

/// Facing after a chase step: a four-way quadrant heuristic on the
/// sign of the remaining offset, used only to pick an animation.
pub open spec fn chase_facing(x: int, y: int, px: int, py: int) -> Direction {
    if x > px && y > py {
        Direction::Left
    } else if x < px && y < py {
        Direction::Right
    } else if y > py && x < px {
        Direction::Up
    } else {
        Direction::Down
    }
}

/// Damage intake from the player: while not inside the invulnerability
/// window, positive true damage (player attack minus enemy defense)
/// reduces hp, restarts the window and spawns a damage text, while
/// non-positive true damage only spawns a "Blocked" text.  A kill
/// awards the player its experience.
pub open spec fn enemy_take_dmg_step(e: EnemyView, p: PlayerView) -> (EnemyView, PlayerView) {
    let true_dmg = p.stats.atk - e.def;
    let e1 = if e.invulnerable >= INVULNERABLE_MS {
        if true_dmg > 0 {
            EnemyView {
                hp: clip_u32(e.hp - true_dmg),
                invulnerable: 0,
                texts: e.texts.push(
                    TextView {
                        x: e.x,
                        spawn_y: e.y,
                        content: TextContent::Damage(clip_u32(true_dmg) as u32),
                        color: TextColor::Red,
                        elapsed_ms: 0,
                    },
                ),
                ..e
            }
        } else {
            EnemyView {
                texts: e.texts.push(
                    TextView {
                        x: e.x,
                        spawn_y: e.y,
                        content: TextContent::Blocked,
                        color: TextColor::Blue,
                        elapsed_ms: 0,
                    },
                ),
                ..e
            }
        }
    } else {
        e
    };
    let p1 = if e1.hp <= 0 {
        PlayerView { stats: award_exp_step(p.stats, EXP_PER_KILL as int), ..p }
    } else {
        p
    };
    (e1, p1)
}

/// One enemy housekeeping tick: age the floating texts, advance the
/// invulnerability clock, and take damage if the player's attack box
/// currently overlaps this enemy.
pub open spec fn enemy_tick_step(e: EnemyView, p: PlayerView, delta: int) -> (
    EnemyView,
    PlayerView,
) {
    let e1 = EnemyView {
        texts: texts_aged(e.texts, delta),
        invulnerable: count_up_step(e.invulnerable, delta, INVULNERABLE_MS as int),
        ..e
    };
    match p.atk_box {
        Some(ab) => if boxes_overlap(enemy_hitbox(e1), ab) {
            enemy_take_dmg_step(e1, p)
        } else {
            (e1, p)
        },
        None => (e1, p),
    }
}

/// One chase step, the same for every variant: move one unit per axis
/// toward the player, face the player, animate; a move that lands in
/// level geometry is rolled back; touching the player deals contact
/// damage and rolls the move back as well, so the enemy cannot settle
/// inside a wall or the player.
pub open spec fn chase_step(e: EnemyView, p: PlayerView, lvl: Seq<BoxView>, delta: int) -> (
    EnemyView,
    PlayerView,
) {
    let nx = chase_coord(e.x, p.x);
    let ny = chase_coord(e.y, p.y);
    let dir = chase_facing(nx, ny, p.x, p.y);
    let slot = anim_slot(Animations::Walking, dir);
    let e1 = EnemyView {
        x: nx,
        y: ny,
        animation: (Animations::Walking, dir),
        direction: dir,
        sprites: e.sprites.update(slot, sprite_animate_step(e.sprites[slot], delta)),
        ..e
    };
    let e2 = if any_overlap(lvl, seq![enemy_hitbox(e1)]) {
        EnemyView { x: e.x, y: e.y, ..e1 }
    } else {
        e1
    };
    if boxes_overlap(enemy_hitbox(e2), player_hitbox(p)) {
        let p1 = player_take_dmg_step(p, e.atk);
        (EnemyView { x: e.x, y: e.y, ..e2 }, p1)
    } else {
        (e2, p)
    }
}

/// One sight-gated step: re-center the line-of-sight box on the enemy,
/// chase only if it overlaps the player's hitbox; otherwise the enemy
/// falls back to a standing pose.
pub open spec fn sight_step(e: EnemyView, p: PlayerView, lvl: Seq<BoxView>, delta: int) -> (
    EnemyView,
    PlayerView,
) {
    let sight = BoxView {
        x: clip_i32(e.x - SIGHT_OFFSET),
        y: clip_i32(e.y - SIGHT_OFFSET),
        w: SIGHT_SIZE as int,
        h: SIGHT_SIZE as int,
    };
    let e1 = EnemyView { sight: sight, ..e };
    if boxes_overlap(sight, player_hitbox(p)) {
        chase_step(e1, p, lvl, delta)
    } else {
        (EnemyView { animation: (Animations::Stand, e1.animation.1), ..e1 }, p)
    }
}

/// Behavior selection by tag: direct tags always chase, sight tags
/// chase only while the player is in sight, the boss does both every tick, and the
/// error tag degrades to doing nothing.
pub open spec fn ai_step(e: EnemyView, p: PlayerView, lvl: Seq<BoxView>, delta: int) -> (
    EnemyView,
    PlayerView,
) {
    match e.ai_type {
        AITypes::MeleeDirect => chase_step(e, p, lvl, delta),
        AITypes::RangeDirect => chase_step(e, p, lvl, delta),
        AITypes::MeleeLineOfSight => sight_step(e, p, lvl, delta),
        AITypes::RangeLineOfSight => sight_step(e, p, lvl, delta),
        AITypes::Boss => {
            let (e1, p1) = chase_step(e, p, lvl, delta);
            sight_step(e1, p1, lvl, delta)
        },
        AITypes::Error => (e, p),
    }
}

/// One whole enemy frame: the housekeeping tick, then the AI step.
pub open spec fn frame_step(e: EnemyView, p: PlayerView, lvl: Seq<BoxView>, delta: int) -> (
    EnemyView,
    PlayerView,
) {
    let (e1, p1) = enemy_tick_step(e, p, delta);
    ai_step(e1, p1, lvl, delta)
}

impl Enemy {
    pub open spec fn wf(self) -> bool {
        self@.wf()
    }

    /// Shared constructor of the variants.
    fn make(
        kind: EnemyKind,
        xpos: i32,
        ypos: i32,
        hp: u32,
        atk: u32,
        def: u32,
        ai_type: AITypes,
        sprites: SpriteSet,
    ) -> (r: Enemy)
        requires
            sprites.wf(),
        ensures
            r@ == (EnemyView {
                kind: kind,
                x: xpos as int,
                y: ypos as int,
                hp: hp as int,
                atk: atk as int,
                def: def as int,
                texts: Seq::empty(),
                invulnerable: 1000,
                sight: BoxView { x: xpos as int, y: ypos as int, w: 1, h: 1 },
                ai_type: ai_type,
                sprites: sprites@,
                animation: (Animations::Walking, Direction::Down),
                direction: Direction::Down,
            }),
            r.wf(),
    {
        let r = Enemy {
            kind,
            x: xpos,
            y: ypos,
            hp,
            atk,
            def,
            floating_text: Vec::new(),
            invulnerable: CooldownTimer::new(1000),
            line_of_sight: LineOfSight::new(xpos, ypos),
            ai_type,
            sprites,
            animation: (Animations::Walking, Direction::Down),
            direction: Direction::Down,
        };
        proof {
            assert(text_views_of(r.floating_text@) =~= Seq::<TextView>::empty());
            assert(r@ =~= (EnemyView {
                kind: kind,
                x: xpos as int,
                y: ypos as int,
                hp: hp as int,
                atk: atk as int,
                def: def as int,
                texts: Seq::empty(),
                invulnerable: 1000,
                sight: BoxView { x: xpos as int, y: ypos as int, w: 1, h: 1 },
                ai_type: ai_type,
                sprites: r.sprites@,
                animation: (Animations::Walking, Direction::Down),
                direction: Direction::Down,
            }));
        }
        r
    }

    /// A blob: weak, wall-respecting, backs off after contact.
    pub fn blob(xpos: i32, ypos: i32, ai_type: AITypes, sprites: SpriteSet) -> (r: Enemy)
        requires
            sprites.wf(),
        ensures
            r@ == (EnemyView {
                kind: EnemyKind::Blob,
                x: xpos as int,
                y: ypos as int,
                hp: 20,
                atk: 6,
                def: 2,
                texts: Seq::empty(),
                invulnerable: 1000,
                sight: BoxView { x: xpos as int, y: ypos as int, w: 1, h: 1 },
                ai_type: ai_type,
                sprites: sprites@,
                animation: (Animations::Walking, Direction::Down),
                direction: Direction::Down,
            }),
            r.wf(),
    {
        Self::make(EnemyKind::Blob, xpos, ypos, 20, 6, 2, ai_type, sprites)
    }

    /// A skeleton: sturdier than a blob, same manners.
    pub fn skeleton(xpos: i32, ypos: i32, ai_type: AITypes, sprites: SpriteSet) -> (r: Enemy)
        requires
            sprites.wf(),
        ensures
            r@ == (EnemyView {
                kind: EnemyKind::Skeleton,
                x: xpos as int,
                y: ypos as int,
                hp: 40,
                atk: 6,
                def: 2,
                texts: Seq::empty(),
                invulnerable: 1000,
                sight: BoxView { x: xpos as int, y: ypos as int, w: 1, h: 1 },
                ai_type: ai_type,
                sprites: sprites@,
                animation: (Animations::Walking, Direction::Down),
                direction: Direction::Down,
            }),
            r.wf(),
    {
        Self::make(EnemyKind::Skeleton, xpos, ypos, 40, 6, 2, ai_type, sprites)
    }

    /// A specter: passes through walls and clings on contact.
    pub fn specter(xpos: i32, ypos: i32, ai_type: AITypes, sprites: SpriteSet) -> (r: Enemy)
        requires
            sprites.wf(),
        ensures
            r@ == (EnemyView {
                kind: EnemyKind::Specter,
                x: xpos as int,
                y: ypos as int,
                hp: 30,
                atk: 6,
                def: 0,
                texts: Seq::empty(),
                invulnerable: 1000,
                sight: BoxView { x: xpos as int, y: ypos as int, w: 1, h: 1 },
                ai_type: ai_type,
                sprites: sprites@,
                animation: (Animations::Walking, Direction::Down),
                direction: Direction::Down,
            }),
            r.wf(),
    {
        Self::make(EnemyKind::Specter, xpos, ypos, 30, 6, 0, ai_type, sprites)
    }

    /// The boss: heavy, aggressive, and periodically summons specters.
    pub fn boss(xpos: i32, ypos: i32, ai_type: AITypes, sprites: SpriteSet) -> (r: Enemy)
        requires
            sprites.wf(),
        ensures
            r@ == (EnemyView {
                kind: EnemyKind::Boss,
                x: xpos as int,
                y: ypos as int,
                hp: 200,
                atk: 10,
                def: 4,
                texts: Seq::empty(),
                invulnerable: 1000,
                sight: BoxView { x: xpos as int, y: ypos as int, w: 1, h: 1 },
                ai_type: ai_type,
                sprites: sprites@,
                animation: (Animations::Walking, Direction::Down),
                direction: Direction::Down,
            }),
            r.wf(),
    {
        Self::make(EnemyKind::Boss, xpos, ypos, 200, 10, 4, ai_type, sprites)
    }

    /// Is this enemy still alive?
    pub fn islive(&self) -> (r: bool)
        ensures
            r == (self@.hp > 0),
    {
        self.hp > 0
    }

    /// The behavior tag of this enemy.
    pub fn get_aitype(&self) -> (r: AITypes)
        ensures
            r == self@.ai_type,
    {
        self.ai_type
    }

    /// Take a hit from the player.
    pub fn take_dmg(&mut self, player: &mut Player)
        ensures
            ({
                let (e1, p1) = enemy_take_dmg_step(old(self)@, old(player)@);
                final (self)@ == e1 && final (player)@ == p1
            }),
    {
        if !(self.invulnerable.elapsed_ms < INVULNERABLE_MS) {
            if player.stats.atk > self.def {
                let true_dmg = player.stats.atk - self.def;
                self.hp = u32_sub_clamped(self.hp, true_dmg);
                self.invulnerable.trigger();
                let t = FloatingText::new(
                    self.x,
                    self.y,
                    TextContent::Damage(true_dmg),
                    TextColor::Red,
                );
                self.floating_text.push(t);
                proof {
                    lemma_text_views_push(old(self).floating_text@, t);
                }
            } else {
                let t = FloatingText::new(self.x, self.y, TextContent::Blocked, TextColor::Blue);
                self.floating_text.push(t);
                proof {
                    lemma_text_views_push(old(self).floating_text@, t);
                }
            }
        }
        proof {
            assert(self@ =~= enemy_take_dmg_step(old(self)@, old(player)@).0);
        }
        if self.hp == 0 {
            player.stats.check_for_level_up(EXP_PER_KILL);
        }
        proof {
            assert(player@ =~= enemy_take_dmg_step(old(self)@, old(player)@).1);
        }
    }

    /// One housekeeping tick: age texts, advance the invulnerability
    /// clock, and take damage from the player's attack box if it
    /// currently overlaps this enemy.
    pub fn update(&mut self, delta_ms: u64, player: &mut Player, _level: &Level)
        requires
            old(self).wf(),
            old(player).wf(),
        ensures
            ({
                let (e1, p1) = enemy_tick_step(old(self)@, old(player)@, delta_ms as int);
                final (self)@ == e1 && final (player)@ == p1
            }),
            final (self).wf(),
            final (player).wf(),
    {
        crate::floating_text::age_texts(&mut self.floating_text, delta_ms);
        self.invulnerable.advance(delta_ms, INVULNERABLE_MS);
        proof {
            assert(self@ =~= (EnemyView {
                texts: texts_aged(old(self)@.texts, delta_ms as int),
                invulnerable: count_up_step(
                    old(self)@.invulnerable,
                    delta_ms as int,
                    INVULNERABLE_MS as int,
                ),
                ..old(self)@
            }));
        }
        let ab_opt = player.atk_box;
        if let Some(ab) = ab_opt {
            let hb = self.get_hitbox();
            let abox = ab.get_hitbox();
            if hb.overlaps(&abox) {
                self.take_dmg(player);
            }
        }
    }

    /// Chase the player: one unit per axis with speculative move and
    /// rollback, then contact damage.
    pub fn chase_player(&mut self, delta_ms: u64, player: &mut Player, level: &Level)
        requires
            old(self).wf(),
            old(player).wf(),
        ensures
            ({
                let (e1, p1) = chase_step(old(self)@, old(player)@, level@, delta_ms as int);
                final (self)@ == e1 && final (player)@ == p1
            }),
            final (self).wf(),
            final (player).wf(),
    {
        let xpos = self.x;
        let ypos = self.y;
        if self.x >= player.x {
            self.x = i32_sub_clamped(self.x, CHASE_STEP);
        }
        if self.x <= player.x {
            self.x = i32_add_clamped(self.x, CHASE_STEP);
        }
        if self.y >= player.y {
            self.y = i32_sub_clamped(self.y, CHASE_STEP);
        }
        if self.y <= player.y {
            self.y = i32_add_clamped(self.y, CHASE_STEP);
        }
        proof {
            assert(self.x as int == chase_coord(old(self)@.x, old(player)@.x));
            assert(self.y as int == chase_coord(old(self)@.y, old(player)@.y));
        }
        let dir = if self.x > player.x && self.y > player.y {
            Direction::Left
        } else if self.x < player.x && self.y < player.y {
            Direction::Right
        } else if self.y > player.y && self.x < player.x {
            Direction::Up
        } else {
            Direction::Down
        };
        self.animation = (Animations::Walking, dir);
        self.direction = dir;
        self.sprites.animate(Animations::Walking, dir, delta_ms);
        let hb = self.get_hitbox();
        if level.collides_with_box(&hb) {
            self.x = xpos;
            self.y = ypos;
        }
        let hb = self.get_hitbox();
        let phb = player.get_hitbox();
        if hb.overlaps(&phb) {
            player.take_dmg(self.atk);
            self.x = xpos;
            self.y = ypos;
        }
        proof {
            let (se, sp) = chase_step(old(self)@, old(player)@, level@, delta_ms as int);
            assert(self@ =~= se);
            assert(player@ =~= sp);
        }
    }

    /// Chase the player only while the re-centered line-of-sight box
    /// overlaps the player's hitbox; otherwise fall back to idling, for
    /// the variants that do.
    pub fn chase_player_sight(&mut self, delta_ms: u64, player: &mut Player, level: &Level)
        requires
            old(self).wf(),
            old(player).wf(),
        ensures
            ({
                let (e1, p1) = sight_step(old(self)@, old(player)@, level@, delta_ms as int);
                final (self)@ == e1 && final (player)@ == p1
            }),
            final (self).wf(),
            final (player).wf(),
    {
        let sx = i32_sub_clamped(self.x, SIGHT_OFFSET);
        let sy = i32_sub_clamped(self.y, SIGHT_OFFSET);
        self.line_of_sight.update(sx, sy, SIGHT_SIZE, SIGHT_SIZE);
        let phb = player.get_hitbox();
        let sbox = self.line_of_sight.line_of_sight;
        if sbox.overlaps(&phb) {
            self.chase_player(delta_ms, player, level);
        } else {
            self.animation = (Animations::Stand, self.animation.1);
            proof {
                let (se, _) = sight_step(old(self)@, old(player)@, level@, delta_ms as int);
                assert(self@ =~= se);
            }
        }
    }

    /// Does this enemy summon a reinforcement this tick?  Only the boss
    /// ever does: it draws from its hundred-sided die and summons on
    /// the one face that `boss_spawn_roll` accepts.
    pub fn spawn(&self) -> (r: bool)
        ensures
            !(self@.kind is Boss) ==> r == false,
    {
        match self.kind {
            EnemyKind::Boss => {
                let roll = random_below(100);
                boss_spawn_roll(roll)
            },
            _ => false,
        }
    }
}

/// The boss's summoning rule on a hundred-sided draw: exactly the roll
/// of five summons a reinforcement, every other face does not.
pub fn boss_spawn_roll(roll: u32) -> (r: bool)
    ensures
        r == (roll == 5),
{
    roll == 5
}

/// Relies on rand::Rng::gen_range (rand 0.7.3): a uniform draw from
/// `[0, n)`; it panics only when the range is empty, which the
/// precondition rules out.
#[verifier::external_body]
fn random_below(n: u32) -> (r: u32)
    requires
        n > 0,
    ensures
        r < n,
{
    rand::Rng::gen_range(&mut rand::thread_rng(), 0u32, n)
}

impl CollideEntity for Enemy {
    open spec fn cwf(&self) -> bool {
        self.wf()
    }

    open spec fn hitbox_view(&self) -> BoxView {
        enemy_hitbox(self@)
    }

    open spec fn sub_hitbox_views(&self) -> Seq<BoxView> {
        seq![enemy_hitbox(self@)]
    }

    /// The current animation frame's extents at the enemy's position.
    fn get_hitbox(&self) -> (r: AxisAlignedBox) {
        let (w, h) = self.sprites.current_dims(self.animation.0, self.animation.1);
        AxisAlignedBox { x: self.x, y: self.y, w, h }
    }

    fn get_sub_hitboxs(&self) -> (r: Vec<AxisAlignedBox>) {
        let mut v: Vec<AxisAlignedBox> = Vec::new();
        v.push(self.get_hitbox());
        proof {
            assert(crate::collision::views_of(v@) =~= seq![enemy_hitbox(self@)]);
        }
        v
    }
}

/// The AI dispatcher: maps an enemy's behavior tag to its strategy.
#[derive(Clone, Copy, Debug, PartialEq, Eq, Structural)]
pub struct AI {}

impl AI {
    pub fn new() -> (r: AI)
        ensures
            r == (AI {  }),
    {
        AI {  }
    }

    /// Run the strategy selected by the enemy's behavior tag.
    pub fn update(&mut self, delta_ms: u64, enemy: &mut Enemy, player: &mut Player, level: &Level)
        requires
            old(enemy).wf(),
            old(player).wf(),
        ensures
            ({
                let (e1, p1) = ai_step(old(enemy)@, old(player)@, level@, delta_ms as int);
                final (enemy)@ == e1 && final (player)@ == p1
            }),
            final (enemy).wf(),
            final (player).wf(),
    {
        match enemy.ai_type {
            AITypes::MeleeDirect => enemy.chase_player(delta_ms, player, level),
            AITypes::RangeDirect => enemy.chase_player(delta_ms, player, level),
            AITypes::MeleeLineOfSight => enemy.chase_player_sight(delta_ms, player, level),
            AITypes::RangeLineOfSight => enemy.chase_player_sight(delta_ms, player, level),
            AITypes::Boss => {
                enemy.chase_player(delta_ms, player, level);
                enemy.chase_player_sight(delta_ms, player, level);
            },
            AITypes::Error => {},
        }
    }
}

/// Sight-gating law: a sight-gated enemy does not move (and the player
/// is untouched) while the player's hitbox stays outside the
/// re-centered line-of-sight box; once the hitbox overlaps it, the
/// enemy takes a full chase step toward the player.
pub proof fn lemma_sight_gates_movement(e: EnemyView, p: PlayerView, lvl: Seq<BoxView>, delta: int)
    requires
        e.ai_type is MeleeLineOfSight || e.ai_type is RangeLineOfSight,
    ensures
        ({
            let sight = BoxView {
                x: clip_i32(e.x - SIGHT_OFFSET),
                y: clip_i32(e.y - SIGHT_OFFSET),
                w: SIGHT_SIZE as int,
                h: SIGHT_SIZE as int,
            };
            let (e1, p1) = ai_step(e, p, lvl, delta);
            &&& !boxes_overlap(sight, player_hitbox(p)) ==> e1.x == e.x && e1.y == e.y && p1 == p
            &&& boxes_overlap(sight, player_hitbox(p)) ==> (e1, p1) == chase_step(
                EnemyView { sight: sight, ..e },
                p,
                lvl,
                delta,
            )
        }),
{
}

/// Wall law: when an enemy's tentative chase move lands in level
/// geometry, its position after the step equals its position before
/// it, whichever variant it is.
pub proof fn lemma_wall_rollback(e: EnemyView, p: PlayerView, lvl: Seq<BoxView>, delta: int)
    ensures
        ({
            let nx = chase_coord(e.x, p.x);
            let ny = chase_coord(e.y, p.y);
            let dir = chase_facing(nx, ny, p.x, p.y);
            let slot = anim_slot(Animations::Walking, dir);
            let moved = EnemyView {
                x: nx,
                y: ny,
                animation: (Animations::Walking, dir),
                direction: dir,
                sprites: e.sprites.update(slot, sprite_animate_step(e.sprites[slot], delta)),
                ..e
            };
            any_overlap(lvl, seq![enemy_hitbox(moved)]) ==> {
                let (e1, _) = chase_step(e, p, lvl, delta);
                e1.x == e.x && e1.y == e.y
            }
        }),
{
}

/// The specification-level contents of an enemy list.
pub open spec fn enemy_views_of(s: Seq<Enemy>) -> Seq<EnemyView> {
    s.map_values(|e: Enemy| e@)
}

/// The live members of an enemy list, in order.
pub open spec fn live_only(s: Seq<EnemyView>) -> Seq<EnemyView>
    decreases s.len(),
{
    if s.len() == 0 {
        Seq::empty()
    } else {
        let rest = live_only(s.drop_first());
        if s[0].hp > 0 {
            seq![s[0]] + rest
        } else {
            rest
        }
    }
}

/// Some member of the list is the boss.
pub open spec fn has_boss(s: Seq<EnemyView>) -> bool {
    exists|i: int| 0 <= i < s.len() && (#[trigger] s[i]).kind is Boss
}

/// A live member of a list is a member of its live-only projection.
proof fn lemma_live_only_has_member(s: Seq<EnemyView>, i: int)
    requires
        0 <= i < s.len(),
        s[i].hp > 0,
    ensures
        exists|j: int| 0 <= j < live_only(s).len() && #[trigger] live_only(s)[j] == s[i],
    decreases i,
{
    if i == 0 {
        assert(live_only(s)[0] == s[0]);
    } else {
        lemma_live_only_has_member(s.drop_first(), i - 1);
        let j = choose|j: int|
            0 <= j < live_only(s.drop_first()).len() && #[trigger] live_only(s.drop_first())[j]
                == s.drop_first()[i - 1];
        assert(s.drop_first()[i - 1] == s[i]);
        if s[0].hp > 0 {
            assert(live_only(s)[j + 1] == live_only(s.drop_first())[j]);
        } else {
            assert(live_only(s)[j] == live_only(s.drop_first())[j]);
        }
    }
}

/// No step of an enemy's frame changes which variant it is.
proof fn lemma_frame_step_keeps_kind(e: EnemyView, p: PlayerView, lvl: Seq<BoxView>, delta: int)
    ensures
        frame_step(e, p, lvl, delta).0.kind == e.kind,
{
}

/// One roster pass over a list of (live) enemies: each takes its frame
/// step in order, threading the player through.
pub open spec fn roster_fold(s: Seq<EnemyView>, p: PlayerView, lvl: Seq<BoxView>, delta: int) -> (
    Seq<EnemyView>,
    PlayerView,
)
    decreases s.len(),
{
    if s.len() == 0 {
        (Seq::empty(), p)
    } else {
        let (e1, p1) = frame_step(s[0], p, lvl, delta);
        let (rest, p2) = roster_fold(s.drop_first(), p1, lvl, delta);
        (seq![e1] + rest, p2)
    }
}

/// Extent of a standard sprite frame: a 64-pixel tile in half-units.
pub const FRAME_EXTENT: i32 = 128;

/// The sprite table every freshly spawned entity carries: one
/// single-frame looping sprite of the standard frame extent per slot.
pub open spec fn standard_frame_sprites() -> Seq<SpriteView> {
    Seq::new(
        SPRITE_SLOTS as nat,
        |i: int|
            SpriteView {
                frame_count: 1,
                frame_w: FRAME_EXTENT as int,
                frame_h: FRAME_EXTENT as int,
                current_frame: 0,
                accumulated_ms: 0,
                state: AnimationState::Loop,
            },
    )
}

/// The view of a reinforcement specter spawned at the given position.
pub open spec fn spawned_specter_view(gx: int, gy: int) -> EnemyView {
    EnemyView {
        kind: EnemyKind::Specter,
        x: gx,
        y: gy,
        hp: 30,
        atk: 6,
        def: 0,
        texts: Seq::empty(),
        invulnerable: 1000,
        sight: BoxView { x: gx, y: gy, w: 1, h: 1 },
        ai_type: AITypes::MeleeDirect,
        sprites: standard_frame_sprites(),
        animation: (Animations::Walking, Direction::Down),
        direction: Direction::Down,
    }
}

/// The roster that owns the live collection of enemies.
pub struct Enemies {
    pub enemies: Vec<Enemy>,
}

impl Enemies {
    /// Every member's sprite table is complete and well-formed.
    pub open spec fn wf(self) -> bool {
        forall|i: int|
            0 <= i < self.enemies@.len() ==> (#[trigger] self.enemies@[i]).wf()
    }

    /// An empty roster.
    pub fn new() -> (r: Enemies)
        ensures
            r.enemies@.len() == 0,
            r.wf(),
    {
        Enemies { enemies: Vec::new() }
    }

    /// Add an enemy to the roster.
    pub fn push(&mut self, enemy: Enemy)
        requires
            enemy.wf(),
            old(self).wf(),
        ensures
            final (self).enemies@ == old(self).enemies@.push(enemy),
            final (self).wf(),
    {
        self.enemies.push(enemy);
    }

    /// Are any enemies left?
    pub fn islive(&self) -> (r: bool)
        ensures
            r == (self.enemies@.len() > 0),
    {
        self.enemies.len() > 0
    }

    /// One roster tick: dead enemies are dropped before anything acts;
    /// each survivor takes its housekeeping tick and its AI step in
    /// order; a reinforcement requested during the pass is appended
    /// after the pass completes, at a random position.
    pub fn update(&mut self, delta_ms: u64, player: &mut Player, level: &Level)
        requires
            old(self).wf(),
            old(player).wf(),
        ensures
            ({
                let live = live_only(enemy_views_of(old(self).enemies@));
                let (stepped, p2) = roster_fold(live, old(player)@, level@, delta_ms as int);
                &&& final (player)@ == p2
                &&& (enemy_views_of(final (self).enemies@) == stepped || exists|gx: int, gy: int|
                    0 <= gx < SPAWN_RANGE && 0 <= gy < SPAWN_RANGE && enemy_views_of(
                        final (self).enemies@,
                    ) == stepped.push(spawned_specter_view(gx, gy)))
                &&& !has_boss(live) ==> enemy_views_of(final (self).enemies@) == stepped
            }),
            final (self).wf(),
            final (player).wf(),
    {
        let ghost orig = enemy_views_of(self.enemies@);
        let ghost p0 = player@;
        let ghost lvl = level@;
        let ghost delta = delta_ms as int;
        let ghost target = roster_fold(live_only(orig), p0, lvl, delta);
        let mut kept: Vec<Enemy> = Vec::new();
        let mut spawning = false;
        let ghost mut done: int = 0;
        proof {
            assert(orig.skip(0) =~= orig);
            assert(enemy_views_of(kept@) =~= Seq::<EnemyView>::empty());
            assert(enemy_views_of(kept@) + roster_fold(live_only(orig.skip(0)), player@, lvl, delta).0
                =~= roster_fold(live_only(orig.skip(0)), player@, lvl, delta).0);
        }
        while self.enemies.len() > 0
            invariant
                0 <= done <= orig.len(),
                self.enemies@.len() == orig.len() - done,
                enemy_views_of(self.enemies@) == orig.skip(done),
                forall|i: int| 0 <= i < self.enemies@.len() ==> (#[trigger] self.enemies@[i]).wf(),
                forall|i: int| 0 <= i < kept@.len() ==> (#[trigger] kept@[i]).wf(),
                player.wf(),
                lvl == level@,
                delta == delta_ms as int,
                target == roster_fold(live_only(orig), p0, lvl, delta),
                spawning ==> has_boss(live_only(orig)),
                target.0 == enemy_views_of(kept@) + roster_fold(
                    live_only(orig.skip(done)),
                    player@,
                    lvl,
                    delta,
                ).0,
                target.1 == roster_fold(live_only(orig.skip(done)), player@, lvl, delta).1,
            decreases self.enemies@.len(),
        {
            let ghost pre = self.enemies@;
            let mut e = self.enemies.remove(0);
            proof {
                assert(e@ == enemy_views_of(pre)[0]);
                assert(e@ == orig.skip(done)[0]);
                assert(e@ == orig[done]);
                assert forall|k: int|
                    0 <= k < self.enemies@.len() implies #[trigger] enemy_views_of(
                    self.enemies@,
                )[k] == orig.skip(done + 1)[k] by {
                    assert(self.enemies@[k] == pre[k + 1]);
                    assert(enemy_views_of(pre)[k + 1] == orig.skip(done)[k + 1]);
                }
                assert(enemy_views_of(self.enemies@) =~= orig.skip(done + 1));
                assert(orig.skip(done).drop_first() =~= orig.skip(done + 1));
            }
            if e.islive() {
                proof {
                    assert(live_only(orig.skip(done)) == seq![orig[done]] + live_only(
                        orig.skip(done + 1),
                    ));
                    assert((seq![orig[done]] + live_only(orig.skip(done + 1)))[0] == orig[done]);
                    assert((seq![orig[done]] + live_only(orig.skip(done + 1))).drop_first()
                        =~= live_only(orig.skip(done + 1)));
                }
                let ghost pcur = player@;
                e.update(delta_ms, player, level);
                let mut ai = AI::new();
                ai.update(delta_ms, &mut e, player, level);
                if e.spawn() {
                    proof {
                        assert(e@ == frame_step(orig[done], pcur, lvl, delta).0);
                        lemma_frame_step_keeps_kind(orig[done], pcur, lvl, delta);
                        assert(orig[done].kind is Boss);
                        lemma_live_only_has_member(orig, done);
                        let j = choose|j: int|
                            0 <= j < live_only(orig).len() && #[trigger] live_only(orig)[j]
                                == orig[done];
                        assert(live_only(orig)[j].kind is Boss);
                        assert(has_boss(live_only(orig)));
                    }
                    spawning = true;
                }
                let ghost kpre = kept@;
                kept.push(e);
                proof {
                    assert forall|k: int|
                        0 <= k < kept@.len() implies #[trigger] enemy_views_of(kept@)[k]
                        == (enemy_views_of(kpre) + seq![e@])[k] by {
                        if k < kpre.len() {
                            assert(kept@[k] == kpre[k]);
                        } else {
                            assert(kept@[k] == e);
                        }
                    }
                    assert(enemy_views_of(kept@) =~= enemy_views_of(kpre) + seq![e@]);
                    assert(enemy_views_of(kpre) + (seq![e@] + roster_fold(
                        live_only(orig.skip(done + 1)),
                        player@,
                        lvl,
                        delta,
                    ).0) =~= enemy_views_of(kept@) + roster_fold(
                        live_only(orig.skip(done + 1)),
                        player@,
                        lvl,
                        delta,
                    ).0);
                    done = done + 1;
                }
            } else {
                proof {
                    assert(live_only(orig.skip(done)) == live_only(orig.skip(done + 1)));
                    done = done + 1;
                }
            }
        }
        proof {
            assert(orig.skip(orig.len() as int) =~= Seq::<EnemyView>::empty());
            assert(roster_fold(live_only(orig.skip(done)), player@, lvl, delta).0
                =~= Seq::<EnemyView>::empty());
            assert(enemy_views_of(kept@) + Seq::<EnemyView>::empty() =~= enemy_views_of(kept@));
        }
        if spawning {
            let gx = random_below(SPAWN_RANGE);
            let gy = random_below(SPAWN_RANGE);
            let g = Enemy::specter(
                gx as i32,
                gy as i32,
                AITypes::MeleeDirect,
                SpriteSet::uniform(FRAME_EXTENT, FRAME_EXTENT),
            );
            proof {
                assert(g@ =~= spawned_specter_view(gx as int, gy as int));
            }
            let ghost kpre = kept@;
            kept.push(g);
            proof {
                assert forall|k: int|
                    0 <= k < kept@.len() implies #[trigger] enemy_views_of(kept@)[k]
                    == enemy_views_of(kpre).push(spawned_specter_view(gx as int, gy as int))[k] by {
                    if k < kpre.len() {
                        assert(kept@[k] == kpre[k]);
                    } else {
                        assert(kept@[k] == g);
                    }
                }
                assert(enemy_views_of(kept@) =~= enemy_views_of(kpre).push(
                    spawned_specter_view(gx as int, gy as int),
                ));
            }
        }
        self.enemies = kept;
    }
}

} // verus!
