//! The gameplay session: player, enemy roster, level geometry, items
//! and the collector NPC composed into one playable state.
//!
//! Update order within one tick, chosen once and kept consistent: the
//! player moves first and is immediately rolled back if the move lands
//! in level geometry, so everything later in the tick observes the
//! settled position; then item and NPC interactions resolve; then the
//! enemy roster takes its pass; finally the tick's transition message
//! is computed from the resulting state.

use vstd::prelude::*;
use crate::collision::{any_overlap, boxes_overlap, BoxView, CollideEntity};
use crate::enemy::{
    enemy_views_of, has_boss, live_only, roster_fold, spawned_specter_view,
    standard_frame_sprites, AITypes, Enemies, Enemy, EnemyKind, EnemyView, FRAME_EXTENT,
    SPAWN_RANGE,
};
use crate::entities::{Animations, Direction, SpriteSet};
use crate::floating_text::TextContent;
use crate::items::{
    man_hitbox, man_talk_step, man_update_step, potion_box, Macguffin, MacguffinMan, ManView,
    PotionView, Potions,
};
use crate::level::Level;
use crate::player::{
    player_hitbox, player_pick_up_step, player_update_step, InputState, Player, PlayerView,
};
use crate::stats::StatsView;

verus! {

/// Which adventurer the player chose; selects a sprite sheet and
/// nothing else the core can observe.
#[derive(Clone, Copy, Debug, PartialEq, Eq, Structural)]
pub enum PlayerKind {
    ElfFighter,
    DapperSkeleton,
}

/// What a finished session tick asks the state stack to do.
#[derive(Clone, Copy, Debug, PartialEq, Eq, Structural)]
pub enum SessionOutcome {
    /// Keep playing.
    Continue,
    /// The player died: hand over to the game-over state.
    Defeat,
    /// The macguffin reached the collector: hand over to the victory
    /// state.
    Victory,
}

/// The gameplay session.
pub struct MainState {
    pub player: Player,
    pub enemies: Enemies,
    pub level: Level,
    pub macguffin: Option<Macguffin>,
    pub potions: Vec<Potions>,
    pub macguffin_man: MacguffinMan,
    pub chosen: PlayerKind,
}

/// Mathematical view of a session.
#[verifier::ext_equal]
pub ghost struct MainStateView {
    pub player: PlayerView,
    pub enemies: Seq<EnemyView>,
    pub level: Seq<BoxView>,
    pub macguffin: Option<BoxView>,
    pub potions: Seq<PotionView>,
    pub man: ManView,
    pub chosen: PlayerKind,
}

/// The specification-level contents of a potion list.
pub open spec fn potion_views_of(s: Seq<Potions>) -> Seq<PotionView> {
    s.map_values(|p: Potions| p@)
}

impl View for MainState {
    type V = MainStateView;

    open spec fn view(&self) -> MainStateView {
        MainStateView {
            player: self.player@,
            enemies: enemy_views_of(self.enemies.enemies@),
            level: self.level@,
            macguffin: match self.macguffin {
                Some(m) => Some(m@),
                None => None,
            },
            potions: potion_views_of(self.potions@),
            man: self.macguffin_man@,
            chosen: self.chosen,
        }
    }
}

impl MainStateView {
    /// The player and every enemy carry complete sprite tables.
    pub open spec fn wf(self) -> bool {
        &&& self.player.wf()
        &&& forall|i: int| 0 <= i < self.enemies.len() ==> (#[trigger] self.enemies[i]).wf()
    }
}

/// The player's phase: one controller tick, then the speculative-move
/// rollback against level geometry.
pub open spec fn player_phase(s: MainStateView, input: InputState, delta: int) -> MainStateView {
    let p1 = player_update_step(s.player, input, delta);
    let p2 = if any_overlap(s.level, seq![player_hitbox(p1)]) {
        PlayerView { x: s.player.x, y: s.player.y, ..p1 }
    } else {
        p1
    };
    MainStateView { player: p2, ..s }
}

/// One potion's interaction: touching it while below full health heals
/// to full, shows the healed amount, and consumes the potion.
pub open spec fn potion_step(pot: PotionView, p: PlayerView) -> (PotionView, PlayerView) {
    if boxes_overlap(player_hitbox(p), potion_box(pot)) && p.stats.hp < p.stats.max_hp {
        let heal = p.stats.max_hp - p.stats.hp;
        let p1 = player_pick_up_step(p, TextContent::Healed(heal as u32));
        let p2 = PlayerView { stats: StatsView { hp: p1.stats.max_hp, ..p1.stats }, ..p1 };
        (PotionView { used: true, ..pot }, p2)
    } else {
        (pot, p)
    }
}

/// The potions' phase: each potion interacts in order, and consumed
/// potions leave the list.
pub open spec fn potions_pass(pots: Seq<PotionView>, p: PlayerView) -> (Seq<PotionView>, PlayerView)
    decreases pots.len(),
{
    if pots.len() == 0 {
        (Seq::empty(), p)
    } else {
        let (pot1, p1) = potion_step(pots[0], p);
        let (rest, p2) = potions_pass(pots.drop_first(), p1);
        (
            if pot1.used {
                rest
            } else {
                seq![pot1] + rest
            },
            p2,
        )
    }
}

/// The view of the boss woken by the macguffin pickup.
pub open spec fn woken_boss_view() -> EnemyView {
    EnemyView {
        kind: EnemyKind::Boss,
        x: 2000,
        y: 2000,
        hp: 200,
        atk: 10,
        def: 4,
        texts: Seq::empty(),
        invulnerable: 1000,
        sight: BoxView { x: 2000, y: 2000, w: 1, h: 1 },
        ai_type: AITypes::Boss,
        sprites: standard_frame_sprites(),
        animation: (Animations::Walking, Direction::Down),
        direction: Direction::Down,
    }
}

/// The macguffin's phase: touching it claims it, wakes the boss and
/// announces the pickup; a claimed macguffin leaves the world.
pub open spec fn macguffin_phase(s: MainStateView) -> MainStateView {
    let s1 = match s.macguffin {
        Some(mac) => if boxes_overlap(mac, player_hitbox(s.player)) {
            let p1 = PlayerView { macguffin: true, ..s.player };
            let p2 = player_pick_up_step(p1, TextContent::PickedUpMacguffin);
            MainStateView { player: p2, enemies: s.enemies.push(woken_boss_view()), ..s }
        } else {
            s
        },
        None => s,
    };
    if s1.player.macguffin {
        MainStateView { macguffin: None, ..s1 }
    } else {
        s1
    }
}

/// The collector's phase: when touched he comments on the quest, then
/// takes his housekeeping tick.
pub open spec fn man_phase(s: MainStateView, delta: int) -> MainStateView {
    let m1 = if boxes_overlap(player_hitbox(s.player), man_hitbox(s.man)) {
        man_talk_step(
            s.man,
            if s.player.macguffin {
                TextContent::FoundMacguffin
            } else {
                TextContent::BringMacguffin
            },
        )
    } else {
        s.man
    };
    MainStateView { man: man_update_step(m1, delta), ..s }
}

/// Everything of one session tick that precedes the enemy roster's
/// pass, in order: player, potions, macguffin, collector.
pub open spec fn pre_roster_step(s: MainStateView, input: InputState, delta: int) -> MainStateView {
    let s1 = player_phase(s, input, delta);
    let (pots, p) = potions_pass(s1.potions, s1.player);
    let s2 = MainStateView { potions: pots, player: p, ..s1 };
    let s3 = macguffin_phase(s2);
    man_phase(s3, delta)
}

/// The transition a finished tick requests, from the resulting player
/// and collector.
pub open spec fn session_outcome(p: PlayerView, man: ManView) -> SessionOutcome {
    if p.stats.hp <= 0 {
        SessionOutcome::Defeat
    } else if boxes_overlap(player_hitbox(p), man_hitbox(man)) && p.macguffin {
        SessionOutcome::Victory
    } else {
        SessionOutcome::Continue
    }
}

/// The view of a freshly started session over the given level.
pub open spec fn new_session_view(chosen: PlayerKind, lvl: Seq<BoxView>) -> MainStateView {
    MainStateView {
        player: PlayerView {
            x: 300,
            y: 300,
            stats: StatsView {
                lv: 1,
                exp: 0,
                hp: 100,
                max_hp: 100,
                mp: 150,
                max_mp: 150,
                atk: 6,
                def: 1,
                spd: 2,
            },
            sprites: standard_frame_sprites(),
            animation: (Animations::Walking, Direction::Right),
            atk_box: None,
            attacking: false,
            atk_cooldown: 0,
            invulnerable: 0,
            direction: Direction::Right,
            macguffin: false,
            cooldown: 1000,
            texts: Seq::empty(),
            atk_cooldown_enforced: false,
        },
        enemies: initial_enemy_views(),
        level: lvl,
        macguffin: Some(
            BoxView { x: 2100, y: -1300, w: FRAME_EXTENT as int, h: FRAME_EXTENT as int },
        ),
        potions: seq![
            PotionView {
                x: 3600,
                y: 700,
                used: false,
                w: FRAME_EXTENT as int,
                h: FRAME_EXTENT as int,
            },
            PotionView {
                x: 500,
                y: 500,
                used: false,
                w: FRAME_EXTENT as int,
                h: FRAME_EXTENT as int,
            },
        ],
        man: ManView {
            x: 500,
            y: 700,
            hp: 20,
            atk: 6,
            def: 2,
            texts: Seq::empty(),
            cooldown: 1000,
            w: FRAME_EXTENT as int,
            h: FRAME_EXTENT as int,
        },
        chosen: chosen,
    }
}

/// A fresh enemy of the placement table.
pub open spec fn placed_enemy_view(
    kind: EnemyKind,
    x: int,
    y: int,
    hp: int,
    atk: int,
    def: int,
    ai: AITypes,
) -> EnemyView {
    EnemyView {
        kind: kind,
        x: x,
        y: y,
        hp: hp,
        atk: atk,
        def: def,
        texts: Seq::empty(),
        invulnerable: 1000,
        sight: BoxView { x: x, y: y, w: 1, h: 1 },
        ai_type: ai,
        sprites: standard_frame_sprites(),
        animation: (Animations::Walking, Direction::Down),
        direction: Direction::Down,
    }
}

/// The session's enemy-placement table.
pub open spec fn initial_enemy_views() -> Seq<EnemyView> {
    seq![
        placed_enemy_view(EnemyKind::Blob, 1400, 500, 20, 6, 2, AITypes::MeleeDirect),
        placed_enemy_view(EnemyKind::Blob, 1400, 700, 20, 6, 2, AITypes::MeleeDirect),
        placed_enemy_view(EnemyKind::Blob, 1400, 300, 20, 6, 2, AITypes::MeleeDirect),
        placed_enemy_view(EnemyKind::Skeleton, 1900, 600, 40, 6, 2, AITypes::MeleeLineOfSight),
        placed_enemy_view(EnemyKind::Skeleton, 1900, -700, 40, 6, 2, AITypes::MeleeLineOfSight),
        placed_enemy_view(EnemyKind::Skeleton, 2400, -700, 40, 6, 2, AITypes::MeleeLineOfSight),
        placed_enemy_view(EnemyKind::Specter, 1200, 1100, 30, 6, 0, AITypes::MeleeLineOfSight),
        placed_enemy_view(EnemyKind::Specter, 3200, 300, 30, 6, 0, AITypes::MeleeLineOfSight),
        placed_enemy_view(EnemyKind::Specter, 3200, 700, 30, 6, 0, AITypes::MeleeLineOfSight),
        placed_enemy_view(EnemyKind::Specter, 3200, 1100, 30, 6, 0, AITypes::MeleeLineOfSight),
    ]
}

impl MainState {
    pub open spec fn wf(self) -> bool {
        self.player.wf() && self.enemies.wf()
    }

    /// Start a session: the chosen adventurer at the starting position,
    /// the enemy placement table, the quest items, and the level.
    pub fn new(chosen: PlayerKind, level: Level) -> (r: MainState)
        ensures
            r@ == new_session_view(chosen, level@),
            r.wf(),
    {
        let mut player = Player::new(SpriteSet::uniform(FRAME_EXTENT, FRAME_EXTENT));
        player.move_location(300, 300);
        let mut enemies = Enemies::new();
        enemies.push(
            Enemy::blob(1400, 500, AITypes::MeleeDirect, SpriteSet::uniform(FRAME_EXTENT, FRAME_EXTENT)),
        );
        enemies.push(
            Enemy::blob(1400, 700, AITypes::MeleeDirect, SpriteSet::uniform(FRAME_EXTENT, FRAME_EXTENT)),
        );
        enemies.push(
            Enemy::blob(1400, 300, AITypes::MeleeDirect, SpriteSet::uniform(FRAME_EXTENT, FRAME_EXTENT)),
        );
        enemies.push(
            Enemy::skeleton(
                1900,
                600,
                AITypes::MeleeLineOfSight,
                SpriteSet::uniform(FRAME_EXTENT, FRAME_EXTENT),
            ),
        );
        enemies.push(
            Enemy::skeleton(
                1900,
                -700,
                AITypes::MeleeLineOfSight,
                SpriteSet::uniform(FRAME_EXTENT, FRAME_EXTENT),
            ),
        );
        enemies.push(
            Enemy::skeleton(
                2400,
                -700,
                AITypes::MeleeLineOfSight,
                SpriteSet::uniform(FRAME_EXTENT, FRAME_EXTENT),
            ),
        );
        enemies.push(
            Enemy::specter(
                1200,
                1100,
                AITypes::MeleeLineOfSight,
                SpriteSet::uniform(FRAME_EXTENT, FRAME_EXTENT),
            ),
        );
        enemies.push(
            Enemy::specter(
                3200,
                300,
                AITypes::MeleeLineOfSight,
                SpriteSet::uniform(FRAME_EXTENT, FRAME_EXTENT),
            ),
        );
        enemies.push(
            Enemy::specter(
                3200,
                700,
                AITypes::MeleeLineOfSight,
                SpriteSet::uniform(FRAME_EXTENT, FRAME_EXTENT),
            ),
        );
        enemies.push(
            Enemy::specter(
                3200,
                1100,
                AITypes::MeleeLineOfSight,
                SpriteSet::uniform(FRAME_EXTENT, FRAME_EXTENT),
            ),
        );
        let macguffin = Some(Macguffin::new(2100, -1300, FRAME_EXTENT, FRAME_EXTENT));
        let mut potions: Vec<Potions> = Vec::new();
        potions.push(Potions::new(3600, 700, FRAME_EXTENT, FRAME_EXTENT));
        potions.push(Potions::new(500, 500, FRAME_EXTENT, FRAME_EXTENT));
        let macguffin_man = MacguffinMan::new(500, 700, FRAME_EXTENT, FRAME_EXTENT);
        let r = MainState { player, enemies, level, macguffin, potions, macguffin_man, chosen };
        proof {
            assert(r@.player =~~= new_session_view(chosen, r.level@).player);
            assert(r@.enemies =~~= initial_enemy_views());
            assert(r@.potions =~= new_session_view(chosen, r.level@).potions);
            assert(r@ =~~= new_session_view(chosen, r.level@));
        }
        r
    }

    /// One session tick: the pre-roster phases, the roster pass, and
    /// the tick's transition decision.
    #[verifier::rlimit(80)]
    pub fn update_session(&mut self, input: &InputState, delta_ms: u64) -> (r: SessionOutcome)
        requires
            old(self).wf(),
        ensures
            session_update_rel(old(self)@, final (self)@, *input, delta_ms as int, r),
            final (self).wf(),
    {
        let ghost s0 = self@;
        self.run_player_phase(input, delta_ms);
        let ghost s1 = self@;
        self.run_potions();
        proof {
            assert(self@ =~= (MainStateView {
                potions: potions_pass(s1.potions, s1.player).0,
                player: potions_pass(s1.potions, s1.player).1,
                ..s1
            }));
        }
        self.run_macguffin();
        self.run_man(delta_ms);
        proof {
            assert(self@ =~= pre_roster_step(s0, *input, delta_ms as int));
        }
        self.enemies.update(delta_ms, &mut self.player, &self.level);
        if self.player.stats.hp == 0 {
            SessionOutcome::Defeat
        } else {
            let phb4 = self.player.get_hitbox();
            let manhb2 = self.macguffin_man.get_hitbox();
            if phb4.overlaps(&manhb2) && self.player.macguffin {
                SessionOutcome::Victory
            } else {
                SessionOutcome::Continue
            }
        }
    }

    /// The player's phase: controller tick, then the rollback against
    /// level geometry.
    fn run_player_phase(&mut self, input: &InputState, delta_ms: u64)
        requires
            old(self).wf(),
        ensures
            final (self)@ == player_phase(old(self)@, *input, delta_ms as int),
            final (self).wf(),
    {
        let px = self.player.x;
        let py = self.player.y;
        self.player.update(input, delta_ms);
        let phb = self.player.get_hitbox();
        if self.level.collides_with_box(&phb) {
            self.player.move_location(px, py);
        }
        proof {
            assert(self@ =~= player_phase(old(self)@, *input, delta_ms as int));
        }
    }

    /// The macguffin's phase: claim on touch, wake the boss, announce;
    /// a claimed macguffin leaves the world.
    fn run_macguffin(&mut self)
        requires
            old(self).wf(),
        ensures
            final (self)@ == macguffin_phase(old(self)@),
            final (self).wf(),
    {
        let ghost s2 = self@;
        if let Some(mac) = self.macguffin {
            let mhb = mac.get_hitbox();
            let phb2 = self.player.get_hitbox();
            if mhb.overlaps(&phb2) {
                self.player.macguffin = true;
                self.enemies.push(
                    Enemy::boss(
                        2000,
                        2000,
                        AITypes::Boss,
                        SpriteSet::uniform(FRAME_EXTENT, FRAME_EXTENT),
                    ),
                );
                proof {
                    assert(enemy_views_of(self.enemies.enemies@) =~~= s2.enemies.push(
                        woken_boss_view(),
                    ));
                }
                self.player.pick_up(TextContent::PickedUpMacguffin);
            }
        }
        if self.player.macguffin {
            self.macguffin = None;
        }
        proof {
            assert(self@ =~~= macguffin_phase(s2));
        }
    }

    /// The collector's phase: a line when touched, then his
    /// housekeeping tick.
    fn run_man(&mut self, delta_ms: u64)
        requires
            old(self).wf(),
        ensures
            final (self)@ == man_phase(old(self)@, delta_ms as int),
            final (self).wf(),
    {
        let ghost s3 = self@;
        let phb3 = self.player.get_hitbox();
        let manhb = self.macguffin_man.get_hitbox();
        if phb3.overlaps(&manhb) {
            if self.player.macguffin {
                self.macguffin_man.talk(TextContent::FoundMacguffin);
            } else {
                self.macguffin_man.talk(TextContent::BringMacguffin);
            }
        }
        self.macguffin_man.update(delta_ms);
        proof {
            assert(self@ =~= man_phase(s3, delta_ms as int));
        }
    }

    /// The potions' phase: interact in placement order, dropping the
    /// consumed ones.
    fn run_potions(&mut self)
        requires
            old(self).wf(),
        ensures
            ({
                let (pots, p) = potions_pass(old(self)@.potions, old(self)@.player);
                final (self)@ == (MainStateView { potions: pots, player: p, ..old(self)@ })
            }),
            final (self).wf(),
    {
        let ghost orig = potion_views_of(self.potions@);
        let ghost p0 = self.player@;
        let ghost target = potions_pass(orig, p0);
        let mut kept: Vec<Potions> = Vec::new();
        let ghost mut done: int = 0;
        proof {
            assert(orig.skip(0) =~= orig);
            assert(potion_views_of(kept@) =~= Seq::<PotionView>::empty());
            assert(potion_views_of(kept@) + potions_pass(orig.skip(0), self.player@).0
                =~= potions_pass(orig.skip(0), self.player@).0);
        }
        while self.potions.len() > 0
            invariant
                0 <= done <= orig.len(),
                orig == potion_views_of(old(self).potions@),
                p0 == old(self).player@,
                self.potions@.len() == orig.len() - done,
                potion_views_of(self.potions@) == orig.skip(done),
                self.player.wf(),
                self.enemies == old(self).enemies,
                self.level == old(self).level,
                self.macguffin == old(self).macguffin,
                self.macguffin_man == old(self).macguffin_man,
                self.chosen == old(self).chosen,
                old(self).enemies.wf(),
                target == potions_pass(orig, p0),
                target.0 == potion_views_of(kept@) + potions_pass(orig.skip(done), self.player@).0,
                target.1 == potions_pass(orig.skip(done), self.player@).1,
            decreases self.potions@.len(),
        {
            let ghost pre = self.potions@;
            let mut pot = self.potions.remove(0);
            proof {
                assert(pot@ == potion_views_of(pre)[0]);
                assert(pot@ == orig.skip(done)[0]);
                assert(pot@ == orig[done]);
                assert forall|k: int|
                    0 <= k < self.potions@.len() implies #[trigger] potion_views_of(
                    self.potions@,
                )[k] == orig.skip(done + 1)[k] by {
                    assert(self.potions@[k] == pre[k + 1]);
                    assert(potion_views_of(pre)[k + 1] == orig.skip(done)[k + 1]);
                }
                assert(potion_views_of(self.potions@) =~= orig.skip(done + 1));
                assert(orig.skip(done).drop_first() =~= orig.skip(done + 1));
            }
            let ghost pcur = self.player@;
            let phb = self.player.get_hitbox();
            let pothb = pot.get_hitbox();
            if phb.overlaps(&pothb) && self.player.stats.hp < self.player.stats.max_hp {
                let heal = self.player.stats.max_hp - self.player.stats.hp;
                self.player.pick_up(TextContent::Healed(heal));
                self.player.stats.hp = self.player.stats.max_hp;
                pot.used = true;
            }
            proof {
                assert(pot@ =~= potion_step(orig[done], pcur).0);
                assert(self.player@ =~= potion_step(orig[done], pcur).1);
            }
            if !pot.used {
                let ghost kpre = kept@;
                kept.push(pot);
                proof {
                    assert forall|k: int|
                        0 <= k < kept@.len() implies #[trigger] potion_views_of(kept@)[k]
                        == (potion_views_of(kpre) + seq![pot@])[k] by {
                        if k < kpre.len() {
                            assert(kept@[k] == kpre[k]);
                        } else {
                            assert(kept@[k] == pot);
                        }
                    }
                    assert(potion_views_of(kept@) =~= potion_views_of(kpre) + seq![pot@]);
                    assert(potion_views_of(kpre) + (seq![pot@] + potions_pass(
                        orig.skip(done + 1),
                        self.player@,
                    ).0) =~= potion_views_of(kept@) + potions_pass(
                        orig.skip(done + 1),
                        self.player@,
                    ).0);
                }
            }
            proof {
                done = done + 1;
            }
        }
        proof {
            assert(orig.skip(orig.len() as int) =~= Seq::<PotionView>::empty());
            assert(potion_views_of(kept@) + Seq::<PotionView>::empty() =~= potion_views_of(kept@));
        }
        self.potions = kept;
        proof {
            assert(potion_views_of(self.potions@) =~= target.0);
            assert(self.player@ =~= target.1);
            assert(self@ =~~= (MainStateView { potions: target.0, player: target.1, ..old(self)@ }));
        }
    }
}

/// The relation one session tick establishes between the old and the
/// new session, the inputs, and the requested outcome: the pre-roster
/// phases are deterministic, the roster pass may additionally append
/// one randomly placed reinforcement, and the outcome is computed from
/// the resulting player and collector.
pub open spec fn session_update_rel(
    s0: MainStateView,
    fin: MainStateView,
    input: InputState,
    delta: int,
    r: SessionOutcome,
) -> bool {
    let s1 = pre_roster_step(s0, input, delta);
    let live = live_only(s1.enemies);
    let (stepped, p2) = roster_fold(live, s1.player, s1.level, delta);
    &&& fin.player == p2
    &&& fin.level == s1.level
    &&& fin.macguffin == s1.macguffin
    &&& fin.potions == s1.potions
    &&& fin.man == s1.man
    &&& fin.chosen == s1.chosen
    &&& (fin.enemies == stepped || exists|gx: int, gy: int|
        0 <= gx < SPAWN_RANGE && 0 <= gy < SPAWN_RANGE && fin.enemies == stepped.push(
            spawned_specter_view(gx, gy),
        ))
    &&& !has_boss(live) ==> fin.enemies == stepped
    &&& r == session_outcome(p2, s1.man)
}

} // verus!
