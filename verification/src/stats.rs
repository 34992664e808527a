//! Player resources and leveling.
//!
//! Stat points are stored in half-points, so bonuses that land between
//! whole points stay integral; experience and mp are whole units.
//! Experience accrues in fixed awards per kill; reaching the threshold
//! raises the level once, applies the per-level bonus table, refills mp
//! and resets experience to zero.

use vstd::prelude::*;
use crate::arith::{clip_u32, u32_add_clamped};

verus! {

/// Experience needed to level up.
pub const EXP_THRESHOLD: u32 = 10;

/// Experience granted per kill.
pub const EXP_PER_KILL: u32 = 5;

/// Player statistics.
#[derive(Clone, Copy, Debug, PartialEq, Eq, Structural)]
pub struct Stats {
    pub lv: u32,
    pub exp: u32,
    pub hp: u32,
    pub max_hp: u32,
    pub mp: u32,
    pub max_mp: u32,
    pub atk: u32,
    pub def: u32,
    pub spd: u32,
}

/// Mathematical view of a stat block.
#[verifier::ext_equal]
pub ghost struct StatsView {
    pub lv: int,
    pub exp: int,
    pub hp: int,
    pub max_hp: int,
    pub mp: int,
    pub max_mp: int,
    pub atk: int,
    pub def: int,
    pub spd: int,
}

impl View for Stats {
    type V = StatsView;

    open spec fn view(&self) -> StatsView {
        StatsView {
            lv: self.lv as int,
            exp: self.exp as int,
            hp: self.hp as int,
            max_hp: self.max_hp as int,
            mp: self.mp as int,
            max_mp: self.max_mp as int,
            atk: self.atk as int,
            def: self.def as int,
            spd: self.spd as int,
        }
    }
}

/// Per-level bonus table: (atk, hp, def, mp) increments applied on
/// reaching the given level.
pub open spec fn level_bonus(lv: int) -> (int, int, int, int) {
    if lv == 2 {
        (1, 10, 0, 0)
    } else if lv == 3 {
        (1, 10, 0, 20)
    } else if lv == 4 {
        (1, 10, 1, 0)
    } else if lv == 5 {
        (2, 10, 0, 20)
    } else if lv == 6 {
        (1, 10, 0, 20)
    } else if lv == 7 {
        (2, 10, 1, 0)
    } else if lv == 8 {
        (1, 10, 0, 20)
    } else if lv == 9 {
        (2, 10, 0, 20)
    } else if lv == 10 {
        (2, 10, 2, 0)
    } else {
        (0, 10, 0, 0)
    }
}

/// Applying the bonus of the current level, then refilling mp to its
/// (possibly raised) maximum.
pub open spec fn level_up_step(s: StatsView) -> StatsView {
    let (atk_b, hp_b, def_b, mp_b) = level_bonus(s.lv);
    let max_mp2 = clip_u32(s.max_mp + mp_b);
    StatsView {
        atk: clip_u32(s.atk + atk_b),
        hp: clip_u32(s.hp + hp_b),
        max_hp: clip_u32(s.max_hp + hp_b),
        def: clip_u32(s.def + def_b),
        max_mp: max_mp2,
        mp: max_mp2,
        ..s
    }
}

/// Awarding experience: accumulate the gain; at the threshold the level
/// rises by one, the bonus table for the new level applies, and
/// experience resets to zero.
pub open spec fn award_exp_step(s: StatsView, gain: int) -> StatsView {
    let gained = clip_u32(s.exp + gain);
    if gained >= EXP_THRESHOLD {
        let raised = StatsView { lv: clip_u32(s.lv + 1), ..s };
        StatsView { exp: 0, ..level_up_step(raised) }
    } else {
        StatsView { exp: gained, ..s }
    }
}

impl Stats {
    /// A fresh stat block: maxima start at the given hp and mp.
    pub fn new(lv: u32, exp: u32, hp: u32, mp: u32, atk: u32, def: u32, spd: u32) -> (r: Stats)
        ensures
            r@ == (StatsView {
                lv: lv as int,
                exp: exp as int,
                hp: hp as int,
                max_hp: hp as int,
                mp: mp as int,
                max_mp: mp as int,
                atk: atk as int,
                def: def as int,
                spd: spd as int,
            }),
    {
        Stats { lv, exp, hp, max_hp: hp, mp, max_mp: mp, atk, def, spd }
    }

    /// Accrue experience and resolve at most one level-up.
    pub fn check_for_level_up(&mut self, gain: u32)
        ensures
            final (self)@ == award_exp_step(old(self)@, gain as int),
    {
        self.exp = u32_add_clamped(self.exp, gain);
        if self.exp >= EXP_THRESHOLD {
            self.lv = u32_add_clamped(self.lv, 1);
            self.level_up();
            self.exp = 0;
        }
    }

    /// Apply the bonus table for the current level and refill mp.
    pub fn level_up(&mut self)
        ensures
            final (self)@ == level_up_step(old(self)@),
    {
        if self.lv == 2 {
            self.atk = u32_add_clamped(self.atk, 1);
            self.hp = u32_add_clamped(self.hp, 10);
            self.max_hp = u32_add_clamped(self.max_hp, 10);
        } else if self.lv == 3 {
            self.atk = u32_add_clamped(self.atk, 1);
            self.hp = u32_add_clamped(self.hp, 10);
            self.max_hp = u32_add_clamped(self.max_hp, 10);
            self.max_mp = u32_add_clamped(self.max_mp, 20);
        } else if self.lv == 4 {
            self.atk = u32_add_clamped(self.atk, 1);
            self.hp = u32_add_clamped(self.hp, 10);
            self.max_hp = u32_add_clamped(self.max_hp, 10);
            self.def = u32_add_clamped(self.def, 1);
        } else if self.lv == 5 {
            self.atk = u32_add_clamped(self.atk, 2);
            self.hp = u32_add_clamped(self.hp, 10);
            self.max_hp = u32_add_clamped(self.max_hp, 10);
            self.max_mp = u32_add_clamped(self.max_mp, 20);
        } else if self.lv == 6 {
            self.atk = u32_add_clamped(self.atk, 1);
            self.hp = u32_add_clamped(self.hp, 10);
            self.max_hp = u32_add_clamped(self.max_hp, 10);
            self.max_mp = u32_add_clamped(self.max_mp, 20);
        } else if self.lv == 7 {
            self.atk = u32_add_clamped(self.atk, 2);
            self.hp = u32_add_clamped(self.hp, 10);
            self.max_hp = u32_add_clamped(self.max_hp, 10);
            self.def = u32_add_clamped(self.def, 1);
        } else if self.lv == 8 {
            self.atk = u32_add_clamped(self.atk, 1);
            self.hp = u32_add_clamped(self.hp, 10);
            self.max_hp = u32_add_clamped(self.max_hp, 10);
            self.max_mp = u32_add_clamped(self.max_mp, 20);
        } else if self.lv == 9 {
            self.atk = u32_add_clamped(self.atk, 2);
            self.hp = u32_add_clamped(self.hp, 10);
            self.max_hp = u32_add_clamped(self.max_hp, 10);
            self.max_mp = u32_add_clamped(self.max_mp, 20);
        } else if self.lv == 10 {
            self.atk = u32_add_clamped(self.atk, 2);
            self.hp = u32_add_clamped(self.hp, 10);
            self.max_hp = u32_add_clamped(self.max_hp, 10);
            self.def = u32_add_clamped(self.def, 2);
        } else {
            self.hp = u32_add_clamped(self.hp, 10);
            self.max_hp = u32_add_clamped(self.max_hp, 10);
        }
        self.mp = self.max_mp;
    }
}

/// Leveling law: from zero experience, two awards of five experience
/// trigger exactly one level-up and reset experience to zero, and a
/// third such award accrues fresh experience without another level-up.
pub proof fn lemma_two_kills_one_level_up(s: StatsView)
    requires
        s.exp == 0,
        0 <= s.lv < u32::MAX,
    ensures
        ({
            let s1 = award_exp_step(s, EXP_PER_KILL as int);
            let s2 = award_exp_step(s1, EXP_PER_KILL as int);
            let s3 = award_exp_step(s2, EXP_PER_KILL as int);
            &&& s1.lv == s.lv && s1.exp == EXP_PER_KILL
            &&& s2.lv == s.lv + 1 && s2.exp == 0
            &&& s3.lv == s2.lv && s3.exp == EXP_PER_KILL
        }),
{
}

} // verus!
