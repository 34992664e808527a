use macguffin_quest::atk_box::AtkBox;
use macguffin_quest::collision::AxisAlignedBox;
use macguffin_quest::entities::Direction;
use macguffin_quest::floating_text::{FloatingText, TextColor, TextContent};
use macguffin_quest::sprites::{AnimatedBuilder, AnimatedSprite, AnimationState};
use macguffin_quest::stats::Stats;
use macguffin_quest::timers::{CooldownTimer, CountDownTimer};

#[test]
fn count_down_timer_drains_and_clamps() {
    let mut t = CountDownTimer::new(100);
    assert!(t.has_elapsed());
    assert_eq!(t.remaining(), 100);
    assert_eq!(t.update(30), 70);
    assert_eq!(t.update(100), 0);
    assert!(!t.has_elapsed());
    t.set(50);
    assert_eq!(t.remaining(), 50);
}

#[test]
fn cooldown_timer_counts_up_only_below_threshold() {
    let mut t = CooldownTimer::new(0);
    assert!(t.active(250));
    t.advance(100, 250);
    assert_eq!(t.elapsed_ms, 100);
    t.advance(1000, 250);
    assert_eq!(t.elapsed_ms, 1100);
    // past the threshold the clock stops accumulating
    t.advance(500, 250);
    assert_eq!(t.elapsed_ms, 1100);
    assert!(!t.active(250));
    t.trigger();
    assert_eq!(t.elapsed_ms, 0);
}

#[test]
fn two_kills_trigger_exactly_one_level_up() {
    let mut s = Stats::new(1, 0, 50, 20, 6, 2, 2);
    s.check_for_level_up(5);
    assert_eq!(s.lv, 1);
    assert_eq!(s.exp, 5);
    s.check_for_level_up(5);
    assert_eq!(s.lv, 2);
    assert_eq!(s.exp, 0);
    // the third kill accumulates fresh experience from zero
    s.check_for_level_up(5);
    assert_eq!(s.lv, 2);
    assert_eq!(s.exp, 5);
}

#[test]
fn level_up_applies_the_bonus_table_and_refills_mp() {
    let mut s = Stats::new(1, 0, 50, 20, 6, 2, 2);
    s.mp = 3;
    s.check_for_level_up(10);
    // reaching level 2: +1 atk, +10 hp and max hp, mp refilled
    assert_eq!(s.lv, 2);
    assert_eq!(s.atk, 7);
    assert_eq!(s.hp, 60);
    assert_eq!(s.max_hp, 60);
    assert_eq!(s.mp, 20);
    assert_eq!(s.max_mp, 20);
    // reaching level 3 also raises max mp
    s.check_for_level_up(10);
    assert_eq!(s.lv, 3);
    assert_eq!(s.atk, 8);
    assert_eq!(s.max_mp, 40);
    assert_eq!(s.mp, 40);
}

#[test]
fn animated_builder_slices_frames_that_fit() {
    let b = AnimatedBuilder::new(512, 512);
    let clip = AxisAlignedBox::new(64, 0, 64, 64);
    let s = b.create_animated(&clip, 8).expect("the strip fits");
    assert_eq!(s.frame_count, 7); // only seven 64-wide frames fit after x = 64
    assert_eq!(s.frame_w, 64);
    assert_eq!(s.frame_h, 64);
    assert_eq!(s.state, AnimationState::Loop);
    let s = b.create_animated(&AxisAlignedBox::new(0, 0, 64, 64), 3).expect("fits");
    assert_eq!(s.frame_count, 3); // capped by the requested frame count
}

#[test]
fn animated_builder_rejects_clips_outside_the_sheet() {
    let b = AnimatedBuilder::new(128, 128);
    assert!(b.create_animated(&AxisAlignedBox::new(0, 100, 64, 64), 1).is_err());
    assert!(b.create_animated(&AxisAlignedBox::new(-5, 0, 64, 64), 1).is_err());
    assert!(b.create_animated(&AxisAlignedBox::new(0, 0, 200, 64), 1).is_err());
}

#[test]
fn animate_advances_wraps_and_holds() {
    let b = AnimatedBuilder::new(192, 64);
    let mut looped = b.create_animated(&AxisAlignedBox::new(0, 0, 64, 64), 3).unwrap();
    assert_eq!(looped.current_frame, 0);
    looped.animate(250);
    assert_eq!(looped.current_frame, 1);
    looped.animate(250);
    looped.animate(250);
    assert_eq!(looped.current_frame, 0); // wrapped
    let mut once = b.create_animated_once(&AxisAlignedBox::new(0, 0, 64, 64), 3).unwrap();
    assert_eq!(once.state, AnimationState::Once);
    once.animate(250);
    once.animate(250);
    once.animate(250);
    assert_eq!(once.current_frame, 2); // holds the last frame
    let dim = once.dimensions().unwrap();
    assert_eq!((dim.w, dim.h), (64, 64));
}

#[test]
fn paused_sprites_do_not_animate() {
    let mut s = AnimatedSprite::new(4, 64, 64);
    s.state = AnimationState::Paused(10);
    s.animate(1000);
    assert_eq!(s.current_frame, 0);
    s.once_animation();
    assert_eq!(s.accumulated_ms, 10);
    assert_eq!(s.state, AnimationState::Once);
}

#[test]
fn atk_box_offsets_and_swaps_by_facing() {
    // facing right: offset forward, centered on the pushed point
    let r = AtkBox::new(100, 100, 32, 80, &Direction::Right, 40);
    assert_eq!((r.x, r.y), (140 - 16, 100 - 40));
    assert_eq!((r.hitbox.w, r.hitbox.h), (32, 80));
    // facing up: width and height swap and the offset goes up
    let u = AtkBox::new(100, 100, 32, 80, &Direction::Up, 40);
    assert_eq!((u.hitbox.w, u.hitbox.h), (80, 32));
    assert_eq!((u.x, u.y), (100 - 40, 60 - 16));
    let d = AtkBox::new(100, 100, 32, 80, &Direction::Down, 40);
    assert_eq!((d.x, d.y), (100 - 40, 140 - 16));
    let l = AtkBox::new(100, 100, 32, 80, &Direction::Left, 40);
    assert_eq!((l.x, l.y), (60 - 16, 100 - 40));
}

#[test]
fn floating_text_drifts_up_and_expires() {
    let mut t = FloatingText::new(10, 100, TextContent::Blocked, TextColor::Blue);
    assert!(t.live());
    t.update(400);
    let (x, y) = t.position();
    assert_eq!(x, 10);
    assert_eq!(y, 100 - 20); // 400 ms at 50 half-units per second
    assert!(t.live());
    t.update(600);
    assert!(!t.live());
}

#[test]
fn timers_saturate_instead_of_overflowing() {
    let mut t = CooldownTimer::new(10);
    t.advance(u64::MAX, 250);
    assert_eq!(t.elapsed_ms, u64::MAX);
    let mut d = CountDownTimer::new(5);
    assert_eq!(d.update(u64::MAX), 0);
}
