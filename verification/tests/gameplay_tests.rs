use macguffin_quest::atk_box::AtkBox;
use macguffin_quest::enemy::{AITypes, Enemies, Enemy, AI};
use macguffin_quest::entities::{Animations, Direction, SpriteSet};
use macguffin_quest::floating_text::TextContent;
use macguffin_quest::level::{Level, Tile};
use macguffin_quest::main_state::{MainState, PlayerKind, SessionOutcome};
use macguffin_quest::player::{InputState, Player};
use macguffin_quest::timers::CooldownTimer;

fn sprites() -> SpriteSet {
    SpriteSet::uniform(64, 64)
}

fn empty_level() -> Level {
    Level::new(Vec::new())
}

fn idle() -> InputState {
    InputState::default()
}

fn fresh_player() -> Player {
    Player::new(sprites())
}

#[test]
fn player_moves_and_run_doubles_speed() {
    let mut p = fresh_player();
    let mut input = idle();
    input.right = true;
    p.update(&input, 16);
    assert_eq!(p.x, 25); // two and a half world units in half-units
    assert_eq!(p.direction, Direction::Right);
    assert_eq!(p.animation.0, Animations::Walking);
    input.run = true;
    p.update(&input, 16);
    assert_eq!(p.x, 35); // the run modifier doubles the step
    let mut up = idle();
    up.up = true;
    p.update(&up, 16);
    assert_eq!(p.y, 15);
}

#[test]
fn player_priority_cast_over_melee_over_movement() {
    let mut p = fresh_player();
    let mut input = idle();
    input.cast = true;
    input.attack = true;
    input.right = true;
    let mp0 = p.stats.mp;
    p.update(&input, 16);
    // casting wins: an attack box exists, one mp is spent, no movement
    assert!(p.atk_box.is_some());
    assert_eq!(p.stats.mp, mp0 - 1);
    assert_eq!(p.x, 20);
    assert_eq!(p.animation.0, Animations::Cast);
    // without mp, melee wins over movement
    p.stats.mp = 0;
    p.update(&input, 16);
    assert!(p.atk_box.is_some());
    assert_eq!(p.animation.0, Animations::Slash);
    assert_eq!(p.x, 20);
}

#[test]
fn player_idles_without_input_and_dies_at_zero_hp() {
    let mut p = fresh_player();
    p.update(&idle(), 16);
    assert_eq!(p.animation.0, Animations::Stand);
    assert!(p.atk_box.is_none());
    p.stats.hp = 0;
    p.update(&idle(), 16);
    assert_eq!(p.animation, (Animations::Die, Direction::Down));
}

#[test]
fn invulnerability_window_gates_damage() {
    let mut p = fresh_player();
    p.invulnerable = CooldownTimer::new(1000); // the window has long passed
    let hp0 = p.stats.hp;
    // damage at t = 0 lands and restarts the window
    p.take_dmg(5);
    assert_eq!(p.stats.hp, hp0 - 4); // true damage 5 - 1 defense
    assert_eq!(p.invulnerable.elapsed_ms, 0);
    // a second application at t = 100 ms is blocked
    p.invulnerable.advance(100, 250);
    p.take_dmg(5);
    assert_eq!(p.stats.hp, hp0 - 4);
    // but one at t = 260 ms lands again
    p.invulnerable.advance(160, 250);
    p.take_dmg(5);
    assert_eq!(p.stats.hp, hp0 - 8);
}

#[test]
fn blocked_hits_do_not_consume_the_grace_window() {
    let mut p = fresh_player();
    p.invulnerable = CooldownTimer::new(1000);
    p.take_dmg(1); // 1 attack vs 1 defense: fully absorbed
    assert_eq!(p.invulnerable.elapsed_ms, 1000); // not restarted
    assert!(matches!(p.floating_text.last().unwrap().content, TextContent::Blocked));
}

#[test]
fn end_to_end_damage_scenario() {
    // player and blob share a position, hitboxes overlapping
    let mut p = fresh_player();
    p.move_location(100, 100);
    p.stats.atk = 3;
    p.stats.def = 2;
    p.atk_box = Some(AtkBox::new(100, 100, 32, 80, &Direction::Right, 0));
    let mut blob = Enemy::blob(100, 100, AITypes::MeleeDirect, sprites());
    blob.hp = 10;
    blob.atk = 3;
    blob.def = 1;
    let level = empty_level();
    blob.update(0, &mut p, &level);
    // true damage 3 - 1 = 2: hp drops by 2, a "-2" text appears at the
    // blob's position, and its invulnerability window restarts
    assert_eq!(blob.hp, 8);
    let t = blob.floating_text.last().unwrap();
    assert!(matches!(t.content, TextContent::Damage(2)));
    assert_eq!((t.x, t.spawn_y), (100, 100));
    assert_eq!(blob.invulnerable.elapsed_ms, 0);
}

#[test]
fn repeated_contact_respects_the_invulnerability_window() {
    let mut p = fresh_player();
    p.move_location(100, 100);
    p.stats.atk = 3;
    p.stats.def = 2;
    p.atk_box = Some(AtkBox::new(100, 100, 32, 80, &Direction::Right, 0));
    let mut blob = Enemy::blob(100, 100, AITypes::MeleeDirect, sprites());
    blob.hp = 10;
    blob.atk = 3;
    blob.def = 1;
    let level = empty_level();
    blob.update(0, &mut p, &level);
    assert_eq!(blob.hp, 8);
    // struck again 100 ms later: still invulnerable, no further change
    blob.update(100, &mut p, &level);
    assert_eq!(blob.hp, 8);
    // struck again at 260 ms: the window has passed, damage lands
    blob.update(160, &mut p, &level);
    assert_eq!(blob.hp, 6);
}

#[test]
fn sight_gated_enemy_waits_until_the_player_enters_its_box() {
    let mut blob = Enemy::blob(1000, 1000, AITypes::MeleeLineOfSight, sprites());
    let mut p = fresh_player();
    p.move_location(100, 100); // far outside the 200-unit sight box
    let level = empty_level();
    let mut ai = AI::new();
    ai.update(16, &mut blob, &mut p, &level);
    assert_eq!((blob.x, blob.y), (1000, 1000));
    // the player steps into sight: the enemy begins approaching
    p.move_location(950, 1000);
    ai.update(16, &mut blob, &mut p, &level);
    assert_eq!((blob.x, blob.y), (998, 1000));
}

#[test]
fn wall_collision_rejects_the_tentative_move() {
    let mut blob = Enemy::blob(100, 100, AITypes::MeleeDirect, sprites());
    let mut p = fresh_player();
    p.move_location(300, 300); // the chase step would be (102, 102)
    let level = Level::new(vec![Tile::new(102, 102, 64, 64)]);
    blob.chase_player(16, &mut p, &level);
    assert_eq!((blob.x, blob.y), (100, 100));
    // without the wall the same move goes through
    let open = empty_level();
    blob.chase_player(16, &mut p, &open);
    assert_eq!((blob.x, blob.y), (102, 102));
}

#[test]
fn every_variant_rolls_back_at_walls() {
    // specters and the boss respect level geometry just like blobs
    let level = Level::new(vec![Tile::new(102, 102, 64, 64)]);
    let mut p = fresh_player();
    p.move_location(300, 300);
    let mut sp = Enemy::specter(100, 100, AITypes::MeleeDirect, sprites());
    sp.chase_player(16, &mut p, &level);
    assert_eq!((sp.x, sp.y), (100, 100));
    let mut boss = Enemy::boss(100, 100, AITypes::Boss, sprites());
    boss.chase_player(16, &mut p, &level);
    assert_eq!((boss.x, boss.y), (100, 100));
}

#[test]
fn contact_rolls_back_every_variant() {
    // an enemy that lands a contact hit backs off to its old position
    let mut p = fresh_player();
    p.move_location(120, 100);
    p.invulnerable = CooldownTimer::new(1000); // the spawn grace has passed
    let mut boss = Enemy::boss(100, 100, AITypes::MeleeDirect, sprites());
    let hp0 = p.stats.hp;
    boss.chase_player(16, &mut p, &empty_level());
    assert_eq!((boss.x, boss.y), (100, 100));
    assert!(p.stats.hp < hp0);
}

#[test]
fn roster_drops_the_dead_before_they_act() {
    let mut roster = Enemies::new();
    let mut dead = Enemy::blob(0, 0, AITypes::MeleeDirect, sprites());
    dead.hp = 0;
    roster.push(dead);
    roster.push(Enemy::blob(500, 500, AITypes::MeleeDirect, sprites()));
    let mut p = fresh_player();
    let level = empty_level();
    roster.update(16, &mut p, &level);
    assert_eq!(roster.enemies.len(), 1);
    assert!(roster.islive());
}

#[test]
fn boss_reinforcements_appear_inside_the_spawn_range() {
    let mut roster = Enemies::new();
    roster.push(Enemy::boss(4000, 4000, AITypes::Boss, sprites()));
    let mut p = fresh_player();
    let level = empty_level();
    let mut spawned = false;
    for _ in 0..3000 {
        let before = roster.enemies.len();
        roster.update(16, &mut p, &level);
        if roster.enemies.len() > before {
            let g = roster.enemies.last().unwrap();
            assert!(g.x >= 0 && g.x < 1600);
            assert!(g.y >= 0 && g.y < 1600);
            spawned = true;
            break;
        }
    }
    assert!(spawned, "a boss should summon a reinforcement within 3000 ticks");
}

#[test]
fn session_starts_with_the_placement_table() {
    let s = MainState::new(PlayerKind::ElfFighter, empty_level());
    assert_eq!((s.player.x, s.player.y), (300, 300));
    assert_eq!(s.enemies.enemies.len(), 10);
    assert_eq!(s.potions.len(), 2);
    assert!(s.macguffin.is_some());
    assert_eq!((s.macguffin_man.x, s.macguffin_man.y), (500, 700));
}

#[test]
fn session_outcomes() {
    let mut s = MainState::new(PlayerKind::ElfFighter, empty_level());
    assert_eq!(s.update_session(&idle(), 16), SessionOutcome::Continue);
    // delivering the macguffin to the collector wins
    let mut s = MainState::new(PlayerKind::DapperSkeleton, empty_level());
    s.player.macguffin = true;
    s.macguffin = None;
    s.player.move_location(500, 700);
    assert_eq!(s.update_session(&idle(), 16), SessionOutcome::Victory);
    // dying loses
    let mut s = MainState::new(PlayerKind::ElfFighter, empty_level());
    s.player.stats.hp = 0;
    assert_eq!(s.update_session(&idle(), 16), SessionOutcome::Defeat);
}

#[test]
fn potions_heal_to_full_once() {
    let mut s = MainState::new(PlayerKind::ElfFighter, empty_level());
    s.player.stats.hp = 30;
    // stand on the second potion at (500, 500)
    s.player.move_location(500, 500);
    // keep enemies away from the interaction
    s.enemies.enemies.clear();
    let outcome = s.update_session(&idle(), 16);
    assert_eq!(outcome, SessionOutcome::Continue);
    assert_eq!(s.player.stats.hp, s.player.stats.max_hp);
    assert_eq!(s.potions.len(), 1);
}

#[test]
fn macguffin_pickup_wakes_the_boss() {
    let mut s = MainState::new(PlayerKind::ElfFighter, empty_level());
    s.enemies.enemies.clear();
    s.player.move_location(2100, -1300);
    let _ = s.update_session(&idle(), 16);
    assert!(s.player.macguffin);
    assert!(s.macguffin.is_none());
    // the woken boss is on the roster (it may have taken its first step)
    assert!(s.enemies.enemies.iter().any(|e| e.atk == 10 && e.hp == 200));
}

#[test]
fn player_move_into_a_wall_is_rolled_back() {
    let mut s = MainState::new(
        PlayerKind::ElfFighter,
        Level::new(vec![Tile::new(365, 236, 10, 128)]),
    );
    s.enemies.enemies.clear();
    let mut input = idle();
    input.right = true;
    // the tentative step right would land the hitbox in the wall tile
    assert_eq!(s.update_session(&input, 16), SessionOutcome::Continue);
    assert_eq!((s.player.x, s.player.y), (300, 300));
}
