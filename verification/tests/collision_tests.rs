use macguffin_quest::collision::{boxes_collide, collision, AxisAlignedBox, CollideEntity};
use macguffin_quest::level::{Level, Tile};

#[test]
fn edge_touching_boxes_do_not_collide() {
    let a = AxisAlignedBox::new(0, 0, 10, 10);
    let b = AxisAlignedBox::new(10, 0, 10, 10);
    assert!(!a.overlaps(&b));
    assert!(!b.overlaps(&a));
}

#[test]
fn overlapping_boxes_collide_symmetrically() {
    let a = AxisAlignedBox::new(0, 0, 10, 10);
    let b = AxisAlignedBox::new(9, 9, 10, 10);
    assert!(a.overlaps(&b));
    assert!(b.overlaps(&a));
    let c = AxisAlignedBox::new(-5, -5, 3, 3);
    assert!(!a.overlaps(&c));
    assert!(!c.overlaps(&a));
}

#[test]
fn list_collision_matches_pairwise_overlap() {
    let va = vec![AxisAlignedBox::new(0, 0, 10, 10), AxisAlignedBox::new(100, 100, 10, 10)];
    let vb = vec![AxisAlignedBox::new(50, 50, 10, 10), AxisAlignedBox::new(105, 105, 10, 10)];
    assert!(boxes_collide(&va, &vb));
    assert!(boxes_collide(&vb, &va));
    let vc = vec![AxisAlignedBox::new(500, 500, 10, 10)];
    assert!(!boxes_collide(&va, &vc));
}

#[test]
fn level_collides_per_tile_not_per_enclosing_box() {
    // two tiles far apart; the gap is inside the enclosing box
    let level = Level::new(vec![Tile::new(0, 0, 10, 10), Tile::new(100, 0, 10, 10)]);
    let gap_probe = AxisAlignedBox::new(50, 0, 10, 10);
    // no individual tile overlaps the probe...
    assert!(!level.collides_with_box(&gap_probe));
    // ...even though the single enclosing box does
    assert!(level.get_hitbox().overlaps(&gap_probe));
    // and a probe on an actual tile does collide
    let tile_probe = AxisAlignedBox::new(105, 5, 10, 10);
    assert!(level.collides_with_box(&tile_probe));
}

#[test]
fn generic_collision_queries_sub_hitboxes() {
    let level = Level::new(vec![Tile::new(0, 0, 10, 10), Tile::new(100, 0, 10, 10)]);
    let other = Level::new(vec![Tile::new(104, 4, 2, 2)]);
    assert!(collision(&level, &other));
    assert!(collision(&other, &level));
    let far = Level::new(vec![Tile::new(300, 300, 5, 5)]);
    assert!(!collision(&level, &far));
}

#[test]
fn combine_with_is_the_bounding_union() {
    let a = AxisAlignedBox::new(0, 0, 10, 10);
    let b = AxisAlignedBox::new(20, -5, 10, 10);
    let u = a.combine_with(&b);
    assert_eq!(u.x, 0);
    assert_eq!(u.y, -5);
    assert_eq!(u.w, 30);
    assert_eq!(u.h, 15);
}

#[test]
fn extreme_extents_do_not_overflow_the_overlap_test() {
    let a = AxisAlignedBox::new(i32::MIN, i32::MIN, i32::MAX, i32::MAX);
    let b = AxisAlignedBox::new(0, 0, i32::MAX, i32::MAX);
    // a ends at -1 on both axes, so the two do not strictly overlap
    assert!(!a.overlaps(&b));
    let c = AxisAlignedBox::new(-100, -100, i32::MAX, i32::MAX);
    assert!(c.overlaps(&b));
}

#[test]
fn empty_level_collides_with_nothing() {
    let level = Level::new(Vec::new());
    let probe = AxisAlignedBox::new(0, 0, 10, 10);
    assert!(!level.collides_with_box(&probe));
    assert_eq!(level.tile_count(), 0);
}
