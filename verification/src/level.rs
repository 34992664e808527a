//! Level geometry: an immutable-after-construction composite of tiles,
//! each with its own world-space hitbox.  Collision against a level
//! tests every tile's box, never one enclosing box.

use vstd::prelude::*;
use crate::collision::{
    any_overlap, box_union, boxes_overlap, views_of, AxisAlignedBox, BoxView, CollideEntity,
};

verus! {

/// One tile of level geometry: a box of world space.
#[derive(Clone, Copy, Debug, PartialEq, Eq, Structural)]
pub struct Tile {
    pub x: i32,
    pub y: i32,
    pub w: i32,
    pub h: i32,
}

impl View for Tile {
    type V = BoxView;

    open spec fn view(&self) -> BoxView {
        BoxView { x: self.x as int, y: self.y as int, w: self.w as int, h: self.h as int }
    }
}

impl Tile {
    pub fn new(x: i32, y: i32, w: i32, h: i32) -> (r: Tile)
        requires
            w >= 0,
            h >= 0,
        ensures
            r@ == (BoxView { x: x as int, y: y as int, w: w as int, h: h as int }),
    {
        Tile { x, y, w, h }
    }

    pub fn get_hitbox(&self) -> (r: AxisAlignedBox)
        ensures
            r@ == self@,
    {
        AxisAlignedBox { x: self.x, y: self.y, w: self.w, h: self.h }
    }
}

/// The specification-level boxes of a tile list.
pub open spec fn tile_views_of(s: Seq<Tile>) -> Seq<BoxView> {
    s.map_values(|t: Tile| t@)
}

/// The composite level.
#[derive(Debug)]
pub struct Level {
    pub tiles: Vec<Tile>,
}

impl View for Level {
    type V = Seq<BoxView>;

    open spec fn view(&self) -> Seq<BoxView> {
        tile_views_of(self.tiles@)
    }
}

/// Enclosing box of a list of boxes: the fold of the bounding union,
/// and the zero box for an empty list.
pub open spec fn enclosing_box(s: Seq<BoxView>) -> BoxView
    decreases s.len(),
{
    if s.len() == 0 {
        BoxView { x: 0, y: 0, w: 0, h: 0 }
    } else if s.len() == 1 {
        s[0]
    } else {
        box_union(enclosing_box(s.drop_last()), s.last())
    }
}

impl Level {
    pub fn new(tiles: Vec<Tile>) -> (r: Level)
        ensures
            r@ == tile_views_of(tiles@),
    {
        Level { tiles }
    }

    /// How many tiles make up the level.
    pub fn tile_count(&self) -> (r: usize)
        ensures
            r == self@.len(),
    {
        self.tiles.len()
    }

    /// Copy of the level geometry (levels are immutable after
    /// construction, so states hand copies of one template around).
    pub fn duplicate(&self) -> (r: Level)
        ensures
            r@ == self@,
    {
        let mut tiles: Vec<Tile> = Vec::new();
        let mut i: usize = 0;
        while i < self.tiles.len()
            invariant
                i <= self.tiles@.len(),
                tiles@ == self.tiles@.take(i as int),
            decreases self.tiles@.len() - i,
        {
            tiles.push(self.tiles[i]);
            proof {
                assert(tiles@ =~= self.tiles@.take(i as int + 1));
            }
            i += 1;
        }
        proof {
            assert(self.tiles@.take(self.tiles@.len() as int) =~= self.tiles@);
        }
        let r = Level { tiles };
        proof {
            assert(r@ =~= self@);
        }
        r
    }

    /// Does any tile of the level strictly overlap the given box?
    pub fn collides_with_box(&self, b: &AxisAlignedBox) -> (r: bool)
        ensures
            r == any_overlap(self@, seq![b@]),
    {
        let mut i: usize = 0;
        while i < self.tiles.len()
            invariant
                i <= self.tiles@.len(),
                forall|p: int| 0 <= p < i ==> !boxes_overlap(self@[p], b@),
            decreases self.tiles@.len() - i,
        {
            let hb = self.tiles[i].get_hitbox();
            if hb.overlaps(b) {
                proof {
                    assert(boxes_overlap(self@[i as int], seq![b@][0]));
                }
                return true;
            }
            i += 1;
        }
        proof {
            if any_overlap(self@, seq![b@]) {
                let (p, q) = choose|p: int, q: int|
                    0 <= p < self@.len() && 0 <= q < 1 && boxes_overlap(self@[p], seq![b@][q]);
                assert(!boxes_overlap(self@[p], b@));
            }
        }
        false
    }
}

impl CollideEntity for Level {
    open spec fn cwf(&self) -> bool {
        true
    }

    open spec fn hitbox_view(&self) -> BoxView {
        enclosing_box(self@)
    }

    open spec fn sub_hitbox_views(&self) -> Seq<BoxView> {
        self@
    }

    /// The single enclosing box of all tiles.  It exists for callers
    /// that want a rough extent; collision never uses it.
    fn get_hitbox(&self) -> (r: AxisAlignedBox) {
        if self.tiles.len() == 0 {
            return AxisAlignedBox::new(0, 0, 0, 0);
        }
        let mut acc = self.tiles[0].get_hitbox();
        let mut i: usize = 1;
        while i < self.tiles.len()
            invariant
                1 <= i <= self.tiles@.len(),
                acc@ == enclosing_box(self@.take(i as int)),
            decreases self.tiles@.len() - i,
        {
            let hb = self.tiles[i].get_hitbox();
            acc = acc.combine_with(&hb);
            proof {
                assert(self@.take(i as int + 1).drop_last() =~= self@.take(i as int));
                assert(self@.take(i as int + 1).last() == self@[i as int]);
            }
            i += 1;
        }
        proof {
            assert(self@.take(self@.len() as int) =~= self@);
        }
        acc
    }

    fn get_sub_hitboxs(&self) -> (r: Vec<AxisAlignedBox>) {
        let mut out: Vec<AxisAlignedBox> = Vec::new();
        let mut i: usize = 0;
        while i < self.tiles.len()
            invariant
                i <= self.tiles@.len(),
                views_of(out@) == self@.take(i as int),
            decreases self.tiles@.len() - i,
        {
            let hb = self.tiles[i].get_hitbox();
            let ghost pre = out@;
            out.push(hb);
            proof {
                assert(views_of(pre).len() == pre.len());
                assert(pre.len() == i as int);
                assert forall|k: int|
                    0 <= k < out@.len() implies views_of(out@)[k] == self@.take(i as int + 1)[k] by {
                    assert(views_of(out@)[k] == out@[k]@);
                    assert(self@[k] == self.tiles@[k]@);
                    if k < pre.len() {
                        assert(out@[k] == pre[k]);
                        assert(views_of(pre)[k] == pre[k]@);
                        assert(views_of(pre)[k] == self@.take(i as int)[k]);
                    } else {
                        assert(out@[k] == hb);
                        assert(hb@ == self.tiles@[i as int]@);
                    }
                }
                assert(views_of(out@).len() == out@.len());
                assert(views_of(out@) =~= self@.take(i as int + 1));
            }
            i += 1;
        }
        proof {
            assert(self@.take(self@.len() as int) =~= self@);
        }
        out
    }
}

/// A single box strictly overlaps some box of a list.
pub open spec fn box_hits_list(b: BoxView, s: Seq<BoxView>) -> bool {
    exists|j: int| 0 <= j < s.len() && boxes_overlap(b, s[j])
}

/// Composite collision law: a level collides with an entity's hitbox
/// list iff at least one constituent tile's box overlaps one of the
/// entity's boxes.  Nothing about the level's single enclosing box
/// enters the answer.
pub proof fn lemma_level_collision_composite(tiles: Seq<BoxView>, entity: Seq<BoxView>)
    ensures
        any_overlap(tiles, entity) <==> (exists|i: int|
            0 <= i < tiles.len() && box_hits_list(tiles[i], entity)),
{
    if any_overlap(tiles, entity) {
        let (i, j) = choose|i: int, j: int|
            0 <= i < tiles.len() && 0 <= j < entity.len() && boxes_overlap(tiles[i], entity[j]);
        assert(box_hits_list(tiles[i], entity));
    }
    if exists|i: int| 0 <= i < tiles.len() && box_hits_list(tiles[i], entity) {
        let i = choose|i: int| 0 <= i < tiles.len() && box_hits_list(tiles[i], entity);
        let j = choose|j: int| 0 <= j < entity.len() && boxes_overlap(tiles[i], entity[j]);
        assert(any_overlap(tiles, entity));
    }
}

} // verus!
