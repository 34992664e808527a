//! Axis-aligned bounding-box collision: the overlap primitive and the
//! composite (multi-hitbox) collision query shared by every entity kind.
//!
//! The overlap test is strict: boxes that merely touch at an edge do not
//! collide, which keeps adjacent level tiles from reporting false
//! positives against each other.

use vstd::prelude::*;
use crate::arith::clip_i32;

verus! {

/// Mathematical axis-aligned box used throughout the specifications.
#[verifier::ext_equal]
pub ghost struct BoxView {
    pub x: int,
    pub y: int,
    pub w: int,
    pub h: int,
}

impl BoxView {
    /// A well-formed box has non-negative extents.
    pub open spec fn wf(self) -> bool {
        self.w >= 0 && self.h >= 0
    }
}

/// Strict (open-interval) overlap: edge contact is not a collision.
pub open spec fn boxes_overlap(a: BoxView, b: BoxView) -> bool {
    &&& a.x < b.x + b.w
    &&& b.x < a.x + a.w
    &&& a.y < b.y + b.h
    &&& b.y < a.y + a.h
}

/// Some box of `a` strictly overlaps some box of `b`.
pub open spec fn any_overlap(a: Seq<BoxView>, b: Seq<BoxView>) -> bool {
    exists|i: int, j: int|
        0 <= i < a.len() && 0 <= j < b.len() && boxes_overlap(a[i], b[j])
}

/// Overlap of a single box is symmetric in its two arguments.
pub proof fn lemma_boxes_overlap_symmetric(a: BoxView, b: BoxView)
    ensures
        boxes_overlap(a, b) == boxes_overlap(b, a),
{
}

/// Edge-contact law: boxes that merely touch along an edge do not
/// collide, on any of the four sides.
pub proof fn lemma_edge_contact_is_not_collision(a: BoxView, b: BoxView)
    requires
        a.x + a.w == b.x || b.x + b.w == a.x || a.y + a.h == b.y || b.y + b.h == a.y,
    ensures
        !boxes_overlap(a, b),
{
}

/// Collision over sub-hitbox lists is symmetric: `collision(A, B)`
/// answers exactly as `collision(B, A)` does, for all hitbox lists.
pub proof fn lemma_collision_symmetric(a: Seq<BoxView>, b: Seq<BoxView>)
    ensures
        any_overlap(a, b) == any_overlap(b, a),
{
    if any_overlap(a, b) {
        let (i, j) = choose|i: int, j: int|
            0 <= i < a.len() && 0 <= j < b.len() && boxes_overlap(a[i], b[j]);
        assert(boxes_overlap(b[j], a[i]));
        assert(any_overlap(b, a));
    }
    if any_overlap(b, a) {
        let (i, j) = choose|i: int, j: int|
            0 <= i < b.len() && 0 <= j < a.len() && boxes_overlap(b[i], a[j]);
        assert(boxes_overlap(a[j], b[i]));
        assert(any_overlap(a, b));
    }
}

/// An axis-aligned bounding box in world units.
#[derive(Clone, Copy, Debug, PartialEq, Eq, Structural)]
pub struct AxisAlignedBox {
    pub x: i32,
    pub y: i32,
    pub w: i32,
    pub h: i32,
}

impl View for AxisAlignedBox {
    type V = BoxView;

    open spec fn view(&self) -> BoxView {
        BoxView { x: self.x as int, y: self.y as int, w: self.w as int, h: self.h as int }
    }
}

impl AxisAlignedBox {
    pub open spec fn wf(self) -> bool {
        self@.wf()
    }

    pub fn new(x: i32, y: i32, w: i32, h: i32) -> (r: AxisAlignedBox)
        requires
            w >= 0,
            h >= 0,
        ensures
            r@ == (BoxView { x: x as int, y: y as int, w: w as int, h: h as int }),
            r.wf(),
    {
        AxisAlignedBox { x, y, w, h }
    }

    /// Strict overlap test; extents are widened to `i64` so the sums can
    /// never overflow.
    pub fn overlaps(&self, other: &AxisAlignedBox) -> (r: bool)
        ensures
            r == boxes_overlap(self@, other@),
    {
        (self.x as i64) < other.x as i64 + other.w as i64
            && (other.x as i64) < self.x as i64 + self.w as i64
            && (self.y as i64) < other.y as i64 + other.h as i64
            && (other.y as i64) < self.y as i64 + self.h as i64
    }

    /// The smallest box containing both `self` and `other`, with extents
    /// clamped into `i32`.
    pub fn combine_with(&self, other: &AxisAlignedBox) -> (r: AxisAlignedBox)
        ensures
            r@ == box_union(self@, other@),
    {
        let x = if self.x <= other.x { self.x } else { other.x };
        let y = if self.y <= other.y { self.y } else { other.y };
        let right_a: i64 = self.x as i64 + self.w as i64;
        let right_b: i64 = other.x as i64 + other.w as i64;
        let right = if right_a >= right_b { right_a } else { right_b };
        let bottom_a: i64 = self.y as i64 + self.h as i64;
        let bottom_b: i64 = other.y as i64 + other.h as i64;
        let bottom = if bottom_a >= bottom_b { bottom_a } else { bottom_b };
        let w = clamp_to_i32(right - x as i64);
        let h = clamp_to_i32(bottom - y as i64);
        AxisAlignedBox { x, y, w, h }
    }
}

/// Mathematical bounding union of two boxes (extents clamped into `i32`).
pub open spec fn box_union(a: BoxView, b: BoxView) -> BoxView {
    let x = if a.x <= b.x { a.x } else { b.x };
    let y = if a.y <= b.y { a.y } else { b.y };
    let right = if a.x + a.w >= b.x + b.w { a.x + a.w } else { b.x + b.w };
    let bottom = if a.y + a.h >= b.y + b.h { a.y + a.h } else { b.y + b.h };
    BoxView { x, y, w: clip_i32(right - x), h: clip_i32(bottom - y) }
}

fn clamp_to_i32(v: i64) -> (r: i32)
    ensures
        r as int == clip_i32(v as int),
{
    if v > i32::MAX as i64 {
        i32::MAX
    } else if v < i32::MIN as i64 {
        i32::MIN
    } else {
        v as i32
    }
}

/// Capability of everything that can collide: a primary hitbox, and a
/// list of sub-hitboxes for composite entities (a level made of tiles
/// reports one box per tile instead of one enclosing box).
pub trait CollideEntity {
    /// Well-formedness the hitbox queries rely on.
    spec fn cwf(&self) -> bool;

    /// The primary hitbox, as the specification sees it.
    spec fn hitbox_view(&self) -> BoxView;

    /// All sub-hitboxes, as the specification sees them.
    spec fn sub_hitbox_views(&self) -> Seq<BoxView>;

    /// The primary hitbox, recomputed from live state on every query.
    fn get_hitbox(&self) -> (r: AxisAlignedBox)
        requires
            self.cwf(),
        ensures
            r@ == self.hitbox_view(),
    ;

    /// One box per constituent part; most entities report just their
    /// primary hitbox.
    fn get_sub_hitboxs(&self) -> (r: Vec<AxisAlignedBox>)
        requires
            self.cwf(),
        ensures
            views_of(r@) == self.sub_hitbox_views(),
    ;
}

/// The specification-level contents of a hitbox list.
pub open spec fn views_of(s: Seq<AxisAlignedBox>) -> Seq<BoxView> {
    s.map_values(|b: AxisAlignedBox| b@)
}

/// Pure collision query: do any sub-hitboxes of `a` and `b` strictly
/// overlap?  Tests the cartesian product and short-circuits on the first
/// overlapping pair.
pub fn collision<A: CollideEntity, B: CollideEntity>(a: &A, b: &B) -> (r: bool)
    requires
        a.cwf(),
        b.cwf(),
    ensures
        r == any_overlap(a.sub_hitbox_views(), b.sub_hitbox_views()),
{
    let va = a.get_sub_hitboxs();
    let vb = b.get_sub_hitboxs();
    boxes_collide(&va, &vb)
}

/// Collision query over two explicit hitbox lists.
pub fn boxes_collide(va: &Vec<AxisAlignedBox>, vb: &Vec<AxisAlignedBox>) -> (r: bool)
    ensures
        r == any_overlap(views_of(va@), views_of(vb@)),
{
    let ghost ga = views_of(va@);
    let ghost gb = views_of(vb@);
    let mut i: usize = 0;
    while i < va.len()
        invariant
            i <= va.len(),
            ga == views_of(va@),
            gb == views_of(vb@),
            forall|p: int, q: int|
                0 <= p < i && 0 <= q < gb.len() ==> !boxes_overlap(ga[p], gb[q]),
        decreases va.len() - i,
    {
        let mut j: usize = 0;
        while j < vb.len()
            invariant
                i < va.len(),
                j <= vb.len(),
                ga == views_of(va@),
                gb == views_of(vb@),
                forall|q: int| 0 <= q < j ==> !boxes_overlap(ga[i as int], gb[q]),
            decreases vb.len() - j,
        {
            if va[i].overlaps(&vb[j]) {
                assert(boxes_overlap(ga[i as int], gb[j as int]));
                return true;
            }
            j += 1;
        }
        i += 1;
    }
    false
}

} // verus!
