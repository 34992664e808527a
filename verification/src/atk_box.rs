//! The player's transient attack hitbox: sized by the weapon or spell,
//! offset from the player's center along the current facing, with width
//! and height swapped when facing vertically so a forward slash reads
//! correctly in both orientations.

use vstd::prelude::*;
use crate::arith::{clip_i32, i32_add_clamped, i32_sub_clamped};
use crate::collision::{AxisAlignedBox, BoxView, CollideEntity};
use crate::entities::Direction;

verus! {

/// The attack hitbox, present only while the triggering input is held.
#[derive(Clone, Copy, Debug, PartialEq, Eq, Structural)]
pub struct AtkBox {
    pub x: i32,
    pub y: i32,
    pub hitbox: AxisAlignedBox,
}

/// Where and how large an attack box placed at `(x, y)` facing `dir`
/// with the given extents and forward offset ends up: vertical facings
/// swap width and height, the offset pushes the box forward, and the
/// result is centered on the pushed point.
pub open spec fn atk_box_view(x: int, y: int, w: int, h: int, dir: Direction, off: int) -> BoxView {
    let (w2, h2) = match dir {
        Direction::Up => (h, w),
        Direction::Down => (h, w),
        Direction::Left => (w, h),
        Direction::Right => (w, h),
    };
    let (x2, y2) = match dir {
        Direction::Up => (x, clip_i32(y - off)),
        Direction::Down => (x, clip_i32(y + off)),
        Direction::Left => (clip_i32(x - off), y),
        Direction::Right => (clip_i32(x + off), y),
    };
    BoxView { x: clip_i32(x2 - w2 / 2), y: clip_i32(y2 - h2 / 2), w: w2, h: h2 }
}

impl View for AtkBox {
    type V = BoxView;

    open spec fn view(&self) -> BoxView {
        BoxView {
            x: self.x as int,
            y: self.y as int,
            w: self.hitbox.w as int,
            h: self.hitbox.h as int,
        }
    }
}

impl AtkBox {
    pub fn new(xpos: i32, ypos: i32, width: i32, height: i32, direction: &Direction, offset: i32) -> (r:
        AtkBox)
        requires
            width >= 0,
            height >= 0,
            offset >= 0,
        ensures
            r@ == atk_box_view(
                xpos as int,
                ypos as int,
                width as int,
                height as int,
                *direction,
                offset as int,
            ),
            r@.wf(),
    {
        let mut x = xpos;
        let mut y = ypos;
        let mut w = width;
        let mut h = height;
        match direction {
            Direction::Up => {
                y = i32_sub_clamped(y, offset);
                let t = w;
                w = h;
                h = t;
            },
            Direction::Down => {
                y = i32_add_clamped(y, offset);
                let t = w;
                w = h;
                h = t;
            },
            Direction::Left => {
                x = i32_sub_clamped(x, offset);
            },
            Direction::Right => {
                x = i32_add_clamped(x, offset);
            },
        }
        let hb = AxisAlignedBox::new(0, 0, w, h);
        x = i32_sub_clamped(x, w / 2);
        y = i32_sub_clamped(y, h / 2);
        AtkBox { x, y, hitbox: hb }
    }
}

impl CollideEntity for AtkBox {
    open spec fn cwf(&self) -> bool {
        true
    }

    open spec fn hitbox_view(&self) -> BoxView {
        self@
    }

    open spec fn sub_hitbox_views(&self) -> Seq<BoxView> {
        seq![self@]
    }

    fn get_hitbox(&self) -> (r: AxisAlignedBox) {
        AxisAlignedBox { x: self.x, y: self.y, w: self.hitbox.w, h: self.hitbox.h }
    }

    fn get_sub_hitboxs(&self) -> (r: Vec<AxisAlignedBox>) {
        let mut v: Vec<AxisAlignedBox> = Vec::new();
        v.push(self.get_hitbox());
        proof {
            assert(crate::collision::views_of(v@) =~= seq![self@]);
        }
        v
    }
}

} // verus!
