//! Session core of a 2D action game: a stack-based application state
//! machine combined with the entity interaction subsystem that drives
//! gameplay — axis-aligned collision, AI behavior selection,
//! damage/cooldown resolution, and speculative movement against level
//! geometry.
//!
//! Rendering, audio, asset loading and input-device handling are outside
//! collaborators: the core only consumes plain values from them (frame
//! bounding boxes, "is this key held" booleans, per-frame deltas in
//! milliseconds) and hands plain values back.
//!
//! Units: world lengths are stored in half-units (a 64-pixel tile is
//! 128 half-units) and stat points in half-points, so the half-sized
//! movement steps and stat bonuses stay integral.

pub mod arith;
pub mod collision;
pub mod timers;
pub mod floating_text;
pub mod sprites;
pub mod entities;
pub mod stats;
pub mod level;
pub mod level_builder;
pub mod atk_box;
pub mod player;
pub mod enemy;
pub mod items;
pub mod main_state;
pub mod states;

use vstd::prelude::*;

verus! {

} // verus!
