//! Clamped integer arithmetic shared by the whole core.
//!
//! World coordinates are `i32` and resources (hp, mp, exp) are `u32`;
//! every mutation goes through these helpers so that no verified
//! function can overflow or panic, whatever state it is handed.

use vstd::prelude::*;

verus! {

/// Mathematical result of clamping an unbounded integer into `i32`.
pub open spec fn clip_i32(v: int) -> int {
    if v > i32::MAX as int {
        i32::MAX as int
    } else if v < i32::MIN as int {
        i32::MIN as int
    } else {
        v
    }
}

/// Mathematical result of clamping an unbounded integer into `u32`.
pub open spec fn clip_u32(v: int) -> int {
    if v > u32::MAX as int {
        u32::MAX as int
    } else if v < 0 {
        0
    } else {
        v
    }
}

/// Mathematical result of clamping an unbounded integer into `u64`.
pub open spec fn clip_u64(v: int) -> int {
    if v > u64::MAX as int {
        u64::MAX as int
    } else if v < 0 {
        0
    } else {
        v
    }
}

/// `a + b` clamped into `i32`.
pub fn i32_add_clamped(a: i32, b: i32) -> (r: i32)
    ensures
        r as int == clip_i32(a as int + b as int),
{
    let s: i64 = a as i64 + b as i64;
    if s > i32::MAX as i64 {
        i32::MAX
    } else if s < i32::MIN as i64 {
        i32::MIN
    } else {
        s as i32
    }
}

/// `a - b` clamped into `i32`.
pub fn i32_sub_clamped(a: i32, b: i32) -> (r: i32)
    ensures
        r as int == clip_i32(a as int - b as int),
{
    let s: i64 = a as i64 - b as i64;
    if s > i32::MAX as i64 {
        i32::MAX
    } else if s < i32::MIN as i64 {
        i32::MIN
    } else {
        s as i32
    }
}

/// `a + b` clamped into `u32`.
pub fn u32_add_clamped(a: u32, b: u32) -> (r: u32)
    ensures
        r as int == clip_u32(a as int + b as int),
{
    if a > u32::MAX - b {
        u32::MAX
    } else {
        a + b
    }
}

/// `a - b` clamped at zero.
pub fn u32_sub_clamped(a: u32, b: u32) -> (r: u32)
    ensures
        r as int == clip_u32(a as int - b as int),
{
    if a >= b {
        a - b
    } else {
        0
    }
}

/// `a + b` clamped into `u64`.
pub fn u64_add_clamped(a: u64, b: u64) -> (r: u64)
    ensures
        r as int == clip_u64(a as int + b as int),
{
    if a > u64::MAX - b {
        u64::MAX
    } else {
        a + b
    }
}

} // verus!
