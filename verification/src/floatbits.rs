//! Single-precision values carried as their IEEE-754 bit patterns.
//!
//! Feed values are parsed into `f32` at the edge of the library and enter it
//! as `f32::to_bits()`.  Comparisons are stated over the bit patterns: a
//! pattern is NaN when its exponent is all ones with a non-zero mantissa, and
//! the non-NaN patterns are ordered by sign and magnitude (`-0.0 == 0.0`).
use vstd::prelude::*;

verus! {

pub const SIGN_BIT: u32 = 0x8000_0000;

pub const EXP_ALL_ONES: u32 = 0x7f80_0000;

/// `f32::INFINITY`.
pub const POS_INFINITY: u32 = 0x7f80_0000;

/// `f32::NEG_INFINITY`.
pub const NEG_INFINITY: u32 = 0xff80_0000;

/// `0.0_f32`.
pub const ZERO: u32 = 0;

/// `90.0_f32`.
pub const PLUS_90: u32 = 0x42b4_0000;

/// `-90.0_f32`.
pub const MINUS_90: u32 = 0xc2b4_0000;

/// `-180.0_f32`.
pub const MINUS_180: u32 = 0xc334_0000;

/// `360.0_f32`.
pub const PLUS_360: u32 = 0x43b4_0000;

/// The magnitude bits (everything but the sign).
pub open spec fn magnitude(b: u32) -> int {
    (b as int) % (SIGN_BIT as int)
}

pub open spec fn is_nan(b: u32) -> bool {
    magnitude(b) > EXP_ALL_ONES as int
}

pub open spec fn is_infinite(b: u32) -> bool {
    magnitude(b) == EXP_ALL_ONES as int
}

/// Neither NaN nor infinite (`f32::is_finite`).
pub open spec fn is_finite(b: u32) -> bool {
    magnitude(b) < EXP_ALL_ONES as int
}

/// An integer that orders the non-NaN values like the reals they denote.
pub open spec fn order_key(b: u32) -> int {
    if (b as int) >= SIGN_BIT as int {
        -magnitude(b)
    } else {
        magnitude(b)
    }
}

/// `a < b` on `f32`.
pub open spec fn lt(a: u32, b: u32) -> bool {
    !is_nan(a) && !is_nan(b) && order_key(a) < order_key(b)
}

/// `a <= b` on `f32`.
pub open spec fn le(a: u32, b: u32) -> bool {
    !is_nan(a) && !is_nan(b) && order_key(a) <= order_key(b)
}

/// `(-90.0..=90.0).contains(&v)`.
pub open spec fn in_lat_range(b: u32) -> bool {
    le(MINUS_90, b) && le(b, PLUS_90)
}

/// `(-180.0..=360.0).contains(&v)`.
pub open spec fn in_lon_range(b: u32) -> bool {
    le(MINUS_180, b) && le(b, PLUS_360)
}

pub fn magnitude_of(b: u32) -> (r: u32)
    ensures
        r as int == magnitude(b),
{
    b % SIGN_BIT
}

pub fn nan(b: u32) -> (r: bool)
    ensures
        r == is_nan(b),
{
    magnitude_of(b) > EXP_ALL_ONES
}

pub fn infinite(b: u32) -> (r: bool)
    ensures
        r == is_infinite(b),
{
    magnitude_of(b) == EXP_ALL_ONES
}

pub fn finite(b: u32) -> (r: bool)
    ensures
        r == is_finite(b),
{
    magnitude_of(b) < EXP_ALL_ONES
}

fn key_of(b: u32) -> (r: i64)
    ensures
        r as int == order_key(b),
{
    let m = magnitude_of(b) as i64;
    if b >= SIGN_BIT {
        -m
    } else {
        m
    }
}

/// `a < b` on `f32`.
pub fn f32_lt(a: u32, b: u32) -> (r: bool)
    ensures
        r == lt(a, b),
{
    !nan(a) && !nan(b) && key_of(a) < key_of(b)
}

/// `a <= b` on `f32`.
pub fn f32_le(a: u32, b: u32) -> (r: bool)
    ensures
        r == le(a, b),
{
    !nan(a) && !nan(b) && key_of(a) <= key_of(b)
}

} // verus!
