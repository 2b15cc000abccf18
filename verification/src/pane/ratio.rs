//! Split ratios.
//!
//! A split ratio is the position of a divider, the fraction of space given
//! to the first child. It is an IEEE-754 binary64 number; the library
//! carries it as its 64-bit encoding (`f64::to_bits`), so that every value,
//! including NaN and the infinities, is represented exactly and the rules
//! below (finiteness, ordering, clamping) are stated over integers.
use vstd::prelude::*;

verus! {

/// Encoding of 0.05, the smallest ratio a split may have.
pub const MIN_SPLIT_RATIO: u64 = 0x3FA9_9999_9999_999A;

/// Encoding of 0.95, the largest ratio a split may have.
pub const MAX_SPLIT_RATIO: u64 = 0x3FEE_6666_6666_6666;

/// Encoding of 0.5, the ratio of a freshly created split.
pub const HALF_RATIO: u64 = 0x3FE0_0000_0000_0000;

/// Encoding of the sign bit.
pub const SIGN_BIT: u64 = 0x8000_0000_0000_0000;

/// A binary64 encoding is finite unless its eleven exponent bits are all set.
pub open spec fn ratio_is_finite(bits: u64) -> bool {
    (bits / 0x10_0000_0000_0000) % 0x800 != 0x7FF
}

/// An integer that orders encodings as their values are ordered: on finite
/// values (and the infinities) `a < b` as numbers exactly when
/// `ratio_key(a) < ratio_key(b)`; `+0.0` and `-0.0` share the key 0.
pub open spec fn ratio_key(bits: u64) -> int {
    if bits < SIGN_BIT {
        bits as int
    } else {
        -((bits - SIGN_BIT) as int)
    }
}

/// `MIN_SPLIT_RATIO <= bits <= MAX_SPLIT_RATIO` as numbers.
pub open spec fn ratio_in_range(bits: u64) -> bool {
    ratio_key(MIN_SPLIT_RATIO) <= ratio_key(bits) <= ratio_key(MAX_SPLIT_RATIO)
}

/// `bits.clamp(MIN_SPLIT_RATIO, MAX_SPLIT_RATIO)` for a non-NaN value.
pub open spec fn clamped_ratio(bits: u64) -> u64 {
    if ratio_key(bits) < ratio_key(MIN_SPLIT_RATIO) {
        MIN_SPLIT_RATIO
    } else if ratio_key(bits) > ratio_key(MAX_SPLIT_RATIO) {
        MAX_SPLIT_RATIO
    } else {
        bits
    }
}

pub fn is_finite_ratio(bits: u64) -> (r: bool)
    ensures
        r == ratio_is_finite(bits),
{
    (bits / 0x10_0000_0000_0000) % 0x800 != 0x7FF
}

fn ratio_order_key(bits: u64) -> (k: i128)
    ensures
        k == ratio_key(bits),
{
    if bits < SIGN_BIT {
        bits as i128
    } else {
        -((bits - SIGN_BIT) as i128)
    }
}

/// Whether a ratio lies in the supported range.
pub fn is_supported_ratio(bits: u64) -> (r: bool)
    ensures
        r == (ratio_is_finite(bits) && ratio_in_range(bits)),
{
    let k = ratio_order_key(bits);
    is_finite_ratio(bits) && ratio_order_key(MIN_SPLIT_RATIO) <= k && k <= ratio_order_key(
        MAX_SPLIT_RATIO,
    )
}

/// Clamps a ratio into the supported range.
pub fn clamp_ratio(bits: u64) -> (r: u64)
    ensures
        r == clamped_ratio(bits),
        ratio_is_finite(bits) ==> ratio_is_finite(r) && ratio_in_range(r),
{
    let k = ratio_order_key(bits);
    if k < ratio_order_key(MIN_SPLIT_RATIO) {
        MIN_SPLIT_RATIO
    } else if k > ratio_order_key(MAX_SPLIT_RATIO) {
        MAX_SPLIT_RATIO
    } else {
        bits
    }
}

} // verus!
