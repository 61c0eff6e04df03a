//! PCM normalization.
//!
//! A raw sample of a known width and signedness is mapped onto the canonical
//! range `[-1, 1]`. The mapping is given as an exact fraction `num / den`
//! (with `den > 0`); the playback side multiplies `num` by the precomputed
//! reciprocal of `den`, so no division happens per sample.
//!
//! Signed samples use asymmetric scaling: negative values are divided by
//! `|min|` and non-negative ones by `max`, so both extremes land exactly on
//! `-1` and `1` and zero stays zero. Unsigned samples are rescaled linearly
//! from `[0, max]` with `(2 * sample - max) / max`.

use vstd::prelude::*;

verus! {

/// Smallest 24-bit signed sample.
pub const I24_MIN: i32 = -8388608;
/// Largest 24-bit signed sample.
pub const I24_MAX: i32 = 8388607;
/// Largest 24-bit unsigned sample.
pub const U24_MAX: u32 = 16777215;

/// A normalized sample, as the exact fraction `num / den`.
#[derive(Clone, Copy, Debug, PartialEq, Eq, Structural)]
pub struct Ratio {
    pub num: i64,
    pub den: u64,
}

impl Ratio {
    pub open spec fn view(self) -> (int, int) {
        (self.num as int, self.den as int)
    }
}

/// The fraction for a signed sample `s` of a type ranging over `[min, max]`.
pub open spec fn signed_ratio(s: int, min: int, max: int) -> (int, int) {
    if s < 0 {
        (s, -min)
    } else {
        (s, max)
    }
}

/// The fraction for an unsigned sample `s` of a type ranging over `[0, max]`.
pub open spec fn unsigned_ratio(s: int, max: int) -> (int, int) {
    (2 * s - max, max)
}

/// The fraction lies in `[-1, 1]`.
pub open spec fn in_unit_range(r: (int, int)) -> bool {
    r.1 > 0 && -r.1 <= r.0 <= r.1
}

/// The fraction is exactly `-1`.
pub open spec fn is_minus_one(r: (int, int)) -> bool {
    r.1 > 0 && r.0 == -r.1
}

/// The fraction is exactly `1`.
pub open spec fn is_plus_one(r: (int, int)) -> bool {
    r.1 > 0 && r.0 == r.1
}

/// The fraction is exactly `0`.
pub open spec fn is_zero(r: (int, int)) -> bool {
    r.1 > 0 && r.0 == 0
}

/// Smallest signed sample of the given bit depth.
pub open spec fn depth_min(bits: nat) -> int {
    if bits == 8 {
        -128
    } else if bits == 16 {
        -32768
    } else if bits == 24 {
        -8388608
    } else {
        -2147483648
    }
}

/// Largest signed sample of the given bit depth.
pub open spec fn depth_max(bits: nat) -> int {
    -depth_min(bits) - 1
}

/// Largest unsigned sample of the given bit depth.
pub open spec fn undepth_max(bits: nat) -> int {
    2 * depth_max(bits) + 1
}

/// The bit depths that the normalizer supports.
pub open spec fn supported_depth(bits: nat) -> bool {
    bits == 8 || bits == 16 || bits == 24 || bits == 32
}

/// Scales a signed sample by `1/|min|` when negative and by `1/max` otherwise.
pub fn signed_to_unit(sample: i64, min: i64, max: i64) -> (r: Ratio)
    requires
        i64::MIN < min < 0 < max,
        min <= sample <= max,
    ensures
        r@ == signed_ratio(sample as int, min as int, max as int),
        in_unit_range(r@),
        is_minus_one(r@) <==> sample == min,
        is_plus_one(r@) <==> sample == max,
        is_zero(r@) <==> sample == 0,
{
    if sample < 0 {
        Ratio { num: sample, den: (-min) as u64 }
    } else {
        Ratio { num: sample, den: max as u64 }
    }
}

/// Rescales an unsigned sample from `[0, max]` onto `[-1, 1]`.
pub fn unsigned_to_unit(sample: u64, max: u64) -> (r: Ratio)
    requires
        0 < max <= u32::MAX,
        sample <= max,
    ensures
        r@ == unsigned_ratio(sample as int, max as int),
        in_unit_range(r@),
        is_minus_one(r@) <==> sample == 0,
        is_plus_one(r@) <==> sample == max,
{
    Ratio { num: 2 * (sample as i64) - (max as i64), den: max }
}

/// Normalizes a signed 8-bit sample.
pub fn pcm_s8_to_ieee(sample: i8) -> (r: Ratio)
    ensures
        r@ == signed_ratio(sample as int, depth_min(8), depth_max(8)),
        in_unit_range(r@),
{
    signed_to_unit(sample as i64, i8::MIN as i64, i8::MAX as i64)
}

/// Normalizes an unsigned 8-bit sample.
pub fn pcm_u8_to_ieee(sample: u8) -> (r: Ratio)
    ensures
        r@ == unsigned_ratio(sample as int, undepth_max(8)),
        in_unit_range(r@),
{
    unsigned_to_unit(sample as u64, u8::MAX as u64)
}

/// Normalizes a signed 16-bit sample.
pub fn pcm_s16_to_ieee(sample: i16) -> (r: Ratio)
    ensures
        r@ == signed_ratio(sample as int, depth_min(16), depth_max(16)),
        in_unit_range(r@),
{
    signed_to_unit(sample as i64, i16::MIN as i64, i16::MAX as i64)
}

/// Normalizes an unsigned 16-bit sample.
pub fn pcm_u16_to_ieee(sample: u16) -> (r: Ratio)
    ensures
        r@ == unsigned_ratio(sample as int, undepth_max(16)),
        in_unit_range(r@),
{
    unsigned_to_unit(sample as u64, u16::MAX as u64)
}

/// Normalizes a signed 24-bit sample held in the low bits of an `i32`.
pub fn pcm_s24_to_ieee(sample: i32) -> (r: Ratio)
    requires
        I24_MIN <= sample <= I24_MAX,
    ensures
        r@ == signed_ratio(sample as int, depth_min(24), depth_max(24)),
        in_unit_range(r@),
{
    signed_to_unit(sample as i64, I24_MIN as i64, I24_MAX as i64)
}

/// Normalizes an unsigned 24-bit sample held in the low bits of a `u32`.
pub fn pcm_u24_to_ieee(sample: u32) -> (r: Ratio)
    requires
        sample <= U24_MAX,
    ensures
        r@ == unsigned_ratio(sample as int, undepth_max(24)),
        in_unit_range(r@),
{
    unsigned_to_unit(sample as u64, U24_MAX as u64)
}

/// Normalizes a signed 32-bit sample.
pub fn pcm_s32_to_ieee(sample: i32) -> (r: Ratio)
    ensures
        r@ == signed_ratio(sample as int, depth_min(32), depth_max(32)),
        in_unit_range(r@),
{
    signed_to_unit(sample as i64, i32::MIN as i64, i32::MAX as i64)
}

/// Normalizes an unsigned 32-bit sample.
pub fn pcm_u32_to_ieee(sample: u32) -> (r: Ratio)
    ensures
        r@ == unsigned_ratio(sample as int, undepth_max(32)),
        in_unit_range(r@),
{
    unsigned_to_unit(sample as u64, u32::MAX as u64)
}

/// For every supported bit depth, the smallest signed sample normalizes to
/// exactly `-1` and the largest to exactly `1`; for unsigned samples, `0`
/// normalizes to exactly `-1` and the largest value to exactly `1`.
pub proof fn lemma_extremes_are_unit(bits: nat)
    requires
        supported_depth(bits),
    ensures
        is_minus_one(signed_ratio(depth_min(bits), depth_min(bits), depth_max(bits))),
        is_plus_one(signed_ratio(depth_max(bits), depth_min(bits), depth_max(bits))),
        is_zero(signed_ratio(0, depth_min(bits), depth_max(bits))),
        is_minus_one(unsigned_ratio(0, undepth_max(bits))),
        is_plus_one(unsigned_ratio(undepth_max(bits), undepth_max(bits))),
{
}

} // verus!
