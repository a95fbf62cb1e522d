//! Ordered-dither channel quantization.
//!
//! An 8-bit channel value is collapsed to one of `2^bits` levels after a
//! position-dependent bias is added, then re-expanded to the 8-bit range.
//! The bias comes from a 4x4 Bayer matrix; a threshold entry `t` in
//! `0..16` stands for the signed bias `(t - 8)/16`, a deviation in
//! `[-1/2, 7/16)` from the quantization threshold.  All arithmetic is
//! exact over the integers: value, bias and level share the common
//! denominator `16 * 255 * max_level`, so `16 * 255 = 4080` scaled units
//! make one level and `2040` units make half a level.

use vstd::prelude::*;
use vstd::arithmetic::div_mod::{
    lemma_div_is_ordered, lemma_div_multiples_vanish, lemma_div_multiples_vanish_fancy,
    lemma_div_multiples_vanish_quotient, lemma_div_pos_is_pos, lemma_fundamental_div_mod,
    lemma_mod_multiples_basic, lemma_multiply_divide_le, lemma_multiply_divide_lt,
};

verus! {

/// Highest quantization level, `2^bits - 1`, for a bit depth in `1..=8`.
pub open spec fn spec_max_level(bits: int) -> int {
    if bits == 1 {
        1
    } else if bits == 2 {
        3
    } else if bits == 3 {
        7
    } else if bits == 4 {
        15
    } else if bits == 5 {
        31
    } else if bits == 6 {
        63
    } else if bits == 7 {
        127
    } else if bits == 8 {
        255
    } else {
        0
    }
}

/// Highest quantization level for a bit depth in `1..=8`.
pub fn max_level(bits: u8) -> (m: u8)
    requires
        1 <= bits <= 8,
    ensures
        m == spec_max_level(bits as int),
        1 <= m <= 255,
{
    match bits {
        1 => 1,
        2 => 3,
        3 => 7,
        4 => 15,
        5 => 31,
        6 => 63,
        7 => 127,
        _ => 255,
    }
}

/// The dithered quantization of channel value `v` at depth `bits` under
/// the Bayer threshold `bayer`, carried out exactly over the integers.
///
/// With `m = 2^bits - 1`, the value is normalized to `[0, 1]`, the bias
/// `(bayer - 8)/16` of one level width `1/m` is added, the sum is
/// clamped to `[0, 1]`, scaled by `m`, rounded half-up to a level, and
/// the level is re-expanded as `level * 255 / m` truncated toward zero.
/// Scaling everything by `4080 * m` turns that into the division-free
/// `base` below: one level is `4080` units and the half-level used for
/// rounding is `2040`.
pub open spec fn spec_quantize(v: int, bits: int, bayer: int) -> int
    recommends
        0 <= v <= 255,
        1 <= bits <= 8,
        0 <= bayer < 16,
{
    let m = spec_max_level(bits);
    let base = 16 * m * v + 255 * bayer;
    let clamped = if base < 2040 {
        2040
    } else if base > 4080 * m + 2040 {
        4080 * m + 2040
    } else {
        base
    };
    let level = clamped / 4080;
    (level * 255) / m
}

/// The quantizer always lands on an exactly representable level:
/// its result is `level * 255 / m` for some level in `[0, m]`, and in
/// particular stays inside the 8-bit range.
pub proof fn lemma_quantize_on_level(v: int, bits: int, bayer: int)
    requires
        0 <= v <= 255,
        1 <= bits <= 8,
        0 <= bayer < 16,
    ensures
        exists|level: int|
            0 <= level <= spec_max_level(bits)
                && spec_quantize(v, bits, bayer) == #[trigger] ((level * 255) / spec_max_level(bits)),
        0 <= spec_quantize(v, bits, bayer) <= 255,
{
    let m = spec_max_level(bits);
    let base = 16 * m * v + 255 * bayer;
    let clamped = if base < 2040 {
        2040
    } else if base > 4080 * m + 2040 {
        4080 * m + 2040
    } else {
        base
    };
    let level = clamped / 4080;
    assert(2040 <= clamped <= 4080 * m + 2040);
    lemma_div_is_ordered(2040, clamped, 4080);
    assert(level >= 0);
    assert(clamped <= 4080 * m + 2040 < 4080 * (m + 1));
    lemma_multiply_divide_lt(clamped, 4080, m + 1);
    assert(level <= m);
    assert(spec_quantize(v, bits, bayer) == (level * 255) / m);
    lemma_div_pos_is_pos(level * 255, m);
    assert(level * 255 <= m * 255);
    lemma_multiply_divide_le(level * 255, m, 255);
    assert((level * 255) / m <= 255);
}

/// Quantize one 8-bit channel value to `bits` bits of precision with the
/// ordered-dither bias selected by the Bayer threshold `bayer`, and
/// re-expand the chosen level to the 8-bit range.
pub fn quantize(v: u8, bits: u8, bayer: u8) -> (r: u8)
    requires
        1 <= bits <= 8,
        bayer < 16,
    ensures
        r == spec_quantize(v as int, bits as int, bayer as int),
        exists|level: int|
            0 <= level <= spec_max_level(bits as int)
                && r == #[trigger] ((level * 255) / spec_max_level(bits as int)),
{
    proof {
        lemma_quantize_on_level(v as int, bits as int, bayer as int);
    }
    let m: u32 = max_level(bits) as u32;
    proof {
        assert(16 * (m as int) * (v as int) <= 16 * 255 * 255) by (nonlinear_arith)
            requires
                0 <= m as int <= 255,
                0 <= v as int <= 255,
        ;
    }
    let base: u32 = 16 * m * (v as u32) + 255 * (bayer as u32);
    let hi: u32 = 4080 * m + 2040;
    let clamped: u32 = if base < 2040 {
        2040
    } else if base > hi {
        hi
    } else {
        base
    };
    let level: u32 = clamped / 4080;
    let out: u32 = (level * 255) / m;
    out as u8
}

/// Determinism: quantization is a pure function of its three inputs, so
/// any two results that meet the quantizer's contract on the same
/// inputs are the same byte.
pub proof fn lemma_quantize_deterministic(v: u8, bits: u8, bayer: u8, r1: u8, r2: u8)
    requires
        r1 == spec_quantize(v as int, bits as int, bayer as int),
        r2 == spec_quantize(v as int, bits as int, bayer as int),
    ensures
        r1 == r2,
{
}

/// Quantizing a value that already sits exactly on a level of the target
/// depth reproduces that value, whatever the dither bias: re-quantization
/// is the identity on the aligned values `w = level * 255 / m` with
/// `m * w == 255 * level`.  (On values between levels the transform is
/// lossy and not idempotent.)
pub proof fn lemma_quantize_aligned_idempotent(w: int, bits: int, bayer: int)
    requires
        0 <= w <= 255,
        1 <= bits <= 8,
        0 <= bayer < 16,
        (w * spec_max_level(bits)) % 255 == 0,
    ensures
        spec_quantize(w, bits, bayer) == w,
{
    let m = spec_max_level(bits);
    let lv = (w * m) / 255;
    lemma_fundamental_div_mod(w * m, 255);
    assert(w * m == 255 * lv);
    lemma_div_pos_is_pos(w * m, 255);
    assert(lv >= 0);
    assert(w * m <= 255 * m);
    lemma_multiply_divide_le(w * m, 255, m);
    assert(lv <= m);
    // The scaled-and-biased input collapses to `255 * (16 * lv + bayer)`.
    let base = 16 * m * w + 255 * bayer;
    assert(16 * m * w == 16 * (m * w) == 16 * (255 * lv) == 255 * (16 * lv)) by (nonlinear_arith)
        requires
            m * w == 255 * lv,
    ;
    assert(base == 255 * (16 * lv) + 255 * bayer);
    assert(base == 255 * (16 * lv + bayer)) by (nonlinear_arith)
        requires
            base == 255 * (16 * lv) + 255 * bayer,
    ;
    if base < 2040 {
        // Only an all-dark pixel with a downward bias clamps low; its
        // level, and hence its value, is zero.
        assert(255 * (16 * lv + bayer) < 2040);
        assert(16 * lv + bayer < 8) by (nonlinear_arith)
            requires
                255 * (16 * lv + bayer) < 2040,
        ;
        assert(lv == 0);
        assert(w * m == 0);
        assert(w == 0) by (nonlinear_arith)
            requires
                w * m == 0,
                m >= 1,
                w >= 0,
        ;
        assert(spec_quantize(w, bits, bayer) == (2040int / 4080) * 255 / m);
        assert(2040int / 4080 == 0);
        assert(0 * 255 == 0);
        lemma_div_pos_is_pos(0, m);
        assert(0int / m == 0) by {
            lemma_div_multiples_vanish(0, m);
            assert(m * 0 == 0);
        }
    } else if base > 4080 * m + 2040 {
        // Only a fully saturated pixel with an upward bias clamps high;
        // its level is `m` and its value 255.
        assert(255 * (16 * lv + bayer) > 4080 * m + 2040);
        assert(16 * lv + bayer > 16 * m + 8) by (nonlinear_arith)
            requires
                255 * (16 * lv + bayer) > 4080 * m + 2040,
        ;
        assert(16 * lv > 16 * m - 8);
        assert(lv > m - 1) by (nonlinear_arith)
            requires
                16 * lv > 16 * m - 8,
        ;
        assert(lv == m);
        let clamped = 4080 * m + 2040;
        assert(clamped / 4080 == m) by {
            lemma_div_multiples_vanish_fancy(m, 2040, 4080);
            assert(4080 * m + 2040 == clamped);
        }
        assert(spec_quantize(w, bits, bayer) == (m * 255) / m);
        assert((m * 255) / m == 255) by {
            lemma_div_multiples_vanish(255, m);
        }
        assert(w * m == 255 * m);
        assert(w == 255) by (nonlinear_arith)
            requires
                w * m == 255 * m,
                m >= 1,
        ;
    } else {
        // No clamping: the bias of less than one level rounds away and
        // the original level `lv` is recovered.
        let level = base / 4080;
        assert(base == 255 * (16 * lv + bayer));
        assert((255 * (16 * lv + bayer)) / (255int * 16) == (16 * lv + bayer) / 16) by {
            lemma_div_multiples_vanish_quotient(255, 16 * lv + bayer, 16);
        }
        assert(255int * 16 == 4080);
        assert((16 * lv + bayer) / 16 == lv) by {
            lemma_div_multiples_vanish_fancy(lv, bayer, 16);
        }
        assert(level == lv);
        assert(spec_quantize(w, bits, bayer) == (lv * 255) / m);
        assert(lv * 255 == m * w) by (nonlinear_arith)
            requires
                w * m == 255 * lv,
        ;
        assert((m * w) / m == w) by {
            lemma_div_multiples_vanish(w, m);
        }
    }
}

/// At the depths whose level scale `255 / m` is a whole number (1, 2,
/// 4 and 8 bits), every quantizer output is an aligned value, so a
/// second pass over a once-quantized value is the identity for every
/// input.  At the other depths re-expansion truncates and a second
/// pass can move the value.
pub proof fn lemma_quantize_idempotent_when_dividing(v: int, bits: int, bayer: int)
    requires
        0 <= v <= 255,
        1 <= bits <= 8,
        0 <= bayer < 16,
        255int % spec_max_level(bits) == 0,
    ensures
        spec_quantize(spec_quantize(v, bits, bayer), bits, bayer) == spec_quantize(v, bits, bayer),
{
    let m = spec_max_level(bits);
    let w = spec_quantize(v, bits, bayer);
    lemma_quantize_on_level(v, bits, bayer);
    let level = choose|level: int|
        0 <= level <= m && w == #[trigger] ((level * 255) / m);
    let t = 255int / m;
    lemma_fundamental_div_mod(255, m);
    assert(255 == m * t);
    // The re-expansion divides out exactly: w == t * level.
    assert(level * 255 == m * (t * level)) by (nonlinear_arith)
        requires
            255 == m * t,
    ;
    assert((m * (t * level)) / m == t * level) by {
        lemma_div_multiples_vanish(t * level, m);
    }
    assert(w == t * level);
    // Hence w * m is the exact multiple 255 * level of the byte range.
    assert(w * m == 255 * level) by (nonlinear_arith)
        requires
            w == t * level,
            255 == m * t,
    ;
    assert((w * m) % 255 == 0) by {
        lemma_mod_multiples_basic(level, 255);
        assert((255 * level) % 255 == 0);
    }
    lemma_quantize_aligned_idempotent(w, bits, bayer);
}

} // verus!
