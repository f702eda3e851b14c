//! Single-precision numbers as bit patterns.
//!
//! A pattern has a sign bit, eight exponent bits and 23 fraction bits. What
//! is decided here needs no arithmetic on the numbers themselves: which
//! patterns are finite or positive, how two of them compare, what a pattern
//! clamps to, and which whole number of pixels it rounds to.

use vstd::arithmetic::power2::lemma2_to64;
use vstd::arithmetic::power2::lemma_pow2_unfold;
use vstd::arithmetic::power2::pow2;
use vstd::prelude::*;

verus! {

/// The pattern of `0.0`.
pub const ZERO: u32 = 0;

/// The pattern of `1.0`.
pub const ONE: u32 = 0x3f80_0000;

/// The pattern of `0.5`.
pub const HALF: u32 = 0x3f00_0000;

/// The pattern of `4294967296.0`, the least number above every `u32`.
pub const TWO_POW_32: u32 = 0x4f80_0000;

/// The pattern of `16.0`.
pub const SIXTEEN: u32 = 0x4180_0000;

/// The pattern of positive infinity; its magnitude bounds the finite ones.
pub const INFINITY: u32 = 0x7f80_0000;

/// The sign bit.
pub const SIGN: u32 = 0x8000_0000;

/// The pattern without its sign bit.
pub open spec fn magnitude(bits: u32) -> u32 {
    if bits >= SIGN {
        (bits - SIGN) as u32
    } else {
        bits
    }
}

/// Not a number: all exponent bits set and a fraction that is not zero.
pub open spec fn spec_is_nan(bits: u32) -> bool {
    magnitude(bits) > INFINITY
}

/// Neither infinite nor not a number.
pub open spec fn spec_is_finite(bits: u32) -> bool {
    magnitude(bits) < INFINITY
}

/// Finite and greater than zero.
pub open spec fn spec_is_finite_positive(bits: u32) -> bool {
    0 < bits < INFINITY
}

/// The place of a number in the order of the numbers: its magnitude, negated
/// under a sign bit. Both zeros share a place. Meaningless for not-a-number.
pub open spec fn ordinal(bits: u32) -> int {
    if bits >= SIGN {
        -(magnitude(bits) as int)
    } else {
        bits as int
    }
}

/// `a <= b` as numbers: false if either is not a number.
pub open spec fn spec_le(a: u32, b: u32) -> bool {
    !spec_is_nan(a) && !spec_is_nan(b) && ordinal(a) <= ordinal(b)
}

/// `a < b` as numbers: false if either is not a number.
pub open spec fn spec_lt(a: u32, b: u32) -> bool {
    !spec_is_nan(a) && !spec_is_nan(b) && ordinal(a) < ordinal(b)
}

/// The number clamped to `[0, 1]`: zero below the range, one above it, and
/// the number itself, negative zero and not-a-number included, otherwise.
pub open spec fn spec_clamp_unit(bits: u32) -> u32 {
    if spec_lt(bits, ZERO) {
        ZERO
    } else if spec_lt(ONE, bits) {
        ONE
    } else {
        bits
    }
}

/// The whole number nearest to a number in `[0.5, 4294967296)`, halves
/// rounded up. Such a number is its 24-bit significand times two to the
/// power of its exponent less 23.
pub open spec fn nearest_whole(bits: u32) -> int {
    let biased = bits as int / 0x80_0000;
    let significand = 0x80_0000 + bits as int % 0x80_0000;
    if biased >= 150 {
        significand * pow2((biased - 150) as nat)
    } else {
        (significand + pow2((149 - biased) as nat)) / (pow2((150 - biased) as nat) as int)
    }
}

/// The number of pixels that a scaled length comes to: the length rounded
/// to the nearest whole number, halves away from zero, and held to
/// `[1, 4294967295]`. A length that is not a number comes to no pixel.
pub open spec fn spec_pixel_extent(bits: u32) -> u32 {
    if spec_is_nan(bits) {
        0
    } else if spec_lt(bits, HALF) {
        1
    } else if spec_le(TWO_POW_32, bits) {
        u32::MAX
    } else {
        nearest_whole(bits) as u32
    }
}

fn magnitude_of(bits: u32) -> (m: u32)
    ensures
        m == magnitude(bits),
{
    if bits >= SIGN {
        bits - SIGN
    } else {
        bits
    }
}

/// Whether the pattern is not a number.
#[verifier::when_used_as_spec(spec_is_nan)]
pub fn is_nan(bits: u32) -> (r: bool)
    ensures
        r == spec_is_nan(bits),
{
    magnitude_of(bits) > INFINITY
}

/// Whether the number is neither infinite nor not a number.
#[verifier::when_used_as_spec(spec_is_finite)]
pub fn is_finite(bits: u32) -> (r: bool)
    ensures
        r == spec_is_finite(bits),
{
    magnitude_of(bits) < INFINITY
}

/// Whether the number is finite and greater than zero.
#[verifier::when_used_as_spec(spec_is_finite_positive)]
pub fn is_finite_positive(bits: u32) -> (r: bool)
    ensures
        r == spec_is_finite_positive(bits),
{
    0 < bits && bits < INFINITY
}

/// Whether `a <= b` as numbers.
#[verifier::when_used_as_spec(spec_le)]
pub fn le(a: u32, b: u32) -> (r: bool)
    ensures
        r == spec_le(a, b),
{
    if is_nan(a) || is_nan(b) {
        return false;
    }
    if a >= SIGN {
        if b >= SIGN {
            magnitude_of(a) >= magnitude_of(b)
        } else {
            true
        }
    } else {
        if b >= SIGN {
            a == 0 && magnitude_of(b) == 0
        } else {
            a <= b
        }
    }
}

/// Whether `a < b` as numbers.
#[verifier::when_used_as_spec(spec_lt)]
pub fn lt(a: u32, b: u32) -> (r: bool)
    ensures
        r == spec_lt(a, b),
{
    if is_nan(a) || is_nan(b) {
        return false;
    }
    if a >= SIGN {
        if b >= SIGN {
            magnitude_of(a) > magnitude_of(b)
        } else {
            !(magnitude_of(a) == 0 && b == 0)
        }
    } else {
        if b >= SIGN {
            false
        } else {
            a < b
        }
    }
}

/// The number clamped to `[0, 1]`.
#[verifier::when_used_as_spec(spec_clamp_unit)]
pub fn clamp_unit(bits: u32) -> (r: u32)
    ensures
        r == spec_clamp_unit(bits),
{
    if lt(bits, ZERO) {
        ZERO
    } else if lt(ONE, bits) {
        ONE
    } else {
        bits
    }
}

fn power_of_two(exponent: u32) -> (power: u64)
    requires
        exponent <= 24,
    ensures
        power == pow2(exponent as nat),
        1 <= power <= 0x100_0000,
{
    let mut power: u64 = 1;
    let mut i: u32 = 0;
    proof {
        lemma2_to64();
    }
    while i < exponent
        invariant
            i <= exponent <= 24,
            power == pow2(i as nat),
            1 <= power,
            power <= pow2(24),
            pow2(24) == 0x100_0000,
            i < 24 ==> power <= 0x80_0000,
        decreases exponent - i,
    {
        proof {
            lemma_pow2_unfold((i + 1) as nat);
            lemma2_to64();
            if i + 1 < 23 {
                vstd::arithmetic::power2::lemma_pow2_strictly_increases((i + 1) as nat, 23);
            }
        }
        power = power * 2;
        i += 1;
    }
    power
}

/// The number of pixels that a scaled length comes to.
#[verifier::when_used_as_spec(spec_pixel_extent)]
pub fn pixel_extent(bits: u32) -> (pixels: u32)
    ensures
        pixels == spec_pixel_extent(bits),
{
    if is_nan(bits) {
        return 0;
    }
    if lt(bits, HALF) {
        return 1;
    }
    if le(TWO_POW_32, bits) {
        return u32::MAX;
    }
    let biased: u32 = bits / 0x80_0000;
    let significand: u64 = 0x80_0000 + (bits % 0x80_0000) as u64;
    if biased >= 150 {
        let scale = power_of_two(biased - 150);
        assert(scale <= 0x100) by {
            lemma2_to64();
            if biased < 158 {
                vstd::arithmetic::power2::lemma_pow2_strictly_increases(
                    (biased - 150) as nat,
                    8,
                );
            }
        }
        assert(significand * scale <= 0xff_ffff * 0x100) by (nonlinear_arith)
            requires
                significand <= 0xff_ffff,
                scale <= 0x100,
        ;
        (significand * scale) as u32
    } else {
        let half = power_of_two(149 - biased);
        let unit = power_of_two(150 - biased);
        assert((significand + half) as int / (unit as int) <= significand + half)
            by (nonlinear_arith)
            requires
                unit >= 1,
        ;
        ((significand + half) / unit) as u32
    }
}

/// A scaled length that is a number comes to at least one pixel, and the
/// nearest whole number to a length in `[0.5, 4294967296)` is a `u32`.
pub proof fn lemma_pixel_extent_at_least_one(bits: u32)
    requires
        !is_nan(bits),
    ensures
        pixel_extent(bits) >= 1,
        !lt(bits, HALF) && !le(TWO_POW_32, bits) ==> 1 <= nearest_whole(bits) <= u32::MAX,
{
    if !lt(bits, HALF) && !le(TWO_POW_32, bits) {
        let biased = bits as int / 0x80_0000;
        let significand = 0x80_0000 + bits as int % 0x80_0000;
        lemma2_to64();
        if biased >= 150 {
            vstd::arithmetic::power2::lemma_pow2_pos((biased - 150) as nat);
            assert(significand * pow2((biased - 150) as nat) >= significand) by (nonlinear_arith)
                requires
                    significand >= 0,
                    pow2((biased - 150) as nat) >= 1,
            ;
            assert(biased <= 158);
            if biased < 158 {
                vstd::arithmetic::power2::lemma_pow2_strictly_increases(
                    (biased - 150) as nat,
                    8,
                );
            }
            assert(significand * pow2((biased - 150) as nat) <= 0xff_ffff * 0x100)
                by (nonlinear_arith)
                requires
                    0 <= significand <= 0xff_ffff,
                    pow2((biased - 150) as nat) <= 0x100,
            ;
        } else {
            let half = pow2((149 - biased) as nat) as int;
            let unit = pow2((150 - biased) as nat) as int;
            lemma_pow2_unfold((150 - biased) as nat);
            vstd::arithmetic::power2::lemma_pow2_pos((149 - biased) as nat);
            assert(biased >= 126);
            if biased > 126 {
                vstd::arithmetic::power2::lemma_pow2_strictly_increases(
                    (149 - biased) as nat,
                    23,
                );
            }
            assert((significand + half) / unit >= 1) by (nonlinear_arith)
                requires
                    unit == 2 * half,
                    half >= 1,
                    significand >= half,
            ;
            assert((significand + half) / unit <= significand + half) by (nonlinear_arith)
                requires
                    unit >= 1,
                    significand + half >= 0,
            ;
        }
    }
}

/// Below two to the power of 23 the nearest whole number is within half of
/// the number, and a number halfway between two whole numbers goes to the
/// greater: with the number written as `significand / unit`, twice the
/// significand lies from `2n - 1` units up to, and not reaching, `2n + 1`
/// units.
pub proof fn lemma_nearest_whole_is_nearest(bits: u32)
    requires
        HALF <= bits < 0x4b00_0000,
    ensures
        ({
            let biased = bits as int / 0x80_0000;
            let significand = 0x80_0000 + bits as int % 0x80_0000;
            let unit = pow2((150 - biased) as nat) as int;
            let n = nearest_whole(bits);
            (2 * n - 1) * unit <= 2 * significand < (2 * n + 1) * unit
        }),
{
    let biased = bits as int / 0x80_0000;
    let significand = 0x80_0000 + bits as int % 0x80_0000;
    let half = pow2((149 - biased) as nat) as int;
    let unit = pow2((150 - biased) as nat) as int;
    let n = nearest_whole(bits);
    assert(126 <= biased < 150);
    lemma_pow2_unfold((150 - biased) as nat);
    vstd::arithmetic::power2::lemma_pow2_pos((149 - biased) as nat);
    vstd::arithmetic::div_mod::lemma_fundamental_div_mod(significand + half, unit);
    vstd::arithmetic::div_mod::lemma_mod_bound(significand + half, unit);
    let r = (significand + half) % unit;
    assert(significand + half == unit * n + r);
    assert((2 * n - 1) * unit == 2 * (unit * n) - unit) by (nonlinear_arith);
    assert((2 * n + 1) * unit == 2 * (unit * n) + unit) by (nonlinear_arith);
}

/// A clamped number that is a number lies in `[0, 1]`.
pub proof fn lemma_clamp_unit_in_range(bits: u32)
    requires
        !is_nan(bits),
    ensures
        le(ZERO, clamp_unit(bits)),
        le(clamp_unit(bits), ONE),
{
}

/// The order is total on numbers, and transitive.
pub proof fn lemma_le_is_an_order(a: u32, b: u32, c: u32)
    ensures
        !is_nan(a) ==> le(a, a),
        !is_nan(a) && !is_nan(b) ==> le(a, b) || le(b, a),
        le(a, b) && le(b, c) ==> le(a, c),
        lt(a, b) <==> le(a, b) && !le(b, a),
{
}

} // verus!
