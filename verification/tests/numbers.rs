use rvello::ieee::clamp_unit;
use rvello::ieee::is_finite;
use rvello::ieee::is_finite_positive;
use rvello::ieee::is_nan;
use rvello::ieee::le;
use rvello::ieee::lt;
use rvello::ieee::pixel_extent;
use rvello::ieee::HALF;
use rvello::ieee::INFINITY;
use rvello::ieee::ONE;
use rvello::ieee::SIXTEEN;
use rvello::ieee::TWO_POW_32;
use rvello::ieee::ZERO;
use rvello::scene::final_alpha;

fn samples() -> Vec<u32> {
    let mut bits = vec![
        0x0000_0000,
        0x8000_0000,
        0x0000_0001,
        0x8000_0001,
        0x007f_ffff,
        0x0080_0000,
        0x3eff_ffff,
        0x3f00_0000,
        0x3f00_0001,
        0x3f7f_ffff,
        0x3f80_0000,
        0x3f80_0001,
        0x3fc0_0000,
        0x4020_0000,
        0x4b00_0000,
        0x4aff_ffff,
        0x4b7f_ffff,
        0x4b80_0000,
        0x4f00_0000,
        0x4f7f_ffff,
        0x4f80_0000,
        0x7f7f_ffff,
        0x7f80_0000,
        0xff80_0000,
        0x7f80_0001,
        0x7fc0_0000,
        0xffc0_0000,
        0xffff_ffff,
        0xbf00_0000,
        0xbf80_0000,
    ];
    let mut state: u32 = 0x1234_5678;
    for _ in 0..4000 {
        state ^= state << 13;
        state ^= state >> 17;
        state ^= state << 5;
        bits.push(state);
    }
    let mut pattern: u64 = 0x3e80_0000;
    while pattern < 0x5000_0000 {
        bits.push(pattern as u32);
        pattern += 0x3_fff1;
    }
    bits
}

fn reference_extent(x: f32) -> u32 {
    x.round().clamp(1.0, f32::MAX) as u32
}

#[test]
fn constants_are_the_patterns_they_name() {
    assert_eq!(ZERO, 0.0f32.to_bits());
    assert_eq!(HALF, 0.5f32.to_bits());
    assert_eq!(ONE, 1.0f32.to_bits());
    assert_eq!(SIXTEEN, 16.0f32.to_bits());
    assert_eq!(TWO_POW_32, 4294967296.0f32.to_bits());
    assert_eq!(INFINITY, f32::INFINITY.to_bits());
}

#[test]
fn classification_agrees_with_the_hardware() {
    for bits in samples() {
        let x = f32::from_bits(bits);
        assert_eq!(is_nan(bits), x.is_nan(), "{:#x}", bits);
        assert_eq!(is_finite(bits), x.is_finite(), "{:#x}", bits);
        assert_eq!(is_finite_positive(bits), x.is_finite() && x > 0.0, "{:#x}", bits);
    }
}

#[test]
fn order_agrees_with_the_hardware() {
    let all = samples();
    for (i, &a) in all.iter().enumerate() {
        for &b in all.iter().skip(i % 7).step_by(7) {
            let (x, y) = (f32::from_bits(a), f32::from_bits(b));
            assert_eq!(le(a, b), x <= y, "{:#x} {:#x}", a, b);
            assert_eq!(lt(a, b), x < y, "{:#x} {:#x}", a, b);
        }
    }
    assert!(le(0x8000_0000, 0));
    assert!(le(0, 0x8000_0000));
    assert!(!lt(0x8000_0000, 0));
    assert!(!le(0x7fc0_0000, 0x7fc0_0000));
}

#[test]
fn clamp_agrees_with_the_hardware() {
    for bits in samples() {
        let clamped = f32::from_bits(bits).clamp(0.0, 1.0);
        assert_eq!(clamp_unit(bits), clamped.to_bits(), "{:#x}", bits);
        assert_eq!(final_alpha(bits), clamped.to_bits(), "{:#x}", bits);
    }
}

#[test]
fn final_alpha_is_the_clamped_product() {
    let cases = [
        (1.0f32, 1.0f32, 1.0f32),
        (0.5, 0.5, 0.25),
        (1.0, 2.0, 1.0),
        (1.0, -1.0, 0.0),
        (0.0, 0.7, 0.0),
        (3.0, 0.25, 0.75),
    ];
    for (a, opacity, expected) in cases {
        assert_eq!(final_alpha((a * opacity).to_bits()), expected.to_bits());
    }
    assert_eq!(final_alpha((-0.0f32 * 1.0).to_bits()), 0x8000_0000);
    assert!(f32::from_bits(final_alpha((f32::NAN * 1.0).to_bits())).is_nan());
}

#[test]
fn pixel_extent_agrees_with_the_hardware() {
    for bits in samples() {
        let x = f32::from_bits(bits);
        assert_eq!(pixel_extent(bits), reference_extent(x), "{:#x}", bits);
    }
}

#[test]
fn pixel_extent_rounds_halves_away_from_zero() {
    let cases: [(f32, u32); 16] = [
        (0.0, 1),
        (0.4, 1),
        (0.49999997, 1),
        (0.5, 1),
        (1.0, 1),
        (1.4999999, 1),
        (1.5, 2),
        (2.5, 3),
        (1024.0, 1024),
        (767.5, 768),
        (8388607.5, 8388608),
        (16777216.0, 16777216),
        (4294967040.0, 4294967040),
        (4294967296.0, u32::MAX),
        (f32::INFINITY, u32::MAX),
        (-3.0, 1),
    ];
    for (x, expected) in cases {
        assert_eq!(pixel_extent(x.to_bits()), expected, "{}", x);
    }
    assert_eq!(pixel_extent(f32::NAN.to_bits()), 0);
    assert_eq!(pixel_extent(f32::NEG_INFINITY.to_bits()), 1);
    assert_eq!(pixel_extent((-0.0f32).to_bits()), 1);
}
