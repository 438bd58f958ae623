use pathtracer::material::EMISSIVE_BITS;
use pathtracer::plane::{NEAREST_BITS, PARALLEL_BITS};
use pathtracer::scalar::{Scalar, HIDDEN_BIT, INFINITY_BITS, ONE_BITS, SIGN_BIT};
use pathtracer::ray::AMBIENT_BITS;
use pathtracer::sphere::GRAZING_BITS;

fn s(x: f32) -> Scalar {
    Scalar::from_bits(x.to_bits())
}

fn specimens() -> Vec<f32> {
    let mut out = vec![
        0.0,
        -0.0,
        1.0,
        -1.0,
        0.2,
        1.9,
        1.9000001,
        1.8999999,
        0.001,
        0.0001,
        0.01,
        5.0,
        -5.0,
        f32::MIN_POSITIVE,
        f32::MAX,
        f32::MIN,
        f32::INFINITY,
        f32::NEG_INFINITY,
        f32::NAN,
        f32::from_bits(1),
        f32::from_bits(0x8000_0001),
        f32::from_bits(0x7fc0_0001),
        f32::from_bits(0xffc0_0000),
    ];
    let mut state: u32 = 0x1234_5678;
    for _ in 0..400 {
        state = state.wrapping_mul(1_664_525).wrapping_add(1_013_904_223);
        out.push(f32::from_bits(state));
    }
    out
}

#[test]
fn thresholds_are_the_patterns_of_their_numbers() {
    assert_eq!(EMISSIVE_BITS, 1.9f32.to_bits());
    assert_eq!(PARALLEL_BITS, 0.0001f32.to_bits());
    assert_eq!(NEAREST_BITS, 0.001f32.to_bits());
    assert_eq!(GRAZING_BITS, 0.01f32.to_bits());
    assert_eq!(AMBIENT_BITS, 0.2f32.to_bits());
    assert_eq!(INFINITY_BITS, f32::INFINITY.to_bits());
    assert_eq!(SIGN_BIT, (-0.0f32).to_bits());
    assert_eq!(HIDDEN_BIT, 1 << 23);
    assert_eq!(ONE_BITS, 1.0f32.to_bits());
}

#[test]
fn bits_go_in_and_come_out() {
    assert_eq!(Scalar::from_bits(0x3f80_0000).to_bits(), 0x3f80_0000);
    assert_eq!(Scalar::from_bits(0x3f80_0000).bits, 1.0f32.to_bits());
    assert_eq!(Scalar::zero().to_bits(), 0);
}

#[test]
fn order_is_that_of_the_numbers() {
    let all = specimens();
    for &a in &all {
        for &b in &all {
            assert_eq!(s(a).lt(s(b)), a < b, "{a:?} < {b:?}");
            assert_eq!(s(a).gt(s(b)), a > b, "{a:?} > {b:?}");
            assert_eq!(s(a).ge(s(b)), a >= b, "{a:?} >= {b:?}");
        }
    }
}

#[test]
fn nan_and_sign_are_told_from_the_pattern() {
    for &a in &specimens() {
        assert_eq!(s(a).is_nan(), a.is_nan());
        assert_eq!(s(a).is_positive(), a > 0.0);
        assert_eq!(s(a).abs().to_bits(), a.abs().to_bits());
    }
}

#[test]
fn scaled_channel_is_the_truncated_product() {
    for &g in &specimens() {
        for c in 0..=255u8 {
            assert_eq!(s(g).scale_channel(c), (c as f32 * g) as u64, "{c} * {g:?}");
        }
    }
}

#[test]
fn scaled_channel_rounds_ties_to_even() {
    // 255 * (2^24 - 1) / 2^24 needs 32 bits; the product is rounded to 24
    for bits in [0x3f7f_ffffu32, 0x3f7f_fffe, 0x3f80_0001, 0x4b7f_ffff, 0x4b80_0001, 0x5eff_ffff] {
        let g = f32::from_bits(bits);
        for c in [1u8, 3, 5, 127, 129, 255] {
            assert_eq!(s(g).scale_channel(c), (c as f32 * g) as u64);
        }
    }
    for c in 0..=255u8 {
        assert_eq!(s(1.0).scale_channel(c), c as u64);
        assert_eq!(s(0.0).scale_channel(c), 0);
    }
    assert_eq!(s(0.2).scale_channel(255), 51);
    assert_eq!(s(0.95).scale_channel(100), 95);
    assert_eq!(s(f32::MAX).scale_channel(2), u64::MAX);
    assert_eq!(s(f32::INFINITY).scale_channel(1), u64::MAX);
    assert_eq!(s(f32::INFINITY).scale_channel(0), 0);
    // 1e19 is 0x8ac723 * 2^40 in single precision
    assert_eq!(s(1.0e19).scale_channel(1), 0x8ac723u64 << 40);
    assert_eq!(s(1.0e19).scale_channel(2), u64::MAX);
}
