use rf_eq::ieee::{
    clamp, double_whole_bits, narrow, power_of_two, round_shift, sanitise, single_from_whole,
    single_is_finite_bits, single_le_bits, single_lt_bits, widen,
};

/// A spread of singles: zeros, subnormals, normals, the largest, the
/// infinities and NaNs, with both signs.
fn singles() -> Vec<f32> {
    let mut values = vec![
        0.0,
        -0.0,
        f32::MIN_POSITIVE,
        -f32::MIN_POSITIVE,
        f32::from_bits(1),
        f32::from_bits(0x8000_0001),
        1.0e-20,
        -1.0e-20,
        1.0e-21,
        0.5,
        1.0,
        -1.0,
        1.5,
        2.0,
        3.0,
        15.0,
        -15.0,
        16_777_216.0,
        16_777_217.0_f64 as f32,
        1.0e10,
        f32::MAX,
        f32::MIN,
        f32::INFINITY,
        f32::NEG_INFINITY,
        f32::NAN,
        -f32::NAN,
    ];
    let mut state = 0x1234_5678_u32;
    for _ in 0..400 {
        state = state.wrapping_mul(1_664_525).wrapping_add(1_013_904_223);
        values.push(f32::from_bits(state));
    }
    values
}

#[test]
fn ordering_on_bits_is_the_ordering_of_values() {
    let values = singles();
    for a in &values {
        for b in values.iter().step_by(7) {
            assert_eq!(single_le_bits(a.to_bits(), b.to_bits()), a <= b, "{a} <= {b}");
            assert_eq!(single_lt_bits(a.to_bits(), b.to_bits()), a < b, "{a} < {b}");
        }
        assert_eq!(single_is_finite_bits(a.to_bits()), a.is_finite());
    }
}

#[test]
fn clamping_on_bits_is_clamping_of_values() {
    let low = 1.0_f32;
    let high = 7_200.0_f32;
    for value in singles() {
        let expected = if value < low {
            low
        } else if value > high {
            high
        } else {
            value
        };
        assert_eq!(clamp(value.to_bits(), low.to_bits(), high.to_bits()), expected.to_bits());
    }
}

#[test]
fn sanitising_flushes_what_is_not_a_sound() {
    for value in singles() {
        let expected = if value.is_finite() && value.abs() > 1.0e-20 { value } else { 0.0 };
        assert_eq!(sanitise(value.to_bits()), expected.to_bits(), "{value}");
    }
    assert_eq!(sanitise(0.25_f32.to_bits()), 0.25_f32.to_bits());
    assert_eq!(sanitise(f32::NAN.to_bits()), 0);
    assert_eq!(sanitise(1.0e-30_f32.to_bits()), 0);
}

#[test]
fn narrowing_on_bits_is_the_conversion() {
    let mut doubles = vec![
        0.0,
        -0.0,
        1.0,
        -1.0,
        0.1,
        15.1,
        1.0e-300,
        -1.0e-300,
        f64::MIN_POSITIVE,
        1.0e-45,
        7.0e-46,
        1.401298464324817e-45,
        2.0e-45,
        1.1754942e-38,
        1.17549435e-38,
        3.4028234e38,
        3.4028235677973366e38,
        3.402823669209385e38,
        1.0e39,
        1.0e300,
        f64::MAX,
        f64::INFINITY,
        f64::NEG_INFINITY,
        16_777_217.0,
        16_777_219.0,
        0.30000001192092896,
    ];
    let mut state = 0x0123_4567_89AB_CDEF_u64;
    for _ in 0..2_000 {
        state = state.wrapping_mul(6_364_136_223_846_793_005).wrapping_add(1_442_695_040_888_963_407);
        let value = f64::from_bits(state);
        if !value.is_nan() {
            doubles.push(value);
            doubles.push(value * 1.0e-290);
            doubles.push(value * 1.0e-270);
        }
        let small = f64::from_bits(0x3800_0000_0000_0000 | (state >> 12));
        doubles.push(small);
    }
    for value in doubles {
        assert_eq!(narrow(value.to_bits()), (value as f32).to_bits(), "{value:e}");
    }
    assert!(f32::from_bits(narrow(f64::NAN.to_bits())).is_nan());
}

#[test]
fn whole_numbers_are_read_from_doubles() {
    assert_eq!(double_whole_bits(3.0_f64.to_bits()), Some(3));
    assert_eq!(double_whole_bits(4_503_599_627_370_497.0_f64.to_bits()), Some(4_503_599_627_370_497));
    assert_eq!(double_whole_bits(2.5_f64.to_bits()), None);
    assert_eq!(double_whole_bits(1.8e19_f64.to_bits()), Some(18_000_000_000_000_000_000));
    assert_eq!(double_whole_bits(1.9e19_f64.to_bits()), None);
    assert_eq!(double_whole_bits((-0.0_f64).to_bits()), Some(0));
    assert_eq!(double_whole_bits(1.0e-300_f64.to_bits()), None);
}

#[test]
fn integers_convert_like_the_language_converts_them() {
    let mut state = 0xDEAD_BEEF_u64;
    let mut whole = vec![0_u64, 1, 2, 3, 255, 16_777_215, 16_777_216, 16_777_217, 16_777_218, 16_777_219, u64::MAX, 1 << 63, (1 << 63) + 1];
    for _ in 0..2_000 {
        state = state.wrapping_mul(6_364_136_223_846_793_005).wrapping_add(1);
        whole.push(state);
        whole.push(state >> (state % 64));
    }
    for k in whole {
        assert_eq!(single_from_whole(k), (k as f32).to_bits(), "{k}");
    }
}

#[test]
fn powers_and_rounded_shifts() {
    assert_eq!(power_of_two(0), 1);
    assert_eq!(power_of_two(10), 1024);
    assert_eq!(power_of_two(64), 1_u128 << 64);
    assert_eq!(round_shift(5, 1), 2);
    assert_eq!(round_shift(7, 1), 4);
    assert_eq!(round_shift(6, 2), 2);
    assert_eq!(round_shift(10, 2), 2);
    assert_eq!(round_shift(11, 2), 3);
    assert_eq!(round_shift(u64::MAX, 63), 2);
}

#[test]
fn widening_on_bits_is_the_conversion() {
    for value in singles() {
        if value.is_nan() {
            assert!(f64::from_bits(widen(value.to_bits())).is_nan());
            continue;
        }
        assert_eq!(widen(value.to_bits()), f64::from(value).to_bits(), "{value:e}");
        assert_eq!(narrow(widen(value.to_bits())), value.to_bits(), "{value:e}");
    }
    for fraction in 1..2_000_u32 {
        let value = f32::from_bits(fraction * 4_111);
        assert_eq!(widen(value.to_bits()), f64::from(value).to_bits(), "{value:e}");
    }
}
