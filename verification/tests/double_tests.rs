use pathtracer::double::{
    Double, EPSILON, HALF, INFINITY_BITS, MINUS_ONE, ONE, SIGN_BIT, TRIG_LIMIT, TWO,
};
use pathtracer::rtweekend::{degrees_to_radius, lerp, random_double, random_double_range, unit_draw, PI};

fn d(x: f64) -> Double {
    Double::from_bits(x.to_bits())
}

fn f(x: Double) -> f64 {
    f64::from_bits(x.to_bits())
}

/// Whether the library's double is the hardware's: the same pattern, or a
/// NaN where the hardware has one.
fn same(ours: Double, theirs: f64) -> bool {
    if theirs.is_nan() {
        ours.is_nan()
    } else {
        ours.to_bits() == theirs.to_bits()
    }
}

/// Whether a product is the hardware's. Where the hardware's product is
/// subnormal, the last bit of the software's may be rounded the other way.
fn same_product(ours: Double, theirs: f64) -> bool {
    if theirs != 0.0 && theirs.abs() < f64::MIN_POSITIVE {
        ours.to_bits().abs_diff(theirs.to_bits()) <= 1
    } else {
        same(ours, theirs)
    }
}

fn landmarks() -> Vec<f64> {
    vec![
        0.0,
        -0.0,
        1.0,
        -1.0,
        0.1,
        0.5,
        1.5,
        2.0,
        3.0,
        -7.25,
        0.999,
        0.001,
        256.0,
        1.0 / 3.0,
        std::f64::consts::PI,
        123456.789,
        1e-20,
        1e-300,
        1e300,
        5e-324,
        -5e-324,
        2.2250738585072014e-308,
        2.225073858507201e-308,
        f64::MAX,
        f64::MIN,
        f64::EPSILON,
        f64::INFINITY,
        f64::NEG_INFINITY,
        f64::NAN,
        4503599627370496.0,
        9007199254740993.0,
        2147483647.0,
        -2147483648.0,
        2147483648.5,
        0.49999999999999994,
    ]
}

/// A stream of patterns that covers every class of double.
fn patterns(count: usize) -> Vec<u64> {
    let mut state: u64 = 0x9E37_79B9_7F4A_7C15;
    let mut out = Vec::new();
    for i in 0..count {
        state ^= state << 13;
        state ^= state >> 7;
        state ^= state << 17;
        let word = match i % 4 {
            // any pattern at all
            0 => state,
            // a moderate magnitude
            1 => (state & 0x800F_FFFF_FFFF_FFFF) | ((1000 + (state >> 52) % 48) << 52),
            // near 1
            2 => (state & 0x800F_FFFF_FFFF_FFFF) | ((1020 + (state >> 52) % 6) << 52),
            // a subnormal or a small normal
            _ => state & 0x801F_FFFF_FFFF_FFFF,
        };
        out.push(word);
    }
    out
}

#[test]
fn constants_are_the_patterns_of_their_values() {
    assert_eq!(ONE, 1.0f64.to_bits());
    assert_eq!(TWO, 2.0f64.to_bits());
    assert_eq!(HALF, 0.5f64.to_bits());
    assert_eq!(MINUS_ONE, (-1.0f64).to_bits());
    assert_eq!(EPSILON, f64::EPSILON.to_bits());
    assert_eq!(INFINITY_BITS, f64::INFINITY.to_bits());
    assert_eq!(SIGN_BIT, (-0.0f64).to_bits());
    assert_eq!(TRIG_LIMIT, 1048576.0f64.to_bits());
    assert_eq!(PI, std::f64::consts::PI.to_bits());
}

#[test]
fn sum_of_two_and_three_is_five() {
    assert_eq!((d(2.0) + d(3.0)).to_bits(), 5.0f64.to_bits());
    assert_eq!((d(0.1) + d(0.2)).to_bits(), 0.30000000000000004f64.to_bits());
}

#[test]
fn difference_product_and_quotient_have_their_values() {
    assert_eq!((d(2.0) - d(3.0)).to_bits(), (-1.0f64).to_bits());
    assert_eq!((d(2.0) * d(3.0)).to_bits(), 6.0f64.to_bits());
    assert_eq!((d(3.0) / d(2.0)).to_bits(), 1.5f64.to_bits());
    assert_eq!((d(1.0) / d(3.0)).to_bits(), 0.3333333333333333f64.to_bits());
    assert_eq!((d(1.0) / d(0.0)).to_bits(), f64::INFINITY.to_bits());
    assert!((d(0.0) / d(0.0)).is_nan());
}

#[test]
fn arithmetic_agrees_with_the_hardware_on_landmarks() {
    let values = landmarks();
    for &a in values.iter() {
        for &b in values.iter() {
            assert!(same(d(a) + d(b), a + b), "{:?} + {:?}", a, b);
            assert!(same(d(a) - d(b), a - b), "{:?} - {:?}", a, b);
            assert!(same_product(d(a) * d(b), a * b), "{:?} * {:?}", a, b);
            assert!(same(d(a) / d(b), a / b), "{:?} / {:?}", a, b);
        }
    }
}

#[test]
fn arithmetic_agrees_with_the_hardware_on_a_sweep() {
    let words = patterns(20000);
    for pair in words.chunks(2) {
        let a = f64::from_bits(pair[0]);
        let b = f64::from_bits(pair[1]);
        assert!(same(d(a) + d(b), a + b), "{:?} + {:?}", a, b);
        assert!(same(d(a) - d(b), a - b), "{:?} - {:?}", a, b);
        assert!(same_product(d(a) * d(b), a * b), "{:?} * {:?}", a, b);
        assert!(same(d(a) / d(b), a / b), "{:?} / {:?}", a, b);
    }
}

#[test]
fn a_subnormal_product_is_within_one_unit_in_the_last_place() {
    let a = 2.3911501123983804e-305f64;
    let b = 1.2621605835228957e-7f64;
    let ours = (d(a) * d(b)).to_bits();
    assert!(ours.abs_diff((a * b).to_bits()) <= 1);
    assert_eq!((d(5e-324) * d(2.0)).to_bits(), 1e-323f64.to_bits());
    assert_eq!((d(1e-200) * d(1e-200)).to_bits(), 0.0f64.to_bits());
}

#[test]
fn adding_a_zero_leaves_a_number_as_it_is() {
    let mut values = landmarks();
    for &word in patterns(4000).iter() {
        values.push(f64::from_bits(word));
    }
    for &a in values.iter() {
        for zero in [0.0f64, -0.0] {
            let sum = d(a) + d(zero);
            let difference = d(a) - d(zero);
            if a.is_nan() {
                assert!(sum.is_nan() && difference.is_nan());
                assert!((d(zero) + d(a)).is_nan());
            } else if a == 0.0 {
                assert!(sum.is_zero() && difference.is_zero());
            } else {
                assert_eq!(sum.to_bits(), a.to_bits());
                assert_eq!(difference.to_bits(), a.to_bits());
            }
        }
    }
}

#[test]
fn a_finite_number_and_its_opposite_cancel_to_the_positive_zero() {
    let mut values = landmarks();
    for &word in patterns(4000).iter() {
        values.push(f64::from_bits(word));
    }
    for &a in values.iter() {
        if a.is_finite() {
            assert_eq!((d(a) + d(a).neg()).to_bits(), 0, "{:?}", a);
            assert_eq!((d(a) - d(a)).to_bits(), 0, "{:?}", a);
        } else {
            assert!((d(a) - d(a)).is_nan());
        }
    }
}

#[test]
fn a_zero_times_a_finite_number_is_a_zero() {
    let mut values = landmarks();
    for &word in patterns(4000).iter() {
        values.push(f64::from_bits(word));
    }
    for &a in values.iter() {
        for zero in [0.0f64, -0.0] {
            if a.is_finite() {
                assert!((d(zero) * d(a)).is_zero(), "{:?}", a);
                assert!((d(a) * d(zero)).is_zero(), "{:?}", a);
            } else {
                assert!((d(zero) * d(a)).is_nan());
            }
        }
    }
}

#[test]
fn a_positive_power_of_a_zero_is_a_zero() {
    for n in [1, 2, 5, 8, i32::MAX] {
        assert!(d(0.0).powi(n).is_zero());
        assert!(d(-0.0).powi(n).is_zero());
    }
    assert_eq!(d(0.0).powi(0).to_bits(), 1.0f64.to_bits());
    assert_eq!(d(0.0).powi(-1).to_bits(), f64::INFINITY.to_bits());
    assert_eq!(d(2.0).powi(i32::MIN).to_bits(), 0.0f64.to_bits());
    assert_eq!(d(1.0).powi(i32::MIN).to_bits(), 1.0f64.to_bits());
    assert_eq!(d(-1.0).powi(i32::MAX).to_bits(), (-1.0f64).to_bits());
}

#[test]
fn square_root_has_its_value() {
    assert_eq!(d(9.0).sqrt().to_bits(), 3.0f64.to_bits());
    assert_eq!(d(2.0).sqrt().to_bits(), 1.4142135623730951f64.to_bits());
    assert_eq!(d(0.0).sqrt().to_bits(), 0.0f64.to_bits());
    assert!(d(-1.0).sqrt().is_nan());
}

#[test]
fn square_root_agrees_with_the_hardware() {
    for &a in landmarks().iter() {
        assert!(same(d(a).sqrt(), a.sqrt()), "sqrt {:?}", a);
    }
    for &word in patterns(10000).iter() {
        let a = f64::from_bits(word);
        assert!(same(d(a).sqrt(), a.sqrt()), "sqrt {:?}", a);
    }
}

#[test]
fn the_root_of_a_subnormal_is_taken_of_the_raised_number() {
    let two_to_64 = 18446744073709551616.0f64;
    let mut words: Vec<u64> = vec![
        1,
        2,
        3,
        0x3FF,
        0x400,
        0x555,
        0x7FF,
        0x800,
        0x7FFF_0000,
        0x7FFF_FFFF,
        0x8000_0000,
        0x8000_0001,
        0xC000_0000,
        0xDEAD_BEEF,
        0xFFFF_FFFE,
        0xFFFF_FFFF,
        0x1_0000_0000,
        0x1_0000_0001,
        0x8_0000_0000_0000,
        0xF_FFFF_FFFF_FFFE,
        0xF_FFFF_FFFF_FFFF,
    ];
    for shift in 0..52 {
        words.push(1u64 << shift);
        words.push((1u64 << shift) | 1);
        words.push((2u64 << shift) - 1);
    }
    for &word in patterns(6000).iter() {
        words.push(0x400 | (word >> 54));
        words.push(0x8000_0000 | (word >> 33));
        words.push(1 | ((word >> 12) >> (word % 52)));
    }
    for &word in words.iter() {
        let x = f64::from_bits(word);
        assert!(word > 0 && word < (1u64 << 52));
        assert!(Double::from_bits(word).is_raised_for_root(), "{:#x}", word);
        let raised = Double::from_bits(word).raised();
        assert_eq!(raised.to_bits(), (x * two_to_64).to_bits(), "{:#x}", word);
        assert!(!raised.is_raised_for_root());
        assert_eq!(Double::from_bits(word).sqrt().to_bits(), x.sqrt().to_bits(), "{:#x}", word);
    }
}

#[test]
fn only_positive_subnormals_are_raised_for_the_root() {
    for word in [
        0u64,
        0x0010_0000_0000_0000,
        0x0010_0000_0000_0001,
        0x3FF0_0000_0000_0000,
        0x7FF0_0000_0000_0000,
        0x7FF8_0000_0000_0000,
        0x8000_0000_0000_0000,
        0x8000_0000_0000_0001,
        0x8000_0000_0000_0555,
        0x8000_0000_8000_0000,
        0x800F_FFFF_FFFF_FFFF,
        0xBFF0_0000_0000_0000,
    ] {
        let x = f64::from_bits(word);
        assert!(!Double::from_bits(word).is_raised_for_root(), "{:#x}", word);
        assert!(same(Double::from_bits(word).sqrt(), x.sqrt()), "{:#x}", word);
    }
    assert!(Double::from_bits(0x8000_0000_8000_0000).sqrt().is_nan());
    assert!(Double::from_bits(0x8000_0000_0000_0555).sqrt().is_nan());
}

#[test]
fn the_root_of_a_zero_is_itself_and_of_a_negative_number_no_number() {
    assert_eq!(d(0.0).sqrt().to_bits(), 0.0f64.to_bits());
    assert_eq!(d(-0.0).sqrt().to_bits(), (-0.0f64).to_bits());
    let mut values = landmarks();
    for &word in patterns(4000).iter() {
        values.push(f64::from_bits(word));
    }
    for &a in values.iter() {
        if a.is_sign_negative() && a != 0.0 {
            assert!(d(a).sqrt().is_nan(), "{:?}", a);
        }
    }
}

#[test]
fn a_nan_gives_a_nan_in_products_and_quotients() {
    let mut values = landmarks();
    for &word in patterns(2000).iter() {
        values.push(f64::from_bits(word));
    }
    for &quiet in [f64::NAN, -f64::NAN, f64::from_bits(0x7FF0_0000_0000_0001)].iter() {
        for &a in values.iter() {
            assert!((d(a) * d(quiet)).is_nan());
            assert!((d(quiet) * d(a)).is_nan());
            assert!((d(a) / d(quiet)).is_nan());
            assert!((d(quiet) / d(a)).is_nan());
        }
    }
}

#[test]
fn a_zero_over_a_number_that_is_not_a_zero_is_a_zero() {
    let mut values = landmarks();
    for &word in patterns(4000).iter() {
        values.push(f64::from_bits(word));
    }
    for &a in values.iter() {
        for zero in [0.0f64, -0.0] {
            if a.is_nan() || a == 0.0 {
                assert!((d(zero) / d(a)).is_nan());
            } else {
                assert!((d(zero) / d(a)).is_zero(), "{:?}", a);
            }
        }
    }
}

#[test]
fn integer_power_has_its_value() {
    assert_eq!(d(2.0).powi(5).to_bits(), 32.0f64.to_bits());
    assert_eq!(d(0.5).powi(5).to_bits(), 0.03125f64.to_bits());
    assert_eq!(d(3.0).powi(0).to_bits(), 1.0f64.to_bits());
    assert_eq!(d(2.0).powi(-2).to_bits(), 0.25f64.to_bits());
    assert_eq!(d(0.0).powi(5).to_bits(), 0.0f64.to_bits());
}

#[test]
fn fifth_power_is_the_product_by_repeated_squaring() {
    for &a in landmarks().iter() {
        let expected = a * ((a * a) * (a * a));
        assert!(same(d(a).powi(5), expected), "powi {:?}", a);
    }
}

#[test]
fn sine_and_cosine_have_their_values() {
    assert_eq!(d(0.0).cos().to_bits(), 1.0f64.to_bits());
    assert!((f(d(1.0).sin()) - 0.8414709848078965).abs() < 1e-15);
    assert!((f(d(1.0).cos()) - 0.5403023058681398).abs() < 1e-15);
    assert!((f(d(std::f64::consts::FRAC_PI_6).sin()) - 0.5).abs() < 1e-15);
    assert!((f(d(-2.5).sin()) - (-2.5f64).sin()).abs() < 1e-15);
    assert!((f(d(1000.0).cos()) - 1000.0f64.cos()).abs() < 1e-15);
    assert!((f(d(1048575.0).sin()) - 1048575.0f64.sin()).abs() < 1e-15);
}

#[test]
fn sine_and_cosine_stay_close_to_the_hardware_below_the_limit() {
    for &word in patterns(20000).iter() {
        let x = ((word >> 11) as f64 / (1u64 << 53) as f64) * 2097152.0 - 1048576.0;
        if x.abs() < 1048576.0 {
            assert!((f(d(x).sin()) - x.sin()).abs() < 1e-15, "sin {:?}", x);
            assert!((f(d(x).cos()) - x.cos()).abs() < 1e-15, "cos {:?}", x);
        }
        let small = x / 1048576.0 * 4.0;
        assert!((f(d(small).sin()) - small.sin()).abs() < 1e-15, "sin {:?}", small);
        assert!((f(d(small).cos()) - small.cos()).abs() < 1e-15, "cos {:?}", small);
    }
    for x in [0.0f64, -0.0, 5e-324, 1e-300, 1e-10, 1048575.9999] {
        assert!((f(d(x).sin()) - x.sin()).abs() < 1e-15);
        assert!((f(d(x).cos()) - x.cos()).abs() < 1e-15);
    }
}

#[test]
fn tangent_is_sine_over_cosine() {
    let x = d(0.3);
    assert_eq!(x.tan().to_bits(), (x.sin() / x.cos()).to_bits());
    assert!((f(x.tan()) - 0.3f64.tan()).abs() < 1e-15);
    assert!((f(d(std::f64::consts::FRAC_PI_4).tan()) - 1.0).abs() < 1e-15);
}

#[test]
fn negation_flips_the_sign_bit_only() {
    for &a in landmarks().iter() {
        assert_eq!(d(a).neg().to_bits(), a.to_bits() ^ SIGN_BIT);
        assert_eq!(d(a).abs().to_bits(), a.to_bits() & !SIGN_BIT);
        assert_eq!(d(a).magnitude(), a.to_bits() & !SIGN_BIT);
        assert_eq!(d(a).is_sign_negative(), a.is_sign_negative());
    }
    assert_eq!(d(1.5).neg().to_bits(), (-1.5f64).to_bits());
    assert_eq!(d(-1.5).abs().to_bits(), 1.5f64.to_bits());
}

#[test]
fn classification_agrees_with_the_hardware() {
    for &a in landmarks().iter() {
        assert_eq!(d(a).is_nan(), a.is_nan(), "{:?}", a);
        assert_eq!(d(a).is_finite(), a.is_finite(), "{:?}", a);
        assert_eq!(d(a).is_zero(), a == 0.0, "{:?}", a);
    }
    for &word in patterns(4000).iter() {
        let a = f64::from_bits(word);
        assert_eq!(d(a).is_nan(), a.is_nan(), "{:?}", a);
        assert_eq!(d(a).is_finite(), a.is_finite(), "{:?}", a);
        assert_eq!(d(a).is_zero(), a == 0.0, "{:?}", a);
    }
}

#[test]
fn ordering_agrees_with_the_hardware() {
    let mut values = landmarks();
    for &word in patterns(200).iter() {
        values.push(f64::from_bits(word));
    }
    for &a in values.iter() {
        for &b in values.iter() {
            assert_eq!(d(a).lt(d(b)), a < b, "{:?} < {:?}", a, b);
            assert_eq!(d(a).le(d(b)), a <= b, "{:?} <= {:?}", a, b);
            assert_eq!(d(a).gt(d(b)), a > b, "{:?} > {:?}", a, b);
            assert_eq!(d(a).ge(d(b)), a >= b, "{:?} >= {:?}", a, b);
        }
    }
}

#[test]
fn the_two_zeros_are_equal_and_a_nan_is_unordered() {
    assert!(d(0.0).le(d(-0.0)));
    assert!(d(-0.0).le(d(0.0)));
    assert!(!d(-0.0).lt(d(0.0)));
    assert!(!d(f64::NAN).le(d(f64::NAN)));
    assert!(!d(f64::NAN).lt(d(1.0)));
    assert!(!d(1.0).lt(d(f64::NAN)));
    assert!(d(f64::NEG_INFINITY).lt(d(f64::MIN)));
    assert!(d(f64::MAX).lt(d(f64::INFINITY)));
}

#[test]
fn min_takes_the_lesser_and_passes_over_a_nan() {
    assert_eq!(d(0.5).min(d(1.0)).to_bits(), 0.5f64.to_bits());
    assert_eq!(d(1.5).min(d(1.0)).to_bits(), 1.0f64.to_bits());
    assert_eq!(d(f64::NAN).min(d(1.0)).to_bits(), 1.0f64.to_bits());
    assert_eq!(d(0.25).min(d(f64::NAN)).to_bits(), 0.25f64.to_bits());
    assert!(d(f64::NAN).min(d(f64::NAN)).is_nan());
    for &a in landmarks().iter() {
        for &b in landmarks().iter() {
            if a == 0.0 && b == 0.0 {
                assert!(d(a).min(d(b)).is_zero());
            } else {
                assert!(same(d(a).min(d(b)), a.min(b)), "{:?} min {:?}", a, b);
            }
        }
    }
}

#[test]
fn clamp_holds_a_value_between_its_bounds() {
    assert_eq!(d(-0.5).clamp(d(0.0), d(0.999)).to_bits(), 0.0f64.to_bits());
    assert_eq!(d(0.25).clamp(d(0.0), d(0.999)).to_bits(), 0.25f64.to_bits());
    assert_eq!(d(7.0).clamp(d(0.0), d(0.999)).to_bits(), 0.999f64.to_bits());
    assert_eq!(d(0.999).clamp(d(0.0), d(0.999)).to_bits(), 0.999f64.to_bits());
    assert!(d(f64::NAN).clamp(d(0.0), d(0.999)).is_nan());
    for &a in landmarks().iter() {
        assert!(same(d(a).clamp(d(-1.0), d(2.0)), a.clamp(-1.0, 2.0)), "{:?}", a);
    }
}

#[test]
fn every_small_integer_has_its_double() {
    assert_eq!(Double::from_i32(0).to_bits(), 0.0f64.to_bits());
    assert_eq!(Double::from_i32(1).to_bits(), 1.0f64.to_bits());
    assert_eq!(Double::from_i32(3).to_bits(), 0x4008_0000_0000_0000);
    assert_eq!(Double::from_i32(-11).to_bits(), (-11.0f64).to_bits());
    assert_eq!(Double::from_i32(500).to_bits(), 500.0f64.to_bits());
    assert_eq!(Double::from_i32(i32::MAX).to_bits(), 2147483647.0f64.to_bits());
    assert_eq!(Double::from_i32(i32::MIN).to_bits(), (-2147483648.0f64).to_bits());
    for n in -70000..70000 {
        assert_eq!(Double::from_i32(n).to_bits(), (n as f64).to_bits());
        assert_eq!(Double::from_i32(n).to_i32(), n);
    }
    for n in [i32::MIN, i32::MIN + 1, -1, 0, 1, i32::MAX - 1, i32::MAX] {
        assert_eq!(Double::from_i32(n).to_i32(), n);
    }
    let mut n: i32 = 1;
    for _ in 0..31 {
        for m in [n, n - 1, n.wrapping_add(1), -n, 1 - n] {
            assert_eq!(Double::from_i32(m).to_bits(), (m as f64).to_bits());
        }
        n = n.wrapping_mul(2);
    }
}

#[test]
fn truncation_drops_the_fraction_and_saturates() {
    assert_eq!(d(0.0).to_i32(), 0);
    assert_eq!(d(0.999).to_i32(), 0);
    assert_eq!(d(1.0).to_i32(), 1);
    assert_eq!(d(255.744).to_i32(), 255);
    assert_eq!(d(-255.744).to_i32(), -255);
    assert_eq!(d(-0.5).to_i32(), 0);
    assert_eq!(d(2147483647.0).to_i32(), i32::MAX);
    assert_eq!(d(2147483646.9).to_i32(), 2147483646);
    assert_eq!(d(2147483648.0).to_i32(), i32::MAX);
    assert_eq!(d(-2147483648.0).to_i32(), i32::MIN);
    assert_eq!(d(-2147483648.9).to_i32(), i32::MIN);
    assert_eq!(d(-2147483647.5).to_i32(), -2147483647);
    assert_eq!(d(1e300).to_i32(), i32::MAX);
    assert_eq!(d(f64::INFINITY).to_i32(), i32::MAX);
    assert_eq!(d(f64::NEG_INFINITY).to_i32(), i32::MIN);
    assert_eq!(d(f64::NAN).to_i32(), 0);
    assert_eq!(d(5e-324).to_i32(), 0);
    for &a in landmarks().iter() {
        assert_eq!(d(a).to_i32(), a as i32, "{:?}", a);
    }
    for &word in patterns(20000).iter() {
        let a = f64::from_bits(word);
        assert_eq!(d(a).to_i32(), a as i32, "{:?}", a);
    }
}

#[test]
fn a_unit_fraction_is_its_numerator_over_two_to_the_53rd() {
    let scale = 1.0 / ((1u64 << 53) as f64);
    assert_eq!(Double::from_unit_fraction(0).to_bits(), 0);
    assert_eq!(Double::from_unit_fraction(1).to_bits(), scale.to_bits());
    assert_eq!(Double::from_unit_fraction(1 << 52).to_bits(), 0.5f64.to_bits());
    assert_eq!(
        Double::from_unit_fraction((1 << 53) - 1).to_bits(),
        0.9999999999999999f64.to_bits()
    );
    for &word in patterns(5000).iter() {
        let numerator = word >> 11;
        assert_eq!(
            Double::from_unit_fraction(numerator).to_bits(),
            (scale * numerator as f64).to_bits()
        );
    }
}

#[test]
fn a_unit_draw_takes_the_upper_53_bits_of_the_word() {
    let scale = 1.0 / ((1u64 << 53) as f64);
    assert_eq!(unit_draw(0).to_bits(), 0);
    assert_eq!(unit_draw(2047).to_bits(), 0);
    assert_eq!(unit_draw(2048).to_bits(), scale.to_bits());
    assert_eq!(unit_draw(1 << 63).to_bits(), 0.5f64.to_bits());
    assert_eq!(unit_draw(u64::MAX).to_bits(), 0.9999999999999999f64.to_bits());
    for &word in patterns(5000).iter() {
        assert_eq!(unit_draw(word).to_bits(), (scale * (word >> 11) as f64).to_bits());
    }
}

#[test]
fn random_doubles_lie_in_the_unit_interval() {
    let mut distinct = 0;
    let first = random_double().to_bits();
    for _ in 0..2000 {
        let u = random_double();
        assert!(f(u) >= 0.0 && f(u) < 1.0);
        assert!(u.to_bits() < ONE);
        if u.to_bits() != first {
            distinct += 1;
        }
    }
    assert!(distinct > 0);
}

#[test]
fn random_doubles_in_a_range_lie_in_it() {
    for _ in 0..2000 {
        let x = f(random_double_range(d(-1.0), d(1.0)));
        assert!(x >= -1.0 && x < 1.0);
        let y = f(random_double_range(d(0.5), d(1.0)));
        assert!(y >= 0.5 && y <= 1.0);
    }
}

#[test]
fn lerp_is_min_plus_span_times_draw() {
    assert_eq!(lerp(d(-1.0), d(1.0), d(0.25)).to_bits(), (-0.5f64).to_bits());
    assert_eq!(lerp(d(0.5), d(1.0), d(0.5)).to_bits(), 0.75f64.to_bits());
    assert_eq!(lerp(d(2.0), d(4.0), d(0.0)).to_bits(), 2.0f64.to_bits());
    let (min, max, u) = (0.3f64, 7.7f64, 0.123f64);
    assert_eq!(lerp(d(min), d(max), d(u)).to_bits(), (min + (max - min) * u).to_bits());
}

#[test]
fn degrees_become_radians() {
    assert_eq!(degrees_to_radius(d(180.0)).to_bits(), std::f64::consts::PI.to_bits());
    assert_eq!(degrees_to_radius(d(0.0)).to_bits(), 0.0f64.to_bits());
    assert_eq!(
        degrees_to_radius(d(20.0)).to_bits(),
        (20.0f64 * std::f64::consts::PI / 180.0).to_bits()
    );
    assert_eq!(degrees_to_radius(d(90.0)).to_bits(), std::f64::consts::FRAC_PI_2.to_bits());
}
