use raytracer::scalar::Scalar;

fn s(x: f64) -> Scalar {
    Scalar::from_bits(x.to_bits())
}

fn samples() -> Vec<f64> {
    vec![
        0.0,
        -0.0,
        1.0,
        -1.0,
        0.5,
        -0.5,
        0.001,
        0.999,
        2.0,
        255.744,
        65535.0,
        65535.9,
        65536.0,
        1.0e300,
        -1.0e300,
        f64::MAX,
        f64::MIN,
        f64::MIN_POSITIVE,
        -f64::MIN_POSITIVE,
        f64::MIN_POSITIVE / 2.0,
        5.0e-324,
        -5.0e-324,
        f64::INFINITY,
        f64::NEG_INFINITY,
        f64::NAN,
        -f64::NAN,
        1.0 + f64::EPSILON,
        1.0 - f64::EPSILON / 2.0,
    ]
}

#[test]
fn from_bits_and_to_bits_are_inverse() {
    for x in samples() {
        assert_eq!(s(x).to_bits(), x.to_bits());
    }
    assert_eq!(Scalar::from_bits(0x4000_0000_0000_0000).to_bits(), 2.0f64.to_bits());
}

#[test]
fn constants_have_their_patterns() {
    assert_eq!(Scalar::zero().to_bits(), 0.0f64.to_bits());
    assert_eq!(Scalar::one().to_bits(), 1.0f64.to_bits());
    assert_eq!(Scalar::infinity().to_bits(), f64::INFINITY.to_bits());
    assert_eq!(Scalar::default().to_bits(), f64::default().to_bits());
}

#[test]
fn lt_agrees_with_binary64_on_every_pair() {
    for a in samples() {
        for b in samples() {
            assert_eq!(s(a).lt(s(b)), a < b, "{:?} < {:?}", a, b);
        }
    }
}

#[test]
fn le_agrees_with_binary64_on_every_pair() {
    for a in samples() {
        for b in samples() {
            assert_eq!(s(a).le(s(b)), a <= b, "{:?} <= {:?}", a, b);
        }
    }
}

#[test]
fn zeros_compare_equal_and_nan_compares_with_nothing() {
    assert!(!s(-0.0).lt(s(0.0)));
    assert!(!s(0.0).lt(s(-0.0)));
    assert!(s(-0.0).le(s(0.0)));
    assert!(s(0.0).le(s(-0.0)));
    assert!(!s(f64::NAN).lt(s(f64::INFINITY)));
    assert!(!s(f64::NEG_INFINITY).lt(s(f64::NAN)));
    assert!(!s(f64::NAN).le(s(f64::NAN)));
}

#[test]
fn infinity_is_above_every_finite_scalar() {
    assert!(s(f64::MAX).lt(Scalar::infinity()));
    assert!(s(f64::NEG_INFINITY).lt(s(f64::MIN)));
    assert!(!Scalar::infinity().lt(Scalar::infinity()));
}

#[test]
fn is_nan_agrees_with_binary64() {
    for x in samples() {
        assert_eq!(s(x).is_nan(), x.is_nan(), "{:?}", x);
    }
}

#[test]
fn is_sign_negative_agrees_with_binary64() {
    for x in samples() {
        assert_eq!(s(x).is_sign_negative(), x.is_sign_negative(), "{:?}", x);
    }
    assert!(s(-0.0).is_sign_negative());
    assert!(!s(0.0).is_sign_negative());
}

#[test]
fn neg_agrees_with_binary64() {
    for x in samples() {
        assert_eq!((-s(x)).to_bits(), (-x).to_bits(), "{:?}", x);
    }
    assert_eq!((-s(1.5)).to_bits(), (-1.5f64).to_bits());
    assert_eq!((-s(0.0)).to_bits(), (-0.0f64).to_bits());
}

#[test]
fn neg_twice_is_the_scalar_itself() {
    for x in samples() {
        assert_eq!((-(-s(x))).to_bits(), x.to_bits());
    }
}

#[test]
fn trunc_u16_agrees_with_the_cast() {
    for x in samples() {
        assert_eq!(s(x).trunc_u16(), x as u16, "{:?}", x);
    }
    assert_eq!(s(3.99).trunc_u16(), 3);
    assert_eq!(s(255.744).trunc_u16(), 255);
    assert_eq!(s(-7.0).trunc_u16(), 0);
    assert_eq!(s(70000.0).trunc_u16(), 65535);
    assert_eq!(s(f64::NAN).trunc_u16(), 0);
}

#[test]
fn whole_is_the_whole_part_of_the_scaled_magnitude() {
    assert_eq!(s(1.0).whole(8, 1000), 256);
    assert_eq!(s(0.5).whole(8, 1000), 128);
    assert_eq!(s(0.999).whole(8, 1000), 255);
    assert_eq!(s(0.999).whole(0, 1000), 0);
    assert_eq!(s(-2.75).whole(0, 1000), 2);
    assert_eq!(s(-2.75).whole(2, 1000), 11);
    assert_eq!(s(5.0e-324).whole(8, 1000), 0);
    assert_eq!(s(1.0e300).whole(0, 1000), 1000);
    assert_eq!(s(f64::INFINITY).whole(0, 7), 7);
    assert_eq!(s(4096.0).whole(0, 4096), 4096);
    assert_eq!(s(4097.5).whole(0, 4096), 4096);
}

#[test]
fn whole_is_exact_up_to_the_largest_cap() {
    let two_to_60 = (1u64 << 60) as f64;
    assert_eq!(s(two_to_60).whole(0, u64::MAX), 1 << 60);
    assert_eq!(s(two_to_60).whole(3, u64::MAX), 1 << 63);
    assert_eq!(s(two_to_60).whole(4, u64::MAX), u64::MAX);
    assert_eq!(s(9007199254740991.0).whole(0, u64::MAX), 9007199254740991);
    assert_eq!(s(9007199254740991.0).whole(11, u64::MAX), 9007199254740991 << 11);
    assert_eq!(s(1.0e300).whole(0, u64::MAX), u64::MAX);
    assert_eq!(s(f64::INFINITY).whole(255, u64::MAX), u64::MAX);
    assert_eq!(s(5.0e-324).whole(255, u64::MAX), 0);
    assert_eq!(s(0.75).whole(2, u64::MAX), 3);
}

#[test]
fn whole_agrees_with_floor_on_a_sweep() {
    let mut x = 0.0f64;
    while x < 300.0 {
        let expected = (x * 4.0).floor().min(1000.0) as u64;
        assert_eq!(s(x).whole(2, 1000), expected, "{:?}", x);
        x += 0.173;
    }
}
