//! Numbers held by their bit pattern, held against the numbers themselves.

use climate::models::number::{
    Float64, INFINITY_BITS, LATITUDE_LIMIT_BITS, LONGITUDE_LIMIT_BITS, SIGN_BIT,
};
use climate::datasources::nasa_power::FILL_VALUE_BITS;

fn number(x: f64) -> Float64 {
    Float64::from_bits(x.to_bits())
}

const SAMPLES: [f64; 26] = [
    0.0, -0.0, 1.0, -1.0, 45.0, 89.999999999, 90.0, -90.0, 90.00000000001, -90.00000000001, 95.0,
    -95.0, 179.9, 180.0, -180.0, 180.0000001, -181.0, 1e-320, -1e-320, 1e308, -1e308, f64::MAX,
    f64::MIN, f64::MIN_POSITIVE, f64::EPSILON, 123456.789,
];

#[test]
fn constants_are_the_patterns_they_are_named_after() {
    assert_eq!(LATITUDE_LIMIT_BITS, 90.0f64.to_bits());
    assert_eq!(LONGITUDE_LIMIT_BITS, 180.0f64.to_bits());
    assert_eq!(INFINITY_BITS, f64::INFINITY.to_bits());
    assert_eq!(SIGN_BIT, (-0.0f64).to_bits());
    assert_eq!(FILL_VALUE_BITS, (-999.0f64).to_bits());
}

#[test]
fn bits_go_in_and_come_out() {
    assert_eq!(number(52.5).to_bits(), 0x404A_4000_0000_0000);
    assert_eq!(Float64::from_bits(7).bits, 7);
    assert_eq!(number(-2.0).magnitude(), 2.0f64.to_bits());
    assert_eq!(number(2.0).magnitude(), 2.0f64.to_bits());
}

#[test]
fn finite_means_finite() {
    for x in SAMPLES {
        assert_eq!(number(x).is_finite(), x.is_finite(), "{}", x);
    }
    assert!(!number(f64::INFINITY).is_finite());
    assert!(!number(f64::NEG_INFINITY).is_finite());
    assert!(!number(f64::NAN).is_finite());
    assert!(!number(-f64::NAN).is_finite());
    assert!(!Float64::from_bits(0x7FF0_0000_0000_0001).is_finite());
    assert!(!Float64::from_bits(u64::MAX).is_finite());
}

#[test]
fn a_latitude_lies_between_minus_90_and_90() {
    for x in SAMPLES {
        assert_eq!(number(x).is_latitude(), (-90.0..=90.0).contains(&x), "{}", x);
    }
    for x in [f64::INFINITY, f64::NEG_INFINITY, f64::NAN] {
        assert!(!number(x).is_latitude());
    }
}

#[test]
fn a_longitude_lies_between_minus_180_and_180() {
    for x in SAMPLES {
        assert_eq!(number(x).is_longitude(), (-180.0..=180.0).contains(&x), "{}", x);
    }
    for x in [f64::INFINITY, f64::NEG_INFINITY, f64::NAN] {
        assert!(!number(x).is_longitude());
    }
}

#[test]
fn within_compares_magnitudes() {
    for x in SAMPLES {
        for limit in [0.0, 1.0, 90.0, 1e300] {
            assert_eq!(number(x).is_within(number(limit)), x.abs() <= limit, "{} {}", x, limit);
        }
    }
    assert!(!number(f64::NAN).is_within(number(f64::MAX)));
    assert!(!number(f64::INFINITY).is_within(number(f64::INFINITY)));
}
