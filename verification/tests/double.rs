use walk_scaling::double::DoubleBits;
use walk_scaling::double::INFINITY;
use walk_scaling::double::SIGN_BIT;

fn of(x: f64) -> DoubleBits {
    DoubleBits { bits: x.to_bits() }
}

#[test]
fn double_encodings_of_the_landmarks() {
    assert_eq!(SIGN_BIT, (-0.0f64).to_bits());
    assert_eq!(INFINITY, f64::INFINITY.to_bits());
    assert_eq!(SIGN_BIT + INFINITY, f64::NEG_INFINITY.to_bits());
}

#[test]
fn double_non_positive_agrees_with_comparison() {
    let values = [
        0.0,
        -0.0,
        1.0,
        -1.0,
        2.0,
        0.5,
        -0.5,
        1e-300,
        -1e-300,
        1e300,
        -1e300,
        f64::MIN_POSITIVE,
        -f64::MIN_POSITIVE,
        f64::MAX,
        f64::MIN,
        f64::EPSILON,
        f64::INFINITY,
        f64::NEG_INFINITY,
        f64::NAN,
        -f64::NAN,
        f64::from_bits(1),
        f64::from_bits(SIGN_BIT + 1),
        f64::from_bits(INFINITY - 1),
        f64::from_bits(INFINITY + 1),
        f64::from_bits(SIGN_BIT + INFINITY - 1),
        f64::from_bits(SIGN_BIT + INFINITY + 1),
        f64::from_bits(u64::MAX),
        f64::from_bits(SIGN_BIT - 1),
    ];
    for x in values {
        assert_eq!(of(x).non_positive(), x <= 0.0, "{:?}", x);
    }
}

#[test]
fn double_zeros_are_non_positive() {
    assert!(of(0.0).non_positive());
    assert!(of(-0.0).non_positive());
}

#[test]
fn double_nan_is_not_non_positive() {
    assert!(!of(f64::NAN).non_positive());
    assert!(!of(-f64::NAN).non_positive());
    assert!(!DoubleBits { bits: u64::MAX }.non_positive());
    assert!(!DoubleBits { bits: SIGN_BIT + INFINITY + 1 }.non_positive());
}

#[test]
fn double_infinities() {
    assert!(!of(f64::INFINITY).non_positive());
    assert!(of(f64::NEG_INFINITY).non_positive());
}
