use quantum_sentry::num::{Double, Single};

fn d(x: f64) -> Double {
    Double::from_bits(x.to_bits())
}

fn f(x: f32) -> Single {
    Single::from_bits(x.to_bits())
}

fn wide(x: Double) -> f64 {
    f64::from_bits(x.to_bits())
}

fn value(x: Single) -> f32 {
    f32::from_bits(x.to_bits())
}

fn agree(x: Double, y: f64) -> bool {
    if y.is_nan() {
        x.is_nan()
    } else {
        x.to_bits() == y.to_bits()
    }
}

fn agree_single(x: Single, y: f32) -> bool {
    if y.is_nan() {
        x.is_nan()
    } else {
        x.to_bits() == y.to_bits()
    }
}

fn next(state: &mut u64) -> u64 {
    *state = state.wrapping_mul(6364136223846793005).wrapping_add(1442695040888963407);
    let x = *state ^ (*state >> 29);
    x.wrapping_mul(0xbf58476d1ce4e5b9)
}

fn sample(state: &mut u64) -> f64 {
    let special = [
        0.0,
        -0.0,
        1.0,
        -1.0,
        f64::INFINITY,
        f64::NEG_INFINITY,
        f64::NAN,
        f64::MIN_POSITIVE,
        f64::from_bits(1),
        f64::MAX,
        0.1,
        1e16,
    ];
    let pick = next(state);
    match pick % 4 {
        0 => special[(next(state) % 12) as usize],
        1 => f64::from_bits(next(state)),
        2 => (next(state) % 2_000_001) as f64 / 128.0 - 5000.0,
        _ => f64::from_bits((next(state) & 0x800f_ffff_ffff_ffff) | ((1000 + next(state) % 50) << 52)),
    }
}

fn sample_single(state: &mut u64) -> f32 {
    match next(state) % 3 {
        0 => f32::from_bits(next(state) as u32),
        1 => (next(state) % 2001) as f32 / 16.0 - 60.0,
        _ => f32::from_bits((next(state) as u32 & 0x807f_ffff) | ((120 + (next(state) % 16) as u32) << 23)),
    }
}

#[test]
fn sums_and_differences_are_the_machine_ones() {
    let mut s = 7;
    for _ in 0..4000 {
        let (a, b) = (sample(&mut s), sample(&mut s));
        assert!(agree(d(a).plus(d(b)), a + b), "{} + {}", a, b);
        assert!(agree(d(a).minus(d(b)), a - b), "{} - {}", a, b);
    }
}

#[test]
fn products_are_the_machine_ones() {
    let mut s = 11;
    for _ in 0..4000 {
        let (a, b) = (sample(&mut s), sample(&mut s));
        assert!(agree(d(a).times(d(b)), a * b), "{} * {}", a, b);
    }
}

#[test]
fn quotients_are_the_machine_ones() {
    let mut s = 13;
    for _ in 0..4000 {
        let (a, b) = (sample(&mut s), sample(&mut s));
        assert!(agree(d(a).over(d(b)), a / b), "{} / {}", a, b);
    }
}

#[test]
fn comparisons_are_the_machine_ones() {
    let mut s = 17;
    for _ in 0..4000 {
        let (a, b) = (sample(&mut s), sample(&mut s));
        assert_eq!(d(a).below(d(b)), a < b);
        assert_eq!(d(a).above(d(b)), a > b);
        assert_eq!(d(a).equals(d(b)), a == b);
        assert_eq!(d(a).within(d(b)), a <= b);
        assert_eq!(d(a).is_finite(), a.is_finite());
        assert_eq!(d(a).is_finite_positive(), a.is_finite() && a > 0.0);
        assert!(agree(d(a).magnitude(), a.abs()));
        assert!(agree(d(a).negate(), -a));
        if !(a == 0.0 && b == 0.0) {
            assert!(agree(d(a).largest(d(b)), a.max(b)));
            assert!(agree(d(a).smallest(d(b)), a.min(b)));
        }
    }
}

#[test]
fn single_arithmetic_is_the_machine_one() {
    let mut s = 19;
    for _ in 0..4000 {
        let (a, b) = (sample_single(&mut s), sample_single(&mut s));
        assert!(agree_single(f(a).plus(f(b)), a + b), "{} + {}", a, b);
        assert!(agree_single(f(a).minus(f(b)), a - b), "{} - {}", a, b);
        assert!(agree_single(f(a).over(f(b)), a / b), "{} / {}", a, b);
        assert_eq!(f(a).below(f(b)), a < b);
        assert_eq!(f(a).above(f(b)), a > b);
        assert_eq!(f(a).within(f(b)), a <= b);
        assert_eq!(f(a).equals(f(b)), a == b);
        assert!(agree_single(f(a).magnitude(), a.abs()));
        if !(a == 0.0 && b == 0.0) {
            assert!(agree_single(f(a).largest(f(b)), a.max(b)));
            assert!(agree_single(f(a).smallest(f(b)), a.min(b)));
        }
    }
}

#[test]
fn conversions_are_the_machine_ones() {
    let mut s = 23;
    for _ in 0..4000 {
        let a = sample(&mut s);
        let b = sample_single(&mut s);
        assert!(agree_single(d(a).to_single(), a as f32), "{}", a);
        assert!(agree(Double::from_single(f(b)), b as f64));
        assert_eq!(d(a).to_unsigned(), a as u64);
        let n = next(&mut s) >> (next(&mut s) % 64);
        assert!(agree(Double::from_unsigned(n), n as f64));
        assert!(agree(Double::from_signed(n as i64), n as i64 as f64));
    }
    assert!(agree(Double::from_signed(i64::MIN), i64::MIN as f64));
}

#[test]
fn ratios_are_correctly_rounded() {
    assert_eq!(wide(Double::ratio(1, 10)), 0.1);
    assert_eq!(wide(Double::ratio(4, 10_000)), 0.0004);
    assert_eq!(wide(Double::ratio(1005, 1000)), 1.005);
    assert_eq!(value(Single::ratio(62, 100)), 0.62);
    assert_eq!(value(Single::ratio(1, 3)), 1.0 / 3.0);
    assert_eq!(wide(Double::zero()), 0.0);
    assert_eq!(wide(Double::lowest()), f64::NEG_INFINITY);
    assert!(Single::nan().is_nan());
}

#[test]
fn decimal_texts_are_parsed_as_the_standard_library_does() {
    let texts = [
        "0", "-0", "+1", "1.", ".5", "1.5e3", "1E-7", "-2.5E+10", "123456789012345678901234567890",
        "0.1", "0.30000000000000004", "9007199254740993", "2.2250738585072011e-308", "4.9e-324",
        "2.4e-324", "2.5e-324", "1.7976931348623157e308", "1.7976931348623159e308", "1e309",
        "1e-400", "inf", "-INF", "Infinity", "nan", "NaN", "+nan", "infinit", "", "+", "-", ".",
        "e5", "1e", "1e+", " 1", "1 ", "1_000", "0x10", "1.2.3", "--1", "1e5.0", "00012.500",
        "1e99999999999999999999", "0e99999999999999999999", "1e-99999999999999999999",
        "50000.25", "0.0000001", "8.41e21", "5e-320", "179769313486231580793e289", "1,5",
    ];
    for t in texts {
        match t.parse::<f64>() {
            Ok(x) => assert!(Double::parse(t).map(|y| agree(y, x)) == Some(true), "{}", t),
            Err(_) => assert!(Double::parse(t).is_none(), "{}", t),
        }
        match t.parse::<f32>() {
            Ok(x) => assert!(Single::parse(t).map(|y| agree_single(y, x)) == Some(true), "{}", t),
            Err(_) => assert!(Single::parse(t).is_none(), "{}", t),
        }
    }
}

#[test]
fn printed_numbers_are_parsed_back() {
    let mut s = 29;
    for _ in 0..500 {
        let a = sample(&mut s);
        let printed = format!("{:e}", a);
        assert!(agree(Double::parse(&printed).unwrap(), a), "{}", printed);
        let b = sample_single(&mut s);
        let short = format!("{}", b);
        assert!(agree_single(Single::parse(&short).unwrap(), b), "{}", short);
    }
}

#[test]
fn sums_and_products_commute() {
    let mut s = 31;
    for _ in 0..500 {
        let (a, b) = (d(sample(&mut s)), d(sample(&mut s)));
        assert!(agree(a.plus(b), wide(b.plus(a))));
        assert!(agree(a.times(b), wide(b.times(a))));
    }
}
