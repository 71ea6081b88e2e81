use bigdecimal::num_bigint::BigInt;
use bigdecimal::{BigDecimal, Signed};
use price_oracle::decimal::{Decimal, MAX_INVERSE_SCALE, MAX_INVERSE_WIDTH, MAX_SCALE};
use std::str::FromStr;

fn dec(value: BigDecimal) -> Decimal {
    let (unscaled, scale) = value.into_bigint_and_exponent();
    Decimal::new(unscaled.to_signed_bytes_le(), scale).unwrap()
}

fn big(value: &Decimal) -> BigDecimal {
    BigDecimal::new(BigInt::from_signed_bytes_le(value.digits()), value.scale())
}

fn num(text: &str) -> Decimal {
    dec(BigDecimal::from_str(text).unwrap())
}

#[test]
fn test_inverse() {
    let vals = vec![
        ("100", "0.01"),
        ("2", "0.5"),
        (".2", "5"),
        ("3.141592653", "0.3183098862435492205742690218851870990799646487459493049686604293188738877535183744268834079171116523"),
    ];
    for &(x, y) in vals.iter() {
        let a = num(x);
        let i = a.inverse().unwrap();
        let b = BigDecimal::from_str(y).unwrap();
        assert_eq!(big(&i), b);
        assert_eq!(big(&dec(BigDecimal::from(1)).checked_div(&a).unwrap()), b);
        assert_eq!(big(&i.inverse().unwrap()), big(&a));
    }
}

#[test]
fn inverse_hands_zero_and_one_back() {
    assert_eq!(num("0.00").inverse().unwrap(), num("0"));
    assert_eq!(num("0.00").inverse().unwrap().scale(), 2);
    assert_eq!(num("1.000").inverse().unwrap(), num("1"));
    assert_eq!(num("1.000").inverse().unwrap().scale(), 3);
    assert_eq!(num("1").inverse().unwrap(), num("1"));
    assert_eq!(num("1").inverse().unwrap().scale(), 0);
    assert_eq!(big(&num("-4").inverse().unwrap()), BigDecimal::from_str("-0.25").unwrap());
}

fn close_to_one(value: BigDecimal) -> bool {
    let slack = BigDecimal::from_str("1e-90").unwrap();
    let one = BigDecimal::from(1);
    value > &one - &slack && value < &one + &slack
}

#[test]
fn inverse_refuses_what_it_cannot_guess() {
    assert_eq!(MAX_INVERSE_WIDTH, 64);
    assert_eq!(MAX_INVERSE_SCALE, 150);
    assert!(Decimal::new(vec![2], 400).unwrap().inverse().is_none());
    assert!(Decimal::new(vec![2], -400).unwrap().inverse().is_none());
    assert!(Decimal::new(vec![2], 151).unwrap().inverse().is_none());
    assert!(Decimal::new(vec![2], -151).unwrap().inverse().is_none());
    assert!(Decimal::new(vec![1], 151).unwrap().inverse().is_none());
    assert!(Decimal::new(vec![2], MAX_SCALE).unwrap().inverse().is_none());
    assert!(Decimal::new(vec![2], -MAX_SCALE).unwrap().inverse().is_none());
    let mut wide = vec![0u8; 65];
    wide[0] = 3;
    assert!(Decimal::new(wide.clone(), 0).unwrap().inverse().is_none());
    wide[64] = 0xff;
    assert!(Decimal::new(wide, 2).unwrap().inverse().is_none());
}

#[test]
fn inverse_of_zero_is_zero_at_any_scale() {
    let zero = Decimal::new(vec![0], 400).unwrap().inverse().unwrap();
    assert!(zero.is_zero());
    assert_eq!(zero.scale(), 400);
    let zero = Decimal::new(vec![0; 100], -MAX_SCALE).unwrap().inverse().unwrap();
    assert!(zero.is_zero());
    assert_eq!(zero.scale(), -MAX_SCALE);
    let zero = Decimal::new(vec![], MAX_SCALE).unwrap().inverse().unwrap();
    assert!(zero.is_zero());
}

#[test]
fn inverse_works_up_to_its_bounds() {
    let mut widest = vec![0xffu8; 64];
    widest[63] = 0x7f;
    let mut lowest = vec![0u8; 64];
    lowest[63] = 0x80;
    let mut power = vec![0u8; 64];
    power[63] = 0x40;
    let cases = vec![
        Decimal::new(vec![2], 150).unwrap(),
        Decimal::new(vec![2], -150).unwrap(),
        Decimal::new(vec![0xfe], 150).unwrap(),
        Decimal::new(vec![3], -150).unwrap(),
        Decimal::new(widest.clone(), 150).unwrap(),
        Decimal::new(widest, -150).unwrap(),
        Decimal::new(lowest.clone(), 150).unwrap(),
        Decimal::new(lowest, -150).unwrap(),
        Decimal::new(power.clone(), 150).unwrap(),
        Decimal::new(power, -150).unwrap(),
        Decimal::new(vec![7, 0, 0], 0).unwrap(),
    ];
    for x in cases.iter() {
        let inverse = x.inverse().unwrap();
        assert!(close_to_one(big(x) * big(&inverse)), "{:?}", x);
        assert_ne!(&inverse, x);
    }
}

#[test]
fn new_keeps_the_scale_in_range() {
    assert!(Decimal::new(vec![1], MAX_SCALE).is_some());
    assert!(Decimal::new(vec![1], -MAX_SCALE).is_some());
    assert!(Decimal::new(vec![1], MAX_SCALE + 1).is_none());
    assert!(Decimal::new(vec![1], -MAX_SCALE - 1).is_none());
    assert!(Decimal::new(vec![1], i64::MAX).is_none());
    assert!(Decimal::new(vec![1], i64::MIN).is_none());
    let value = Decimal::new(vec![0x39, 0x30], 2).unwrap();
    assert_eq!(value.digits(), &vec![0x39u8, 0x30]);
    assert_eq!(value.scale(), 2);
    assert_eq!(big(&value), BigDecimal::from_str("123.45").unwrap());
}

#[test]
fn digits_are_twos_complement_little_endian() {
    assert_eq!(big(&Decimal::new(vec![], 0).unwrap()), BigDecimal::from(0));
    assert_eq!(big(&Decimal::new(vec![0xff], 0).unwrap()), BigDecimal::from(-1));
    assert_eq!(big(&Decimal::new(vec![0xff, 0x00], 0).unwrap()), BigDecimal::from(255));
    assert_eq!(big(&Decimal::new(vec![0x00, 0x80], 1).unwrap()), BigDecimal::from_str("-3276.8").unwrap());
    assert_eq!(num("-1125").digits(), &vec![155u8, 251]);
}

#[test]
fn zero_is_zero() {
    assert!(Decimal::zero().is_zero());
    assert_eq!(Decimal::zero().scale(), 0);
    assert!(num("0").is_zero());
    assert!(num("0.000").is_zero());
    assert!(Decimal::new(vec![0, 0, 0], 5).unwrap().is_zero());
    assert!(!num("0.001").is_zero());
    assert!(!num("-7").is_zero());
    assert!(!Decimal::new(vec![0, 0x80], 0).unwrap().is_zero());
    assert!(!Decimal::new(vec![0, 1], 0).unwrap().is_zero());
}

#[test]
fn add_is_exact_and_keeps_the_larger_scale() {
    let sum = num("1.5").add(&num("2.25"));
    assert_eq!(big(&sum), BigDecimal::from_str("3.75").unwrap());
    assert_eq!(sum.scale(), 2);
    let sum = num("0.1").add(&num("0.2"));
    assert_eq!(sum, num("0.3"));
    let sum = num("1e3").add(&num("-0.5"));
    assert_eq!(sum, num("999.5"));
    let sum = Decimal::zero().add(&num("1e3"));
    assert_eq!(sum, num("1000"));
    assert_eq!(sum.scale(), 0);
    let sum = num("0e-7").add(&num("2"));
    assert_eq!(big(&sum), BigDecimal::from(2));
    assert_eq!(sum.scale(), 7);
}

#[test]
fn add_spans_the_whole_range_of_scales() {
    let small = Decimal::new(vec![0], MAX_SCALE).unwrap();
    let large = Decimal::new(vec![3], -MAX_SCALE).unwrap();
    let sum = small.add(&large);
    assert_eq!(sum.scale(), MAX_SCALE);
    assert!(!sum.is_zero());
}

#[test]
fn mul_is_exact_and_adds_the_scales() {
    let product = num("1.5").checked_mul(&num("2.25")).unwrap();
    assert_eq!(product, num("3.375"));
    assert_eq!(product.scale(), 3);
    let product = num("-3").checked_mul(&num("0.50")).unwrap();
    assert_eq!(product, num("-1.5"));
    assert_eq!(product.scale(), 2);
    assert_eq!(product.digits(), &vec![0x6au8, 0xff]);
}

#[test]
fn mul_by_one_hands_the_other_factor_back() {
    let product = num("1.00").checked_mul(&num("2.5")).unwrap();
    assert_eq!(product, num("2.5"));
    assert_eq!(product.scale(), 1);
    let product = num("2.50").checked_mul(&num("1.000")).unwrap();
    assert_eq!(product, num("2.5"));
    assert_eq!(product.scale(), 2);
    let product = num("1").checked_mul(&num("1.0")).unwrap();
    assert_eq!(product, num("1"));
    assert_eq!(product.scale(), 1);
    let product = num("1.0").checked_mul(&num("1")).unwrap();
    assert_eq!(product.scale(), 0);
}

#[test]
fn mul_fails_where_the_scale_leaves_the_range() {
    let a = Decimal::new(vec![3], 600_000).unwrap();
    let b = Decimal::new(vec![7], 400_000).unwrap();
    let c = Decimal::new(vec![7], 400_001).unwrap();
    assert_eq!(a.checked_mul(&b).unwrap(), Decimal::new(vec![21], MAX_SCALE).unwrap());
    assert!(a.checked_mul(&c).is_none());
    let d = Decimal::new(vec![3], -600_000).unwrap();
    let e = Decimal::new(vec![7], -400_001).unwrap();
    assert!(d.checked_mul(&e).is_none());
}

#[test]
fn div_rounds_to_a_hundred_digits() {
    assert_eq!(num("1").checked_div(&num("4")).unwrap(), num("0.25"));
    assert_eq!(num("1").checked_div(&num("4")).unwrap().scale(), 2);
    assert_eq!(num("10").checked_div(&num("4")).unwrap(), num("2.5"));
    assert_ne!(num("10").checked_div(&num("4")).unwrap(), num("10"));
    assert_eq!(num("-1").checked_div(&num("8")).unwrap(), num("-0.125"));
    let third = num("1").checked_div(&num("3")).unwrap();
    assert_eq!(third.scale(), 100);
    assert_eq!(big(&third), BigDecimal::from_str(&format!("0.{}", "3".repeat(100))).unwrap());
    let two_thirds = num("2").checked_div(&num("3")).unwrap();
    assert_eq!(
        big(&two_thirds),
        BigDecimal::from_str(&format!("0.{}7", "6".repeat(99))).unwrap()
    );
}

#[test]
fn the_scale_of_a_quotient_stays_within_its_bound() {
    let numbers = vec![
        "0", "0.000", "1", "1.00", "-1", "2", "3", "7", "10", "-10", "1e3", "1e-3", "9", "99", "100",
        "0.5", "-0.25", "3.141592653", "42580.02", "18555.70986", "1929.42519104",
        "20485.13505104", "1e40", "1e-40", "12345678901234567890123456789012345678901234567890",
        "-0.00000000000000000000000000000000000000000000000001", "6e150", "7e-150",
        "99999999999999999999999999999999999999999999999999999999999999999999999999999999999999999999999999999999999999999999.9",
    ];
    let mut divisions = 0;
    for x in numbers.iter() {
        for y in numbers.iter() {
            let a = num(x);
            let b = num(y);
            if b.is_zero() {
                assert!(a.checked_div(&b).is_none());
                continue;
            }
            let q = a.checked_div(&b).unwrap();
            let digits = big(&b).as_bigint_and_exponent().0.to_string().trim_start_matches('-').len() as i64;
            let least = a.scale() - b.scale();
            assert!(
                q.scale() == a.scale() || (least <= q.scale() && q.scale() <= least + digits + 100),
                "{} / {} has scale {}",
                x,
                y,
                q.scale()
            );
            let product = big(&q) * big(&b);
            let slack = BigDecimal::from_str("1e-90").unwrap() * big(&a).abs();
            assert!((product - big(&a)).abs() <= slack, "{} / {}", x, y);
            divisions += 1;
        }
    }
    assert_eq!(divisions, 29 * 27);
}

#[test]
fn div_by_zero_fails() {
    assert!(num("1").checked_div(&num("0")).is_none());
    assert!(num("1").checked_div(&num("0.000")).is_none());
    assert!(num("0").checked_div(&Decimal::zero()).is_none());
    assert_eq!(num("0").checked_div(&num("5")).unwrap(), num("0"));
}

#[test]
fn equal_decimals_stand_for_the_same_number() {
    assert_eq!(num("1.0"), num("1.00"));
    assert_eq!(num("1e2"), num("100"));
    assert_eq!(num("-0.50"), num("-5e-1"));
    assert_eq!(num("0"), num("0.000"));
    assert_eq!(Decimal::new(vec![5], 0).unwrap(), Decimal::new(vec![5, 0, 0], 0).unwrap());
    assert_eq!(Decimal::new(vec![0xfb], 0).unwrap(), Decimal::new(vec![0xfb, 0xff], 0).unwrap());
    assert_ne!(num("1.0"), num("1.01"));
    assert_ne!(num("1"), num("-1"));
    assert_ne!(num("1"), num("10"));
    assert_ne!(Decimal::new(vec![1], MAX_SCALE).unwrap(), Decimal::new(vec![1], -MAX_SCALE).unwrap());
    assert_eq!(Decimal::new(vec![0], MAX_SCALE).unwrap(), Decimal::new(vec![], -MAX_SCALE).unwrap());
}

#[test]
fn clone_keeps_digits_and_scale() {
    let value = num("-12345678901234567890.12345");
    let copy = value.clone();
    assert_eq!(copy, value);
    assert_eq!(copy.digits(), value.digits());
    assert_eq!(copy.scale(), 5);
}
