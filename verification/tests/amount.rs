use payments_toy_engine::domain::props::Amount;

fn amt(text: &str) -> Amount {
    Amount::parse(text).expect("a decimal number")
}

#[test]
fn new_takes_every_representable_decimal() {
    let max: i128 = 79_228_162_514_264_337_593_543_950_335;
    assert!(Amount::new(max, 28).is_some());
    assert!(Amount::new(-max, 0).is_some());
    assert!(Amount::new(max + 1, 0).is_none());
    assert!(Amount::new(-max - 1, 0).is_none());
    assert!(Amount::new(1, 29).is_none());
    let a = Amount::new(12345, 4).expect("representable");
    assert_eq!(a.mantissa(), 12345);
    assert_eq!(a.scale(), 4);
}

#[test]
fn zero_has_no_fractional_digits() {
    assert_eq!(Amount::zero().mantissa(), 0);
    assert_eq!(Amount::zero().scale(), 0);
    assert_eq!(Amount::zero().to_text(), "0");
}

#[test]
fn parse_keeps_the_scale_that_was_written() {
    let a = amt("1.2345");
    assert_eq!((a.mantissa(), a.scale()), (12345, 4));
    let b = amt("1.0");
    assert_eq!((b.mantissa(), b.scale()), (10, 1));
    let c = amt("-1.04");
    assert_eq!((c.mantissa(), c.scale()), (-104, 2));
    let d = amt("7");
    assert_eq!((d.mantissa(), d.scale()), (7, 0));
}

#[test]
fn parse_refuses_what_is_no_number() {
    assert!(Amount::parse("").is_none());
    assert!(Amount::parse("abc").is_none());
    assert!(Amount::parse("1.2.3").is_none());
}

#[test]
fn to_text_writes_all_digits_of_the_scale() {
    assert_eq!(amt("1.0").to_text(), "1.0");
    assert_eq!(amt("1.2345").to_text(), "1.2345");
    assert_eq!(amt("-0.50").to_text(), "-0.50");
    assert_eq!(Amount::new(5, 3).expect("representable").to_text(), "0.005");
}

#[test]
fn checked_add_is_exact_at_the_larger_scale() {
    let sum = amt("1.0").checked_add(&amt("2.25")).expect("a sum");
    assert_eq!((sum.mantissa(), sum.scale()), (325, 2));
    let sum = amt("1.5").checked_add(&amt("1.5")).expect("a sum");
    assert_eq!((sum.mantissa(), sum.scale()), (30, 1));
    let sum = amt("-1.5").checked_add(&amt("1.5")).expect("a sum");
    assert_eq!((sum.mantissa(), sum.scale()), (0, 1));
}

#[test]
fn checked_add_of_zero_hands_back_the_other_operand() {
    let sum = Amount::zero().checked_add(&amt("1.0")).expect("a sum");
    assert_eq!((sum.mantissa(), sum.scale()), (10, 1));
    let sum = amt("1.0").checked_add(&amt("0.000")).expect("a sum");
    assert_eq!((sum.mantissa(), sum.scale()), (10, 1));
    let sum = amt("0.00").checked_add(&amt("5")).expect("a sum");
    assert_eq!((sum.mantissa(), sum.scale()), (5, 0));
}

#[test]
fn checked_add_refuses_what_does_not_fit() {
    let max: i128 = 79_228_162_514_264_337_593_543_950_335;
    let largest = Amount::new(max, 0).expect("representable");
    assert!(largest.checked_add(&amt("1")).is_none());
    // The exact sum would need a mantissa beyond 96 bits at scale 1.
    assert!(largest.checked_add(&amt("0.1")).is_none());
    let small = Amount::new(max, 4).expect("representable");
    assert!(small.checked_add(&small).is_none());
    let negative = Amount::new(-max, 0).expect("representable");
    assert!(negative.checked_add(&amt("-1")).is_none());
    let back = largest.checked_add(&negative).expect("a sum");
    assert_eq!((back.mantissa(), back.scale()), (0, 0));
}

#[test]
fn checked_sub_is_exact_at_the_larger_scale() {
    let difference = amt("3.0").checked_sub(&amt("1.5")).expect("a difference");
    assert_eq!((difference.mantissa(), difference.scale()), (15, 1));
    let difference = amt("1.23").checked_sub(&amt("1.2301")).expect("a difference");
    assert_eq!((difference.mantissa(), difference.scale()), (-1, 4));
    let difference = amt("1.0").checked_sub(&amt("1.0")).expect("a difference");
    assert_eq!((difference.mantissa(), difference.scale()), (0, 1));
}

#[test]
fn checked_sub_with_zero_keeps_the_other_scale() {
    let difference = Amount::zero().checked_sub(&amt("1.50")).expect("a difference");
    assert_eq!((difference.mantissa(), difference.scale()), (-150, 2));
    let difference = amt("1.50").checked_sub(&Amount::zero()).expect("a difference");
    assert_eq!((difference.mantissa(), difference.scale()), (150, 2));
}

#[test]
fn checked_sub_refuses_what_does_not_fit() {
    let max: i128 = 79_228_162_514_264_337_593_543_950_335;
    let largest = Amount::new(max, 0).expect("representable");
    assert!(largest.checked_sub(&amt("-1")).is_none());
    assert!(largest.checked_sub(&amt("0.1")).is_none());
}

#[test]
fn less_than_compares_values_not_scales() {
    assert!(amt("1.23").less_than(&amt("1.2301")));
    assert!(!amt("1.2301").less_than(&amt("1.23")));
    assert!(!amt("1.0").less_than(&amt("1.000")));
    assert!(amt("-2").less_than(&amt("0.0001")));
    assert!(amt("0.5").less_than(&amt("5")));
}

#[test]
fn equality_is_numeric() {
    assert_eq!(amt("1.0"), amt("1.000"));
    assert_eq!(amt("0"), amt("0.00"));
    assert_ne!(amt("1.0"), amt("1.0001"));
    assert_ne!(amt("1"), amt("-1"));
}

#[test]
fn legal_amounts_are_positive_with_four_digits_at_most() {
    assert!(amt("1.2345").is_legal());
    assert!(amt("0.0001").is_legal());
    assert!(amt("100").is_legal());
    assert!(!amt("0").is_legal());
    assert!(!amt("0.0000").is_legal());
    assert!(!amt("-1.04").is_legal());
    assert!(!amt("0.12345").is_legal());
    // Legality goes by the scale that was written, not by the value.
    assert!(!amt("1.00000").is_legal());
}

#[test]
fn sums_agree_with_the_decimal_library() {
    let cases = [
        ("1.0", "2.0"),
        ("0.0001", "12345678.9"),
        ("-5.5", "5.25"),
        ("0", "3.1400"),
        ("79228162514264337593543950335", "-0.0001"),
        ("7922816251426433759354395.0335", "0.9999"),
    ];
    for (a, b) in cases {
        let left: rust_decimal::Decimal = a.parse().expect("a decimal");
        let right: rust_decimal::Decimal = b.parse().expect("a decimal");
        if let Some(sum) = amt(a).checked_add(&amt(b)) {
            let expected = left.checked_add(right).expect("a sum");
            assert_eq!(sum.mantissa(), expected.mantissa());
            assert_eq!(sum.scale(), expected.scale());
            assert_eq!(sum.to_text(), expected.to_string());
        }
        if let Some(difference) = amt(a).checked_sub(&amt(b)) {
            let expected = left.checked_sub(right).expect("a difference");
            assert_eq!(difference.mantissa(), expected.mantissa());
            assert_eq!(difference.scale(), expected.scale());
        }
    }
}

#[test]
fn parse_reads_no_text_of_more_than_256_bytes() {
    let longest = format!("{}1.5", "0".repeat(253));
    assert_eq!(longest.len(), 256);
    let expected: rust_decimal::Decimal = longest.parse().expect("a decimal");
    let read = Amount::parse(&longest).expect("a decimal number");
    assert_eq!((read.mantissa(), read.scale()), (expected.mantissa(), expected.scale()));
    assert_eq!((read.mantissa(), read.scale()), (15, 1));

    let too_long = format!("{}1.5", "0".repeat(254));
    assert_eq!(too_long.len(), 257);
    assert!(Amount::parse(&too_long).is_none());
    assert!(Amount::parse(&"0".repeat(100_000)).is_none());
    // The length is counted in bytes.
    assert!(Amount::parse(&"\u{e9}".repeat(129)).is_none());
}
