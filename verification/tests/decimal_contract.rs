use payments_toy_engine::domain::props::Amount;
use rust_decimal::Decimal;

const MAX: i128 = 79_228_162_514_264_337_593_543_950_335;

/// The mantissa raised to a finer scale, or none where it grows beyond
/// 2^126 and so beyond anything a decimal of 96 bits can cancel.
fn aligned(mantissa: i128, from: u32, to: u32) -> Option<i128> {
    let power = 10u128.checked_pow(to - from)?;
    let magnitude = mantissa.unsigned_abs().checked_mul(power)?;
    if magnitude >= 1u128 << 126 {
        return None;
    }
    Some(if mantissa < 0 { -(magnitude as i128) } else { magnitude as i128 })
}

/// The exact sum: the other operand where one is zero, else the sum at the
/// larger scale where its mantissa fits.
fn exact_sum(m1: i128, s1: u32, m2: i128, s2: u32) -> Option<(i128, u32)> {
    if m1 == 0 {
        return Some((m2, s2));
    }
    if m2 == 0 {
        return Some((m1, s1));
    }
    let scale = s1.max(s2);
    match (aligned(m1, s1, scale), aligned(m2, s2, scale)) {
        (Some(a), Some(b)) => {
            let sum = a + b;
            if -MAX <= sum && sum <= MAX {
                Some((sum, scale))
            } else {
                None
            }
        }
        _ => None,
    }
}

fn exact_less(m1: i128, s1: u32, m2: i128, s2: u32) -> bool {
    let scale = s1.max(s2);
    match (aligned(m1, s1, scale), aligned(m2, s2, scale)) {
        (Some(a), Some(b)) => a < b,
        (None, _) => m1 < 0,
        (_, None) => m2 > 0,
    }
}

struct Numbers(u64);

impl Numbers {
    fn next(&mut self) -> u64 {
        self.0 = self.0.wrapping_mul(6364136223846793005).wrapping_add(1442695040888963407);
        self.0 >> 11
    }

    fn mantissa(&mut self) -> i128 {
        let bits = self.next() % 97;
        let raw = ((self.next() as u128) << 64 | (self.next() as u128) << 11 | self.next() as u128)
            & ((1u128 << 96) - 1);
        let magnitude = if bits == 0 { 0 } else { raw >> (96 - bits) };
        let edge = match self.next() % 16 {
            0 => MAX as u128,
            1 => (MAX - 1) as u128,
            2 => 1,
            3 => u32::MAX as u128,
            4 => u64::MAX as u128,
            5 => u32::MAX as u128 + 1,
            6 => u64::MAX as u128 + 1,
            _ => magnitude,
        };
        if self.next() % 2 == 0 {
            edge as i128
        } else {
            -(edge as i128)
        }
    }

    fn scale(&mut self) -> u32 {
        match self.next() % 4 {
            0 => (self.next() % 5) as u32,
            _ => (self.next() % 29) as u32,
        }
    }
}

fn parts(amount: Option<Amount>) -> Option<(i128, u32)> {
    amount.map(|a| (a.mantissa(), a.scale()))
}

#[test]
fn addition_is_exact_or_refused() {
    let mut numbers = Numbers(7);
    for _ in 0..60_000 {
        let (m1, s1, m2, s2) =
            (numbers.mantissa(), numbers.scale(), numbers.mantissa(), numbers.scale());
        let a = Amount::new(m1, s1).expect("representable");
        let b = Amount::new(m2, s2).expect("representable");
        let expected = exact_sum(m1, s1, m2, s2);
        assert_eq!(parts(a.checked_add(&b)), expected, "{}e-{} + {}e-{}", m1, s1, m2, s2);

        let raw = Decimal::from_i128_with_scale(m1, s1)
            .checked_add(Decimal::from_i128_with_scale(m2, s2));
        match expected {
            Some(sum) => assert_eq!(raw.map(|d| (d.mantissa(), d.scale())), Some(sum)),
            None => {
                if let Some(d) = raw {
                    assert!(d.scale() < s1.max(s2), "{}e-{} + {}e-{}", m1, s1, m2, s2);
                }
            }
        }
    }
}

#[test]
fn subtraction_is_exact_or_refused() {
    let mut numbers = Numbers(11);
    for _ in 0..60_000 {
        let (m1, s1, m2, s2) =
            (numbers.mantissa(), numbers.scale(), numbers.mantissa(), numbers.scale());
        let a = Amount::new(m1, s1).expect("representable");
        let b = Amount::new(m2, s2).expect("representable");
        let expected = exact_sum(m1, s1, -m2, s2);
        assert_eq!(parts(a.checked_sub(&b)), expected, "{}e-{} - {}e-{}", m1, s1, m2, s2);

        let raw = Decimal::from_i128_with_scale(m1, s1)
            .checked_sub(Decimal::from_i128_with_scale(m2, s2));
        match expected {
            Some(difference) => {
                assert_eq!(raw.map(|d| (d.mantissa(), d.scale())), Some(difference))
            }
            None => {
                if let Some(d) = raw {
                    assert!(d.scale() < s1.max(s2), "{}e-{} - {}e-{}", m1, s1, m2, s2);
                }
            }
        }
    }
}

#[test]
fn near_cancellation_is_exact() {
    // The operand of smaller scale does not fit 96 bits once it is raised
    // to the larger scale, but the difference does.
    let mut numbers = Numbers(13);
    for _ in 0..20_000 {
        let k = 1 + (numbers.next() % 9) as u32;
        let power = 10i128.pow(k);
        let s1 = (numbers.next() % (29 - k as u64)) as u32;
        let s2 = s1 + k;
        let m1 = MAX / power + 1 + (numbers.next() % 1000) as i128;
        let raised = m1 * power;
        let m2 = raised - MAX + (numbers.next() % 1_000_000) as i128;
        if m2 > MAX {
            continue;
        }
        let a = Amount::new(m1, s1).expect("representable");
        let b = Amount::new(m2, s2).expect("representable");
        assert_eq!(parts(a.checked_sub(&b)), Some((raised - m2, s2)));
        assert_eq!(parts(b.checked_sub(&a)), Some((m2 - raised, s2)));
        let negative = Amount::new(-m2, s2).expect("representable");
        assert_eq!(parts(a.checked_add(&negative)), Some((raised - m2, s2)));
        assert_eq!(parts(negative.checked_add(&a)), Some((raised - m2, s2)));
    }
}

#[test]
fn order_is_the_order_of_the_values() {
    let mut numbers = Numbers(17);
    for _ in 0..60_000 {
        let (m1, s1, m2, s2) =
            (numbers.mantissa(), numbers.scale(), numbers.mantissa(), numbers.scale());
        let a = Amount::new(m1, s1).expect("representable");
        let b = Amount::new(m2, s2).expect("representable");
        assert_eq!(a.less_than(&b), exact_less(m1, s1, m2, s2), "{}e-{} < {}e-{}", m1, s1, m2, s2);
        assert_eq!(a == b, !exact_less(m1, s1, m2, s2) && !exact_less(m2, s2, m1, s1));
        assert!(!a.less_than(&a));
    }
}

#[test]
fn equal_values_of_different_scale_are_not_ordered() {
    let mut numbers = Numbers(19);
    for _ in 0..20_000 {
        let s1 = (numbers.next() % 20) as u32;
        let k = (numbers.next() % 9) as u32;
        let m1 = (numbers.next() % 1_000_000_000) as i128 - 500_000_000;
        let a = Amount::new(m1, s1).expect("representable");
        let b = Amount::new(m1 * 10i128.pow(k), s1 + k).expect("representable");
        assert!(!a.less_than(&b));
        assert!(!b.less_than(&a));
        assert_eq!(a, b);
    }
}

#[test]
fn text_round_trips() {
    let mut numbers = Numbers(23);
    for _ in 0..20_000 {
        let (m, s) = (numbers.mantissa(), numbers.scale());
        let a = Amount::new(m, s).expect("representable");
        let text = a.to_text();
        assert_eq!(text, Decimal::from_i128_with_scale(m, s).to_string());
        let back = Amount::parse(&text).expect("a decimal number");
        assert_eq!((back.mantissa(), back.scale()), (m, s), "{}", text);
    }
}
