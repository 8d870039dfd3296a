//! The mathematics of fixed-point decimals: a value is a mantissa and a
//! scale, and stands for `mantissa / 10^scale`.

use vstd::arithmetic::power::{lemma_pow_adds, lemma_pow_positive, pow};
use vstd::prelude::*;

verus! {

/// The largest mantissa a decimal can hold: `2^96 - 1`.
pub const MAX_MANTISSA: i128 = 79_228_162_514_264_337_593_543_950_335i128;

/// The largest scale a decimal can hold.
pub const MAX_SCALE: u32 = 28u32;

/// The most fractional digits a payment amount may carry.
pub const PAYMENT_SCALE: u32 = 4u32;

/// Ten to the power of `e`.
pub open spec fn pow10(e: nat) -> int {
    pow(10, e)
}

/// A decimal number as mathematics sees it.
pub struct Fixed {
    pub mantissa: int,
    pub scale: nat,
}

impl Fixed {
    /// Zero, with no fractional digits.
    pub open spec fn zero() -> Fixed {
        Fixed { mantissa: 0, scale: 0 }
    }

    /// Whether the value fits a 96-bit mantissa and a scale of at most 28.
    pub open spec fn representable(self) -> bool {
        &&& -MAX_MANTISSA <= self.mantissa <= MAX_MANTISSA
        &&& self.scale <= MAX_SCALE
    }

    /// The value counted in units of `10^-28`, the finest grain a
    /// representable decimal can have. Two decimals are numerically equal
    /// exactly when their units are.
    pub open spec fn units(self) -> int
        recommends
            self.scale <= MAX_SCALE,
    {
        self.mantissa * pow10((MAX_SCALE - self.scale) as nat)
    }

    /// The same magnitude at the same scale, with the opposite sign.
    pub open spec fn negated(self) -> Fixed {
        Fixed { mantissa: -self.mantissa, scale: self.scale }
    }

    /// The sum written at the larger of the two scales, whatever its size.
    pub open spec fn aligned_sum(self, other: Fixed) -> Fixed {
        let scale = if self.scale >= other.scale {
            self.scale
        } else {
            other.scale
        };
        Fixed {
            mantissa: self.mantissa * pow10((scale - self.scale) as nat) + other.mantissa * pow10(
                (scale - other.scale) as nat,
            ),
            scale,
        }
    }

    /// Exact addition. Adding zero hands back the other operand as it
    /// stands; otherwise the sum is written at the larger scale, and there
    /// is none when that does not fit.
    pub open spec fn plus(self, other: Fixed) -> Option<Fixed> {
        if self.mantissa == 0 {
            Some(other)
        } else if other.mantissa == 0 {
            Some(self)
        } else if self.aligned_sum(other).representable() {
            Some(self.aligned_sum(other))
        } else {
            None
        }
    }

    /// Exact subtraction: the sum with the negated operand.
    pub open spec fn minus(self, other: Fixed) -> Option<Fixed> {
        self.plus(other.negated())
    }

    /// Whether this value is numerically smaller than the other.
    pub open spec fn less_than(self, other: Fixed) -> bool {
        self.units() < other.units()
    }

    /// Whether the two are numerically equal, whatever their scales.
    pub open spec fn same_value(self, other: Fixed) -> bool {
        self.units() == other.units()
    }

    /// A legal payment amount is strictly positive and has at most four
    /// fractional digits.
    pub open spec fn is_legal(self) -> bool {
        self.mantissa > 0 && self.scale <= PAYMENT_SCALE
    }
}

/// Raising a mantissa from one scale to a finer one keeps its units.
pub proof fn lemma_rescale_units(mantissa: int, from: nat, to: nat)
    requires
        from <= to <= MAX_SCALE,
    ensures
        (mantissa * pow10((to - from) as nat)) * pow10((MAX_SCALE - to) as nat) == mantissa * pow10(
            (MAX_SCALE - from) as nat,
        ),
{
    let a = (to - from) as nat;
    let b = (MAX_SCALE - to) as nat;
    lemma_pow_adds(10, a, b);
    assert(a + b == (MAX_SCALE - from) as nat);
    assert((mantissa * pow(10, a)) * pow(10, b) == mantissa * (pow(10, a) * pow(10, b)))
        by (nonlinear_arith);
}

/// The units of a value have the sign of its mantissa.
pub proof fn lemma_units_sign(a: Fixed)
    requires
        a.scale <= MAX_SCALE,
    ensures
        a.mantissa > 0 <==> a.units() > 0,
        a.mantissa == 0 <==> a.units() == 0,
        a.mantissa < 0 <==> a.units() < 0,
{
    let p = pow10((MAX_SCALE - a.scale) as nat);
    lemma_pow_positive(10, (MAX_SCALE - a.scale) as nat);
    assert(a.mantissa > 0 ==> a.mantissa * p > 0) by (nonlinear_arith)
        requires
            p > 0,
    ;
    assert(a.mantissa < 0 ==> a.mantissa * p < 0) by (nonlinear_arith)
        requires
            p > 0,
    ;
    assert(a.mantissa == 0 ==> a.mantissa * p == 0) by (nonlinear_arith);
}

/// Negation negates the units.
pub proof fn lemma_negated_units(a: Fixed)
    ensures
        a.negated().units() == -a.units(),
{
    let p = pow10((MAX_SCALE - a.scale) as nat);
    assert((-a.mantissa) * p == -(a.mantissa * p)) by (nonlinear_arith);
}

/// Addition is exact: where there is a sum, its units are the sum of the
/// operands' units.
pub proof fn lemma_plus_exact(a: Fixed, b: Fixed)
    requires
        a.scale <= MAX_SCALE,
        b.scale <= MAX_SCALE,
        a.plus(b) is Some,
    ensures
        a.plus(b).unwrap().units() == a.units() + b.units(),
        a.plus(b).unwrap().scale <= MAX_SCALE,
        a.plus(b).unwrap().scale <= if a.scale >= b.scale { a.scale } else { b.scale },
{
    lemma_units_sign(a);
    lemma_units_sign(b);
    if a.mantissa != 0 && b.mantissa != 0 {
        let r = a.aligned_sum(b);
        let pa = pow10((r.scale - a.scale) as nat);
        let pb = pow10((r.scale - b.scale) as nat);
        let p = pow10((MAX_SCALE - r.scale) as nat);
        lemma_rescale_units(a.mantissa, a.scale, r.scale);
        lemma_rescale_units(b.mantissa, b.scale, r.scale);
        assert((a.mantissa * pa + b.mantissa * pb) * p == (a.mantissa * pa) * p + (b.mantissa * pb)
            * p) by (nonlinear_arith);
    }
}

/// Subtraction is exact.
pub proof fn lemma_minus_exact(a: Fixed, b: Fixed)
    requires
        a.scale <= MAX_SCALE,
        b.scale <= MAX_SCALE,
        a.minus(b) is Some,
    ensures
        a.minus(b).unwrap().units() == a.units() - b.units(),
        a.minus(b).unwrap().scale <= MAX_SCALE,
        a.minus(b).unwrap().scale <= if a.scale >= b.scale { a.scale } else { b.scale },
{
    lemma_negated_units(b);
    lemma_plus_exact(a, b.negated());
}

} // verus!
