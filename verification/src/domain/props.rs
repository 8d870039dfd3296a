//! Identifiers, amounts and transaction kinds shared by both aggregates.

use crate::domain::decimal::{
    decimal_add, decimal_from_str, decimal_less, decimal_parse, decimal_sub, decimal_text,
    decimal_to_string, MAX_DECIMAL_TEXT,
};
use crate::domain::fixed::{Fixed, MAX_MANTISSA, MAX_SCALE, PAYMENT_SCALE};
use vstd::prelude::*;
use vstd::std_specs::cmp::PartialEqSpecImpl;
use vstd::utf8::encode_utf8;

verus! {

/// Identifies a client, and with it the client's account.
#[derive(Debug, PartialEq, Eq, Hash)]
pub struct ClientId(pub String);

/// Identifies a transaction.
#[derive(Debug, PartialEq, Eq, Hash)]
pub struct TransactionId(pub String);

impl View for ClientId {
    type V = Seq<char>;

    open spec fn view(&self) -> Seq<char> {
        self.0@
    }
}

impl View for TransactionId {
    type V = Seq<char>;

    open spec fn view(&self) -> Seq<char> {
        self.0@
    }
}

impl Clone for ClientId {
    fn clone(&self) -> (r: Self)
        ensures
            r == *self,
    {
        ClientId(self.0.clone())
    }
}

impl Clone for TransactionId {
    fn clone(&self) -> (r: Self)
        ensures
            r == *self,
    {
        TransactionId(self.0.clone())
    }
}

/// The kinds of transaction that move funds.
#[derive(Debug, PartialEq, Eq, Clone, Copy, Structural)]
pub enum TxType {
    Deposit,
    Withdrawal,
}

/// A signed fixed-point decimal: a 96-bit mantissa and a scale of at most
/// 28 fractional digits. Every value of this type is representable.
#[derive(Debug, Clone, Copy)]
pub struct Amount {
    pub(crate) mantissa: i128,
    pub(crate) scale: u32,
}

impl View for Amount {
    type V = Fixed;

    closed spec fn view(&self) -> Fixed {
        Fixed { mantissa: self.mantissa as int, scale: self.scale as nat }
    }
}

/// The decimal that a text is read as: what the decimal parser makes of
/// it, and none where the text is longer than the parser is trusted with.
pub open spec fn amount_read(text: Seq<char>) -> Option<Fixed> {
    if encode_utf8(text).len() <= MAX_DECIMAL_TEXT {
        decimal_parse(text)
    } else {
        None
    }
}

/// The decimal an optional amount stands for.
pub open spec fn amount_view(amount: Option<Amount>) -> Option<Fixed> {
    match amount {
        Some(a) => Some(a@),
        None => None,
    }
}

impl Amount {
    /// What holds of every amount: its mantissa fits 96 bits and its scale
    /// is at most 28.
    #[verifier::type_invariant]
    pub open spec fn is_representable(self) -> bool {
        self@.representable()
    }

    /// The amount with this mantissa and scale, if there is one.
    pub fn new(mantissa: i128, scale: u32) -> (r: Option<Amount>)
        ensures
            amount_view(r) == (if (Fixed { mantissa: mantissa as int, scale: scale as nat })
                .representable() {
                Some(Fixed { mantissa: mantissa as int, scale: scale as nat })
            } else {
                None
            }),
    {
        if scale <= MAX_SCALE && -MAX_MANTISSA <= mantissa && mantissa <= MAX_MANTISSA {
            Some(Amount { mantissa, scale })
        } else {
            None
        }
    }

    /// Zero, with no fractional digits.
    pub closed spec fn spec_zero() -> Amount {
        Amount { mantissa: 0, scale: 0 }
    }

    /// Zero, with no fractional digits.
    #[verifier::when_used_as_spec(spec_zero)]
    pub fn zero() -> (r: Amount)
        ensures
            r == Amount::spec_zero(),
            r@ == Fixed::zero(),
    {
        Amount { mantissa: 0, scale: 0 }
    }

    /// Zero stands for the decimal zero.
    pub proof fn lemma_zero()
        ensures
            Amount::spec_zero()@ == Fixed::zero(),
    {
    }

    /// The digits of the amount as a whole number, with its sign.
    pub fn mantissa(&self) -> (r: i128)
        ensures
            r == self@.mantissa,
            -MAX_MANTISSA <= r <= MAX_MANTISSA,
    {
        proof {
            use_type_invariant(self);
        }
        self.mantissa
    }

    /// The number of fractional digits of the amount.
    pub fn scale(&self) -> (r: u32)
        ensures
            r == self@.scale,
            r <= MAX_SCALE,
    {
        proof {
            use_type_invariant(self);
        }
        self.scale
    }

    /// The scale an exact sum or difference of these operands has.
    fn exact_scale(&self, other: &Amount) -> (r: u32)
        ensures
            self@.plus(other@) matches Some(sum) ==> sum.scale == r,
            self@.minus(other@) matches Some(difference) ==> difference.scale == r,
            r == self.scale || r == other.scale,
            r >= self.scale || r >= other.scale,
            self.mantissa != 0 && other.mantissa != 0 ==> r >= self.scale && r >= other.scale,
    {
        if self.mantissa == 0 {
            other.scale
        } else if other.mantissa == 0 {
            self.scale
        } else if self.scale >= other.scale {
            self.scale
        } else {
            other.scale
        }
    }

    /// Exact addition: the sum, or none where it cannot be represented
    /// without rounding.
    pub fn checked_add(&self, other: &Amount) -> (r: Option<Amount>)
        ensures
            amount_view(r) == self@.plus(other@),
    {
        proof {
            use_type_invariant(self);
            use_type_invariant(other);
        }
        let scale = self.exact_scale(other);
        match decimal_add(self.mantissa, self.scale, other.mantissa, other.scale) {
            Some((mantissa, result_scale)) => {
                if result_scale == scale {
                    Some(Amount { mantissa, scale: result_scale })
                } else {
                    None
                }
            },
            None => None,
        }
    }

    /// Exact subtraction: the difference, or none where it cannot be
    /// represented without rounding.
    pub fn checked_sub(&self, other: &Amount) -> (r: Option<Amount>)
        ensures
            amount_view(r) == self@.minus(other@),
    {
        proof {
            use_type_invariant(self);
            use_type_invariant(other);
        }
        let scale = self.exact_scale(other);
        match decimal_sub(self.mantissa, self.scale, other.mantissa, other.scale) {
            Some((mantissa, result_scale)) => {
                if result_scale == scale {
                    Some(Amount { mantissa, scale: result_scale })
                } else {
                    None
                }
            },
            None => None,
        }
    }

    /// Whether this amount is numerically smaller than the other.
    pub fn less_than(&self, other: &Amount) -> (r: bool)
        ensures
            r == self@.less_than(other@),
    {
        proof {
            use_type_invariant(self);
            use_type_invariant(other);
        }
        decimal_less(self.mantissa, self.scale, other.mantissa, other.scale)
    }

    /// Whether this is a legal payment amount: strictly positive, with at
    /// most four fractional digits.
    pub fn is_legal(&self) -> (r: bool)
        ensures
            r == self@.is_legal(),
    {
        proof {
            use_type_invariant(self);
            crate::domain::fixed::lemma_units_sign(self@);
            crate::domain::fixed::lemma_units_sign(Fixed::zero());
        }
        let zero = Amount::zero();
        zero.less_than(self) && self.scale <= PAYMENT_SCALE
    }

    /// Reads an amount from its decimal notation. A text of more than 256
    /// bytes is not read: there is no amount for it.
    pub fn parse(text: &str) -> (r: Option<Amount>)
        ensures
            amount_view(r) == amount_read(text@),
    {
        if text.as_bytes().len() > MAX_DECIMAL_TEXT {
            return None;
        }
        match decimal_from_str(text) {
            Some((mantissa, scale)) => Some(Amount { mantissa, scale }),
            None => None,
        }
    }

    /// Writes the amount in decimal notation, with all the fractional
    /// digits of its scale.
    pub fn to_text(&self) -> (r: String)
        ensures
            r@ == decimal_text(self@.mantissa, self@.scale),
    {
        proof {
            use_type_invariant(self);
        }
        decimal_to_string(self.mantissa, self.scale)
    }
}

impl PartialEq for Amount {
    /// Amounts are equal when they are numerically equal, whatever their
    /// scales.
    fn eq(&self, other: &Amount) -> (r: bool) {
        !self.less_than(other) && !other.less_than(self)
    }
}

impl PartialEqSpecImpl for Amount {
    open spec fn obeys_eq_spec() -> bool {
        true
    }

    open spec fn eq_spec(&self, other: &Amount) -> bool {
        self@.same_value(other@)
    }
}

} // verus!
