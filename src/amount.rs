use rust_decimal::{Decimal, RoundingStrategy};
use vstd::prelude::*;

use crate::error::Error;

verus! {

/// The largest number of ten-thousandths an `Amount` can hold: the largest
/// 96-bit mantissa.
pub const MAX_UNITS: u128 = 79228162514264337593543950335;

/// Number of fractional decimal digits an `Amount` keeps.
pub const DECIMAL_POINTS: u32 = 4;

#[verifier::external_type_specification]
#[verifier::external_body]
pub struct ExDecimal(Decimal);

/// The sign of `d`, and the magnitude of the mantissa and the scale of `d`
/// rounded half-to-even to `dp` fractional digits.
pub uninterp spec fn rounded_decimal_parts(d: Decimal, dp: u32) -> (bool, u128, u32);

/// Relies on `Decimal::round_dp_with_strategy` with `MidpointNearestEven`
/// (banker's rounding), then `Decimal::is_sign_negative`, `Decimal::mantissa`
/// and `Decimal::scale`: the mantissa of a `Decimal` has at most 96 bits, and a
/// rounded value keeps at most `dp` fractional digits.  The flag is the sign of
/// `d` itself, before rounding.
#[verifier::external_body]
fn rounded_parts(d: &Decimal, dp: u32) -> (r: (bool, u128, u32))
    ensures
        r == rounded_decimal_parts(*d, dp),
        r.1 <= MAX_UNITS,
        r.2 <= dp,
{
    let rounded = d.round_dp_with_strategy(dp, RoundingStrategy::MidpointNearestEven);
    (d.is_sign_negative(), rounded.mantissa().unsigned_abs(), rounded.scale())
}

/// The factor that turns a mantissa with `scale` fractional digits into
/// ten-thousandths.
pub open spec fn scale_factor(scale: u32) -> nat {
    if scale == 0 {
        10000
    } else if scale == 1 {
        1000
    } else if scale == 2 {
        100
    } else if scale == 3 {
        10
    } else {
        1
    }
}

/// A decimal given as sign, mantissa and scale is a valid amount: not
/// negative, at most four fractional digits, and no larger than the maximum.
pub open spec fn parts_in_bounds(negative: bool, magnitude: u128, scale: u32) -> bool {
    &&& !negative
    &&& scale <= DECIMAL_POINTS
    &&& magnitude * scale_factor(scale) <= MAX_UNITS
}

/// `r` is what building an amount from these decimal parts gives.
pub open spec fn parts_outcome(
    r: Result<Amount, Error>,
    negative: bool,
    magnitude: u128,
    scale: u32,
) -> bool {
    match r {
        Ok(a) => parts_in_bounds(negative, magnitude, scale) && a@ == magnitude * scale_factor(
            scale,
        ),
        Err(e) => !parts_in_bounds(negative, magnitude, scale) && e == Error::AmountOutOfBounds,
    }
}

/// A non-negative decimal with four fractional digits, held as a whole number
/// of ten-thousandths no larger than `MAX_UNITS`.
#[derive(Debug, Clone, Copy, PartialEq, Eq, PartialOrd, Ord, Hash)]
pub struct Amount {
    units: u128,
}

impl View for Amount {
    type V = nat;

    /// The amount in ten-thousandths.
    closed spec fn view(&self) -> nat {
        self.units as nat
    }
}

/// Two amounts with the same value are the same amount.
pub proof fn lemma_amount_view_injective(a: Amount, b: Amount)
    requires
        a@ == b@,
    ensures
        a == b,
{
}

impl Amount {
    #[verifier::type_invariant]
    pub open spec fn bounded(self) -> bool {
        self@ <= MAX_UNITS
    }

    /// Zero.
    pub fn zero() -> (r: Amount)
        ensures
            r@ == 0,
    {
        Amount { units: 0 }
    }

    /// The largest amount, 7922816251426433759354395.0335.
    pub fn maximum() -> (r: Amount)
        ensures
            r@ == MAX_UNITS,
    {
        Amount { units: MAX_UNITS }
    }

    /// The whole number `inner`; every `u64` fits.
    pub fn from_u64(inner: u64) -> (r: Amount)
        ensures
            r@ == inner * 10000,
    {
        Amount { units: inner as u128 * 10000 }
    }

    /// The amount in ten-thousandths.
    pub fn units(&self) -> (r: u128)
        ensures
            r == self@,
            r <= MAX_UNITS,
    {
        proof {
            use_type_invariant(self);
        }
        self.units
    }

    /// Whether the amount is zero.
    pub fn is_zero(&self) -> (r: bool)
        ensures
            r == (self@ == 0),
    {
        self.units == 0
    }

    /// The amount that the decimal `magnitude / 10^scale`, negated when
    /// `negative` holds, stands for; `AmountOutOfBounds` when it is negative,
    /// has more than four fractional digits, or exceeds the maximum.
    pub fn from_parts(negative: bool, magnitude: u128, scale: u32) -> (r: Result<Amount, Error>)
        ensures
            parts_outcome(r, negative, magnitude, scale),
    {
        if negative || scale > DECIMAL_POINTS {
            return Err(Error::AmountOutOfBounds);
        }
        let factor: u128 = if scale == 0 {
            10000
        } else if scale == 1 {
            1000
        } else if scale == 2 {
            100
        } else if scale == 3 {
            10
        } else {
            1
        };
        assert(factor == scale_factor(scale));
        if magnitude > MAX_UNITS / factor {
            assert(magnitude * factor > MAX_UNITS) by (nonlinear_arith)
                requires
                    magnitude > MAX_UNITS / factor,
                    factor > 0,
            ;
            return Err(Error::AmountOutOfBounds);
        }
        assert(magnitude * factor <= MAX_UNITS) by (nonlinear_arith)
            requires
                magnitude <= MAX_UNITS / factor,
                factor > 0,
        ;
        Ok(Amount { units: magnitude * factor })
    }

    /// The decimal rounded half-to-even to four fractional digits;
    /// `AmountOutOfBounds` when it is negative or the rounded value exceeds
    /// the maximum.
    pub fn from_decimal(inner: Decimal) -> (r: Result<Amount, Error>)
        ensures
            parts_outcome(
                r,
                rounded_decimal_parts(inner, DECIMAL_POINTS).0,
                rounded_decimal_parts(inner, DECIMAL_POINTS).1,
                rounded_decimal_parts(inner, DECIMAL_POINTS).2,
            ),
    {
        let (negative, magnitude, scale) = rounded_parts(&inner, DECIMAL_POINTS);
        Amount::from_parts(negative, magnitude, scale)
    }

    /// `self + rhs`, or `None` when the sum exceeds the maximum.
    pub fn checked_add(&self, rhs: &Amount) -> (r: Option<Amount>)
        ensures
            match r {
                Some(s) => self@ + rhs@ <= MAX_UNITS && s@ == self@ + rhs@,
                None => self@ + rhs@ > MAX_UNITS,
            },
    {
        proof {
            use_type_invariant(self);
            use_type_invariant(rhs);
        }
        if self.units > MAX_UNITS - rhs.units {
            None
        } else {
            Some(Amount { units: self.units + rhs.units })
        }
    }

    /// `self - rhs`, for an `rhs` no larger than `self`.
    pub fn reduced_by(&self, rhs: &Amount) -> (r: Amount)
        requires
            rhs@ <= self@,
        ensures
            r@ == self@ - rhs@,
    {
        proof {
            use_type_invariant(self);
        }
        Amount { units: self.units - rhs.units }
    }

    /// `self - rhs`, or `None` when the difference would be negative.
    pub fn checked_sub(&self, rhs: &Amount) -> (r: Option<Amount>)
        ensures
            match r {
                Some(s) => rhs@ <= self@ && s@ == self@ - rhs@,
                None => rhs@ > self@,
            },
    {
        proof {
            use_type_invariant(self);
        }
        if rhs.units > self.units {
            None
        } else {
            Some(Amount { units: self.units - rhs.units })
        }
    }
}

} // verus!
