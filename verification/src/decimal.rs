//! Logarithm, exponential and whole powers of fixed-point quantities,
//! computed by the `rust_decimal` crate. Nothing in this file is proved:
//! the three functions are as good as that crate's arithmetic. Their
//! results are rounded to the nearest millionth.

use vstd::prelude::*;
use rust_decimal::Decimal;
use rust_decimal::MathematicalOps;

verus! {

/// What `Decimal::checked_ln` returns for the quantity of `x` millionths,
/// rounded to millionths; `None` where it returns none or the value is too
/// large for a quantity.
pub uninterp spec fn decimal_ln(x: i64) -> Option<i64>;

/// What `Decimal::checked_exp` returns for the quantity of `x` millionths,
/// rounded to millionths; `None` where it returns none or the value is too
/// large for a quantity.
pub uninterp spec fn decimal_exp(x: i64) -> Option<i64>;

/// What `Decimal::checked_powi` returns for the quantity of `base`
/// millionths and the whole number `exponent`, rounded to millionths;
/// `None` where it returns none or the value is too large for a quantity.
pub uninterp spec fn decimal_powi(base: i64, exponent: i64) -> Option<i64>;

/// Calls `rust_decimal::MathematicalOps::checked_powi` on the decimal of
/// `base` millionths. The contract only names the outcome: the crate
/// computes it from the two arguments alone, by repeated squaring in
/// decimal arithmetic. The result is brought to six decimals with
/// `Decimal::rescale` and read off with `Decimal::mantissa`.
#[verifier::external_body]
pub(crate) fn powi_micro(base: i64, exponent: i64) -> (power: Option<i64>)
    ensures
        power == decimal_powi(base, exponent),
{
    let mut value = Decimal::new(base, 6).checked_powi(exponent)?;
    value.rescale(6);
    i64::try_from(value.mantissa()).ok()
}

/// Calls `rust_decimal::MathematicalOps::checked_ln` on the decimal of `x`
/// millionths. The contract only names the outcome: the crate computes it
/// from `x` alone, by a series. The result is brought to six decimals with
/// `Decimal::rescale` and read off with `Decimal::mantissa`.
#[verifier::external_body]
pub(crate) fn ln_micro(x: i64) -> (ln: Option<i64>)
    ensures
        ln == decimal_ln(x),
{
    let mut value = Decimal::new(x, 6).checked_ln()?;
    value.rescale(6);
    i64::try_from(value.mantissa()).ok()
}

/// Calls `rust_decimal::MathematicalOps::checked_exp` on the decimal of `x`
/// millionths. The contract only names the outcome: the crate computes it
/// from `x` alone, by a series. The result is brought to six decimals with
/// `Decimal::rescale` and read off with `Decimal::mantissa`.
#[verifier::external_body]
pub(crate) fn exp_micro(x: i64) -> (exp: Option<i64>)
    ensures
        exp == decimal_exp(x),
{
    let mut value = Decimal::new(x, 6).checked_exp()?;
    value.rescale(6);
    i64::try_from(value.mantissa()).ok()
}

} // verus!
