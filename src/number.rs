//! Arithmetic on numbers of the language: IEEE-754 double precision values
//! carried as their 64-bit patterns and computed by `rustc_apfloat`.
use vstd::prelude::*;
use rustc_apfloat::ieee::Double;
use rustc_apfloat::Float;

verus! {

/// The double that `a + b` rounds to (nearest, ties to even).
pub uninterp spec fn float_sum(a: u64, b: u64) -> u64;

/// The double that `a - b` rounds to (nearest, ties to even).
pub uninterp spec fn float_difference(a: u64, b: u64) -> u64;

/// The double that `a * b` rounds to (nearest, ties to even).
pub uninterp spec fn float_product(a: u64, b: u64) -> u64;

/// The double that `a / b` rounds to (nearest, ties to even); a division by
/// zero gives an infinity or NaN.
pub uninterp spec fn float_quotient(a: u64, b: u64) -> u64;

/// The IEEE-754 order of two doubles: `None` when either is NaN.
pub uninterp spec fn float_order(a: u64, b: u64) -> Option<core::cmp::Ordering>;

/// The double that a decimal numeral denotes, if it is one.
pub uninterp spec fn float_parse(s: Seq<char>) -> Option<u64>;

/// The bit that holds the sign of a double.
pub const SIGN_BIT: u64 = 0x8000_0000_0000_0000;

/// Negation of a double flips its sign bit and nothing else.
pub open spec fn float_negate(a: u64) -> u64 {
    a ^ SIGN_BIT
}

/// Relies on `<Double as Add>::add` of rustc_apfloat (round to nearest, ties to even).
#[verifier::external_body]
pub(crate) fn num_add(a: u64, b: u64) -> (r: u64)
    ensures
        r == float_sum(a, b),
{
    (Double::from_bits(a as u128) + Double::from_bits(b as u128)).value.to_bits() as u64
}

/// Relies on `<Double as Sub>::sub` of rustc_apfloat (round to nearest, ties to even).
#[verifier::external_body]
pub(crate) fn num_sub(a: u64, b: u64) -> (r: u64)
    ensures
        r == float_difference(a, b),
{
    (Double::from_bits(a as u128) - Double::from_bits(b as u128)).value.to_bits() as u64
}

/// Relies on `<Double as Mul>::mul` of rustc_apfloat (round to nearest, ties to even).
#[verifier::external_body]
pub(crate) fn num_mul(a: u64, b: u64) -> (r: u64)
    ensures
        r == float_product(a, b),
{
    (Double::from_bits(a as u128) * Double::from_bits(b as u128)).value.to_bits() as u64
}

/// Relies on `<Double as Div>::div` of rustc_apfloat (round to nearest, ties to even).
#[verifier::external_body]
pub(crate) fn num_div(a: u64, b: u64) -> (r: u64)
    ensures
        r == float_quotient(a, b),
{
    (Double::from_bits(a as u128) / Double::from_bits(b as u128)).value.to_bits() as u64
}

/// Relies on `<Double as PartialOrd>::partial_cmp` of rustc_apfloat: the IEEE-754
/// order, `None` where a NaN takes part.
#[verifier::external_body]
pub(crate) fn num_compare(a: u64, b: u64) -> (r: Option<core::cmp::Ordering>)
    ensures
        r == float_order(a, b),
{
    Double::from_bits(a as u128).partial_cmp(&Double::from_bits(b as u128))
}

/// Relies on `<Double as FromStr>::from_str` of rustc_apfloat: a decimal numeral
/// read with rounding to nearest, ties to even.
#[verifier::external_body]
pub(crate) fn parse_number(s: &str) -> (r: Option<u64>)
    ensures
        r == float_parse(s@),
{
    s.parse::<Double>().ok().map(|d| d.to_bits() as u64)
}

/// Negates a double.
pub fn num_negate(a: u64) -> (r: u64)
    ensures
        r == float_negate(a),
{
    a ^ SIGN_BIT
}

} // verus!
