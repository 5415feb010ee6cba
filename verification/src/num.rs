//! Arbitrary-precision integers and token amounts.
//!
//! Balances are `num_bigint` integers (reached through `fvm_shared::bigint`).
//! Verus cannot look inside them, so each value is described by the mathematical
//! integer it stands for, and every operation used by the ledger is a small
//! trusted function that states its result over those integers.

use fvm_shared::bigint::BigInt;
use fvm_shared::bigint::BigUint;
use fvm_shared::econ::TokenAmount;
use vstd::prelude::*;

verus! {

/// `num_bigint::BigInt`: a signed integer of any size.
#[verifier::external_type_specification]
#[verifier::external_body]
pub struct ExBigInt(BigInt);

/// `num_bigint::BigUint`: an unsigned integer of any size.
#[verifier::external_type_specification]
#[verifier::external_body]
pub struct ExBigUint(BigUint);

/// `fvm_shared::econ::TokenAmount`: a number of native tokens, counted in
/// atto units.
#[verifier::external_type_specification]
#[verifier::external_body]
pub struct ExTokenAmount(TokenAmount);

/// The mathematical integer that a `BigInt` holds.
pub uninterp spec fn big_value(b: BigInt) -> int;

/// The mathematical integer that a `BigUint` holds.
pub uninterp spec fn biguint_value(b: BigUint) -> int;

/// The number of indivisible (atto) units that a `TokenAmount` holds.
pub uninterp spec fn token_value(t: TokenAmount) -> int;

/// The text that `Display` prints for a `BigInt` holding the number.
pub uninterp spec fn decimal_text(v: int) -> Seq<char>;

/// The text that `Display` prints for a `TokenAmount` of that many atto units.
pub uninterp spec fn token_decimal_text(v: int) -> Seq<char>;

/// Trusted: `BigInt::from(u64)` holds exactly the given number.
#[verifier::external_body]
pub(crate) fn big_from_u64(n: u64) -> (r: BigInt)
    ensures
        big_value(r) == n,
{
    BigInt::from(n)
}

/// Trusted: `BigInt::from(i64)` holds exactly the given number.
#[verifier::external_body]
pub(crate) fn big_from_i64(n: i64) -> (r: BigInt)
    ensures
        big_value(r) == n,
{
    BigInt::from(n)
}

/// Trusted: `BigInt::from(BigUint)` keeps the number, which is never negative.
#[verifier::external_body]
pub(crate) fn big_from_biguint(n: BigUint) -> (r: BigInt)
    ensures
        big_value(r) == biguint_value(n),
        big_value(r) >= 0,
{
    BigInt::from(n)
}

/// Trusted: `BigInt::clone` yields a value holding the same number.
#[verifier::external_body]
pub(crate) fn big_clone(a: &BigInt) -> (r: BigInt)
    ensures
        big_value(r) == big_value(*a),
{
    a.clone()
}

/// Trusted: `&BigInt + &BigInt` is the exact sum.
#[verifier::external_body]
pub(crate) fn big_add(a: &BigInt, b: &BigInt) -> (r: BigInt)
    ensures
        big_value(r) == big_value(*a) + big_value(*b),
{
    a + b
}

/// Trusted: `&BigInt - &BigInt` is the exact difference.
#[verifier::external_body]
pub(crate) fn big_sub(a: &BigInt, b: &BigInt) -> (r: BigInt)
    ensures
        big_value(r) == big_value(*a) - big_value(*b),
{
    a - b
}

/// Trusted: `&BigInt * &BigInt` is the exact product.
#[verifier::external_body]
pub(crate) fn big_mul(a: &BigInt, b: &BigInt) -> (r: BigInt)
    ensures
        big_value(r) == big_value(*a) * big_value(*b),
{
    a * b
}

/// Trusted: `&BigInt / u64` divides the magnitude and keeps the sign, so for a
/// dividend that is not negative it is the floor of the quotient. The call
/// panics on a zero divisor, which the precondition leaves out.
#[verifier::external_body]
pub(crate) fn big_div_u64(a: &BigInt, d: u64) -> (r: BigInt)
    requires
        d > 0,
        big_value(*a) >= 0,
    ensures
        big_value(r) == big_value(*a) / (d as int),
{
    a / d
}

/// Trusted: `<` on `BigInt` compares the numbers held.
#[verifier::external_body]
pub(crate) fn big_lt(a: &BigInt, b: &BigInt) -> (r: bool)
    ensures
        r == (big_value(*a) < big_value(*b)),
{
    a < b
}

/// Trusted: `TokenAmount::atto` hands out the amount in atto units.
#[verifier::external_body]
pub(crate) fn token_atto(t: &TokenAmount) -> (r: BigInt)
    ensures
        big_value(r) == token_value(*t),
{
    t.atto().clone()
}

/// Trusted: `TokenAmount::from_atto` holds exactly the given number of atto units.
#[verifier::external_body]
pub(crate) fn token_from_atto(atto: BigInt) -> (r: TokenAmount)
    ensures
        token_value(r) == big_value(atto),
{
    TokenAmount::from_atto(atto)
}

/// Trusted: the decimal digits that `Display` prints for a `BigInt`, with a
/// leading minus sign below zero.
#[verifier::external_body]
pub(crate) fn big_text(a: &BigInt) -> (r: String)
    ensures
        r@ == decimal_text(big_value(*a)),
{
    format!("{}", a)
}

/// Trusted: what `Display` prints for a `TokenAmount`: the amount in whole
/// tokens as a decimal fraction.
#[verifier::external_body]
pub(crate) fn token_text(t: &TokenAmount) -> (r: String)
    ensures
        r@ == token_decimal_text(token_value(*t)),
{
    format!("{}", t)
}

/// The big integer zero.
pub fn big_zero() -> (r: BigInt)
    ensures
        big_value(r) == 0,
{
    big_from_u64(0)
}

/// Whether `a <= b`.
pub fn big_le(a: &BigInt, b: &BigInt) -> (r: bool)
    ensures
        r == (big_value(*a) <= big_value(*b)),
{
    !big_lt(b, a)
}

/// Whether the two hold the same number.
pub fn big_eq(a: &BigInt, b: &BigInt) -> (r: bool)
    ensures
        r == (big_value(*a) == big_value(*b)),
{
    !big_lt(a, b) && !big_lt(b, a)
}

/// Whether the number is zero.
pub fn big_is_zero(a: &BigInt) -> (r: bool)
    ensures
        r == (big_value(*a) == 0),
{
    let zero = big_zero();
    big_eq(a, &zero)
}

/// Whether the number is below zero.
pub fn big_is_negative(a: &BigInt) -> (r: bool)
    ensures
        r == (big_value(*a) < 0),
{
    let zero = big_zero();
    big_lt(a, &zero)
}

/// The larger of two numbers.
pub fn big_max(a: &BigInt, b: &BigInt) -> (r: BigInt)
    ensures
        big_value(r) == if big_value(*a) >= big_value(*b) {
            big_value(*a)
        } else {
            big_value(*b)
        },
{
    if big_lt(a, b) {
        big_clone(b)
    } else {
        big_clone(a)
    }
}

/// The smaller of two numbers.
pub fn big_min(a: &BigInt, b: &BigInt) -> (r: BigInt)
    ensures
        big_value(r) == if big_value(*a) <= big_value(*b) {
            big_value(*a)
        } else {
            big_value(*b)
        },
{
    if big_lt(b, a) {
        big_clone(b)
    } else {
        big_clone(a)
    }
}

/// `(later - earlier) * amount`, computed without any machine-width limit.
pub fn span_times(later: i64, earlier: i64, amount: &BigInt) -> (r: BigInt)
    ensures
        big_value(r) == (later - earlier) * big_value(*amount),
{
    let l = big_from_i64(later);
    let e = big_from_i64(earlier);
    let d = big_sub(&l, &e);
    big_mul(&d, amount)
}

} // verus!
