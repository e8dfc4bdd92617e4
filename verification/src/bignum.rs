//! Arbitrary-precision integers, provided by `num_bigint`, with the
//! contracts under which the rest of the library uses them.

use crate::modular::inverts;
use num_bigint::BigInt;
use num_traits::Euclid;
use vstd::prelude::*;

verus! {

/// The big integers of `num_bigint`, opaque to the verifier: what one holds
/// is known only through `big_value`.
#[verifier::external_type_specification]
#[verifier::external_body]
pub struct ExBigInt(num_bigint::BigInt);

/// The mathematical integer that a `BigInt` holds.
pub uninterp spec fn big_value(n: BigInt) -> int;

/// `BigInt::from` on a `u64`: the result holds exactly that number.
#[verifier::external_body]
pub(crate) fn big_from_u64(x: u64) -> (r: BigInt)
    ensures
        big_value(r) == x,
{
    BigInt::from(x)
}

/// `BigInt::from` on an `i64`: the result holds exactly that number.
#[verifier::external_body]
pub(crate) fn big_from_i64(x: i64) -> (r: BigInt)
    ensures
        big_value(r) == x,
{
    BigInt::from(x)
}

/// `Clone::clone` of a `BigInt`: the copy holds the same integer.
#[verifier::external_body]
pub(crate) fn big_clone(a: &BigInt) -> (r: BigInt)
    ensures
        big_value(r) == big_value(*a),
{
    a.clone()
}

/// `&BigInt + &BigInt`: integer addition, without any bound.
#[verifier::external_body]
pub(crate) fn big_add(a: &BigInt, b: &BigInt) -> (r: BigInt)
    ensures
        big_value(r) == big_value(*a) + big_value(*b),
{
    a + b
}

/// `&BigInt - &BigInt`: integer subtraction, without any bound.
#[verifier::external_body]
pub(crate) fn big_sub(a: &BigInt, b: &BigInt) -> (r: BigInt)
    ensures
        big_value(r) == big_value(*a) - big_value(*b),
{
    a - b
}

/// `&BigInt * &BigInt`: integer multiplication, without any bound.
#[verifier::external_body]
pub(crate) fn big_mul(a: &BigInt, b: &BigInt) -> (r: BigInt)
    ensures
        big_value(r) == big_value(*a) * big_value(*b),
{
    a * b
}

/// `Euclid::rem_euclid` of `num_traits` on `BigInt`: the least non-negative
/// remainder. The outside function panics on a zero divisor, which the
/// precondition leaves out.
#[verifier::external_body]
pub(crate) fn big_rem_euclid(a: &BigInt, m: &BigInt) -> (r: BigInt)
    requires
        big_value(*m) != 0,
    ensures
        big_value(r) == big_value(*a) % big_value(*m),
{
    a.rem_euclid(m)
}

/// `Euclid::div_euclid` of `num_traits` on `BigInt`: the quotient that goes
/// with the least non-negative remainder. The outside function panics on a
/// zero divisor, which the precondition leaves out.
#[verifier::external_body]
pub(crate) fn big_div_euclid(a: &BigInt, m: &BigInt) -> (r: BigInt)
    requires
        big_value(*m) != 0,
    ensures
        big_value(r) == big_value(*a) / big_value(*m),
{
    a.div_euclid(m)
}

/// `PartialEq::eq` on `BigInt`: true exactly when both hold the same integer.
#[verifier::external_body]
pub(crate) fn big_eq(a: &BigInt, b: &BigInt) -> (r: bool)
    ensures
        r == (big_value(*a) == big_value(*b)),
{
    a == b
}

/// `PartialOrd::lt` on `BigInt`: the order of the integers.
#[verifier::external_body]
pub(crate) fn big_lt(a: &BigInt, b: &BigInt) -> (r: bool)
    ensures
        r == (big_value(*a) < big_value(*b)),
{
    a < b
}

/// `BigInt::modinv`: the inverse of `a` modulo `m` in `[0, m)` where one
/// exists, and `None` where none does. The outside function panics on a
/// zero modulus and follows the sign of a negative one; the precondition
/// asks for a modulus above one, for which the interval is as stated
/// whatever the sign of `a`.
#[verifier::external_body]
pub(crate) fn big_modinv(a: &BigInt, m: &BigInt) -> (r: Option<BigInt>)
    requires
        big_value(*m) > 1,
    ensures
        match r {
            Some(x) => 0 <= big_value(x) < big_value(*m) && inverts(
                big_value(*a),
                big_value(x),
                big_value(*m),
            ),
            None => forall|x: int| !#[trigger] inverts(big_value(*a), x, big_value(*m)),
        },
{
    a.modinv(m)
}

/// Zero as a big integer.
pub fn big_zero() -> (r: BigInt)
    ensures
        big_value(r) == 0,
{
    big_from_u64(0)
}

} // verus!
