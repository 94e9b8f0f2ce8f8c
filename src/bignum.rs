//! Arbitrary-precision unsigned integers for the solver's intermediates,
//! taken from `num_bigint::BigUint`.
use num_bigint::BigUint;
use vstd::prelude::*;

verus! {

#[verifier::external_type_specification]
#[verifier::external_body]
pub struct ExBigUint(BigUint);

/// The number that a `BigUint` holds.
pub uninterp spec fn big_value(b: BigUint) -> nat;

/// Relies on `impl From<u128> for BigUint`: the same number.
#[verifier::external_body]
pub(crate) fn big_from(x: u128) -> (r: BigUint)
    ensures
        big_value(r) == x,
{
    BigUint::from(x)
}

/// Relies on `impl Add<&BigUint> for &BigUint`: the exact sum.
#[verifier::external_body]
pub(crate) fn big_add(a: &BigUint, b: &BigUint) -> (r: BigUint)
    ensures
        big_value(r) == big_value(*a) + big_value(*b),
{
    a + b
}

/// Relies on `impl Sub<&BigUint> for &BigUint`: the exact difference; it
/// panics when `b` exceeds `a`, hence the precondition.
#[verifier::external_body]
pub(crate) fn big_sub(a: &BigUint, b: &BigUint) -> (r: BigUint)
    requires
        big_value(*b) <= big_value(*a),
    ensures
        big_value(r) == big_value(*a) - big_value(*b),
{
    a - b
}

/// Relies on `impl Mul<&BigUint> for &BigUint`: the exact product.
#[verifier::external_body]
pub(crate) fn big_mul(a: &BigUint, b: &BigUint) -> (r: BigUint)
    ensures
        big_value(r) == big_value(*a) * big_value(*b),
{
    a * b
}

/// Relies on `impl Div<&BigUint> for &BigUint`: the floor quotient; it
/// panics on a zero divisor, hence the precondition.
#[verifier::external_body]
pub(crate) fn big_div(a: &BigUint, b: &BigUint) -> (r: BigUint)
    requires
        big_value(*b) != 0,
    ensures
        big_value(r) == big_value(*a) as int / big_value(*b) as int,
{
    a / b
}

/// Relies on `impl Ord for BigUint`: numeric order.
#[verifier::external_body]
pub(crate) fn big_le(a: &BigUint, b: &BigUint) -> (r: bool)
    ensures
        r == (big_value(*a) <= big_value(*b)),
{
    a <= b
}

/// Relies on `ToPrimitive::to_u128` for `BigUint`: `Some` exactly when the
/// number fits in a `u128`.
#[verifier::external_body]
pub(crate) fn big_to_u128(a: &BigUint) -> (r: Option<u128>)
    ensures
        big_value(*a) <= u128::MAX ==> r == Some(big_value(*a) as u128),
        big_value(*a) > u128::MAX ==> r.is_none(),
{
    num_traits::ToPrimitive::to_u128(a)
}

} // verus!
