//! Trusted wrappers around `num_bigint::BigUint` arithmetic. Digit vectors are
//! little-endian base-2^32, exactly the layout `BigUint::new` and
//! `BigUint::to_u32_digits` use, so each wrapper only repackages its operands.

use crate::digits::digits_value;
use vstd::arithmetic::power2::*;
use vstd::prelude::*;

verus! {

/// Relies on num_bigint::BigUint's `Rem`: remainder of integer division, which
/// panics on a zero divisor (ruled out by the precondition).
#[verifier::external_body]
pub(crate) fn big_mod_u64(x: u64, m: &Vec<u32>) -> (r: Vec<u32>)
    requires
        digits_value(m@) >= 1,
    ensures
        digits_value(r@) == (x as nat) % digits_value(m@),
{
    (num_bigint::BigUint::from(x) % num_bigint::BigUint::new(m.clone())).to_u32_digits()
}

/// Relies on num_bigint::BigUint's `Ord`: comparison by numeric value.
#[verifier::external_body]
pub(crate) fn big_lt(a: &Vec<u32>, b: &Vec<u32>) -> (r: bool)
    ensures
        r == (digits_value(a@) < digits_value(b@)),
{
    num_bigint::BigUint::new(a.clone()) < num_bigint::BigUint::new(b.clone())
}

/// Relies on num_bigint::BigUint's `Sub`: exact difference, which panics when
/// the subtrahend is the larger value (ruled out by the precondition).
#[verifier::external_body]
pub(crate) fn big_sub(a: &Vec<u32>, b: &Vec<u32>) -> (r: Vec<u32>)
    requires
        digits_value(b@) <= digits_value(a@),
    ensures
        digits_value(r@) == digits_value(a@) - digits_value(b@),
{
    (num_bigint::BigUint::new(a.clone()) - num_bigint::BigUint::new(b.clone())).to_u32_digits()
}

/// Relies on num_bigint::BigUint's `Shr`: a right shift by one bit halves the
/// value, rounding down.
#[verifier::external_body]
pub(crate) fn big_half(a: &Vec<u32>) -> (r: Vec<u32>)
    ensures
        digits_value(r@) == digits_value(a@) / 2,
{
    (num_bigint::BigUint::new(a.clone()) >> 1u32).to_u32_digits()
}

/// Relies on num_bigint::BigUint's `Shl`: shifting one left by `w` bits yields
/// 2^w.
#[verifier::external_body]
pub(crate) fn big_pow2(w: u32) -> (r: Vec<u32>)
    ensures
        digits_value(r@) == pow2(w as nat),
{
    (num_bigint::BigUint::from(1u32) << w).to_u32_digits()
}

} // verus!
