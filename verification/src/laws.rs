//! Laws relating the conversions: round trips, embedding correctness, and the
//! boundary behaviour of the range checks, stated over the same spec functions
//! the conversions' contracts use.

use crate::convert::{balanced_rep, fits_width};
use vstd::arithmetic::div_mod::*;
use vstd::arithmetic::power2::*;
use vstd::prelude::*;

verus! {

/// Round trip through the field, bounded: embedding an integer `x` with
/// `0 <= x < 2^63` (and `x < p`, since a residue cannot remember more than the
/// field holds) leaves the residue `x` itself, which `field_to_int` at width
/// 64 accepts and returns unchanged.
pub proof fn lemma_round_trip_int_field(x: int, p: int)
    requires
        p >= 2,
        0 <= x < 0x8000_0000_0000_0000,
        x < p,
    ensures
        x % p == x,
        fits_width((x % p) as nat, 64),
        x % p <= i64::MAX,
{
    lemma_small_mod(x as nat, p as nat);
    lemma2_to64();
}

/// Round trip through the signed embedding: for `x` in `(-p/2, p/2]`, the
/// balanced representative of the residue `x % p` is `x` again, so
/// `field_to_signed_secret_int` inverts `secret_int_to_signed_field` there.
pub proof fn lemma_round_trip_signed(x: int, p: int)
    requires
        p >= 2,
        -(p / 2) < x <= p / 2,
    ensures
        balanced_rep(x % p, p) == x,
{
    lemma_fundamental_div_mod(p, 2);
    if x >= 0 {
        lemma_small_mod(x as nat, p as nat);
    } else {
        lemma_fundamental_div_mod_converse_mod(x, p, -1, x + p);
    }
}

/// Bit round trip: `secret_int_to_bit` yields `z % 2` and `bit_to_secret_int`
/// returns its input unchanged, so the composition yields `z % 2`, which is
/// always zero or one.
pub proof fn lemma_round_trip_bit(z: int)
    ensures
        0 <= z % 2 <= 1,
{
    lemma_mod_division_less_than_divisor(z, 2);
}

/// Unsigned embedding correctness: for any 64-bit signed `x`, the wrapped
/// value `x % 2^64` that `secret_int_to_unsigned_field` reduces is `x` itself
/// when `x` is non-negative and `x + 2^64` (a value in `[2^63, 2^64)`) when
/// `x` is negative.
pub proof fn lemma_unsigned_wrap(x: int)
    requires
        -0x8000_0000_0000_0000 <= x < 0x8000_0000_0000_0000,
    ensures
        x >= 0 ==> x % 0x1_0000_0000_0000_0000 == x,
        x < 0 ==> x % 0x1_0000_0000_0000_0000 == x + 0x1_0000_0000_0000_0000,
{
    if x >= 0 {
        lemma_small_mod(x as nat, 0x1_0000_0000_0000_0000);
    } else {
        lemma_fundamental_div_mod_converse_mod(
            x,
            0x1_0000_0000_0000_0000,
            -1,
            x + 0x1_0000_0000_0000_0000,
        );
    }
}

/// Width boundary of `field_to_int`: a residue equal to `2^w` is out of range
/// at width `w`, while `2^w - 1` fits, and for widths up to 63 also fits the
/// signed 64-bit output, so it is returned unchanged.
pub proof fn lemma_field_to_int_boundary(w: u32)
    ensures
        !fits_width(pow2(w as nat), w),
        fits_width((pow2(w as nat) - 1) as nat, w),
        w <= 63 ==> pow2(w as nat) - 1 <= i64::MAX,
{
    lemma_pow2_pos(w as nat);
    if w <= 63 {
        lemma2_to64();
        lemma2_to64_rest();
        if w < 63 {
            lemma_pow2_strictly_increases(w as nat, 63);
        }
    }
}

/// Balanced-representative boundary: the residue `p / 2` is kept as it is by
/// `field_to_signed_secret_int`, while the next residue up, `p / 2 + 1`, is
/// mapped below zero by subtracting the modulus.
pub proof fn lemma_balanced_boundary(p: int)
    requires
        p >= 3,
    ensures
        p / 2 + 1 < p,
        balanced_rep(p / 2, p) == p / 2 >= 0,
        balanced_rep(p / 2 + 1, p) == p / 2 + 1 - p < 0,
{
    lemma_fundamental_div_mod(p, 2);
    lemma_mod_division_less_than_divisor(p, 2);
}

} // verus!
