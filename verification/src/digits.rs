//! Little-endian base-2^32 digit vectors: the plain representation of the
//! arbitrary-precision non-negative integers that field residues and the
//! modulus are made of, with verified narrowing to and widening from `u64`.

use vstd::arithmetic::div_mod::*;
use vstd::arithmetic::power2::*;
use vstd::prelude::*;

verus! {

/// Numeric value of a little-endian sequence of base-2^32 digits.
pub open spec fn digits_value(s: Seq<u32>) -> nat
    decreases s.len(),
{
    if s.len() == 0 {
        0
    } else {
        s[0] as nat + 0x1_0000_0000 * digits_value(s.subrange(1, s.len() as int))
    }
}

/// A sequence of zero digits has value zero.
pub proof fn lemma_digits_value_all_zero(s: Seq<u32>)
    requires
        forall|j: int| 0 <= j < s.len() ==> s[j] == 0,
    ensures
        digits_value(s) == 0,
    decreases s.len(),
{
    if s.len() > 0 {
        lemma_digits_value_all_zero(s.subrange(1, s.len() as int));
    }
}

/// A non-zero digit at position `i` forces the value to at least 2^(32*i).
pub proof fn lemma_digits_value_nonzero_digit(s: Seq<u32>, i: int)
    requires
        0 <= i < s.len(),
        s[i] != 0,
    ensures
        digits_value(s) >= pow2((32 * i) as nat),
    decreases i,
{
    let rest = s.subrange(1, s.len() as int);
    if i == 0 {
        lemma2_to64();
        assert(digits_value(s) >= s[0] as nat);
    } else {
        lemma_digits_value_nonzero_digit(rest, i - 1);
        lemma_pow2_adds(32, (32 * i - 32) as nat);
        lemma2_to64();
        assert(0x1_0000_0000 * digits_value(rest) >= 0x1_0000_0000 * pow2((32 * i - 32) as nat))
            by (nonlinear_arith)
            requires
                digits_value(rest) >= pow2((32 * i - 32) as nat),
        ;
    }
}

/// Splitting off the two lowest digits of a sequence of length at least two.
pub proof fn lemma_digits_value_split2(s: Seq<u32>)
    requires
        s.len() >= 2,
    ensures
        digits_value(s) == s[0] as nat + 0x1_0000_0000 * (s[1] as nat)
            + 0x1_0000_0000_0000_0000 * digits_value(s.subrange(2, s.len() as int)),
{
    let r1 = s.subrange(1, s.len() as int);
    assert(r1.subrange(1, r1.len() as int) =~= s.subrange(2, s.len() as int));
    assert(digits_value(r1) == r1[0] as nat + 0x1_0000_0000 * digits_value(
        r1.subrange(1, r1.len() as int),
    ));
}

/// Narrow a digit vector to a `u64`; reports a value at or above 2^64 instead
/// of truncating it.
pub fn digits_to_u64(d: &Vec<u32>) -> (r: Option<u64>)
    ensures
        match r {
            Some(v) => v as nat == digits_value(d@),
            None => digits_value(d@) >= 0x1_0000_0000_0000_0000,
        },
{
    let n = d.len();
    let mut i: usize = 2;
    while i < n
        invariant
            n == d@.len(),
            2 <= i,
            i <= n || i == 2,
            forall|j: int| 2 <= j < i ==> d@[j] == 0,
        decreases n - i,
    {
        if d[i] != 0 {
            proof {
                lemma_digits_value_nonzero_digit(d@, i as int);
                lemma2_to64();
                if i > 2 {
                    lemma_pow2_strictly_increases(64, (32 * i as int) as nat);
                }
            }
            return None;
        }
        i += 1;
    }
    let lo: u64 = if n >= 1 {
        d[0] as u64
    } else {
        0
    };
    let hi: u64 = if n >= 2 {
        d[1] as u64
    } else {
        0
    };
    proof {
        if d@.len() >= 2 {
            lemma_digits_value_split2(d@);
            lemma_digits_value_all_zero(d@.subrange(2, d@.len() as int));
        } else if d@.len() == 1 {
            assert(digits_value(d@.subrange(1, 1)) == 0);
        }
    }
    Some(lo + hi * 0x1_0000_0000)
}

/// Widen a `u64` to a digit vector of the same value.
pub fn u64_to_digits(v: u64) -> (r: Vec<u32>)
    ensures
        digits_value(r@) == v as nat,
{
    let lo: u32 = (v % 0x1_0000_0000) as u32;
    let hi: u32 = (v / 0x1_0000_0000) as u32;
    let mut r: Vec<u32> = Vec::new();
    r.push(lo);
    r.push(hi);
    proof {
        lemma_fundamental_div_mod(v as int, 0x1_0000_0000);
        let s1 = r@.subrange(1, 2);
        assert(s1.subrange(1, s1.len() as int) =~= Seq::<u32>::empty());
        assert(digits_value(s1) == s1[0] as nat + 0x1_0000_0000 * digits_value(
            s1.subrange(1, s1.len() as int),
        ));
        assert(digits_value(Seq::<u32>::empty()) == 0);
        assert(s1[0] == hi);
        assert(r@[0] == lo);
    }
    r
}

} // verus!
