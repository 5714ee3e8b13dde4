//! The numeric domains of the conversion layer — modulus, clear and secret
//! field elements, secret integers, secret bits — and the directed conversions
//! between them, each with an exact arithmetic contract.

use crate::bigops::{big_half, big_lt, big_mod_u64, big_pow2, big_sub};
use crate::digits::{digits_to_u64, digits_value, u64_to_digits};
use vstd::arithmetic::div_mod::*;
use vstd::arithmetic::power2::*;
use vstd::prelude::*;

verus! {

/// Failure kinds of the fallible conversions: a field value outside the
/// requested bit width, or a value the fixed-width output type cannot hold.
#[derive(Clone, Copy, Debug, PartialEq, Eq, Structural)]
pub enum ConvError {
    RangeOverflow,
    NarrowingOverflow,
}

/// The prime modulus defining the field: residues live in `[0, self@)`.
/// Primality is the caller's concern; the conversions only need `self@ >= 2`.
pub struct Modulus {
    digits: Vec<u32>,
}

impl View for Modulus {
    type V = nat;

    closed spec fn view(&self) -> nat {
        digits_value(self.digits@)
    }
}

impl Modulus {
    pub open spec fn wf(&self) -> bool {
        self@ >= 2
    }

    /// Build a modulus from little-endian base-2^32 digits; values below two
    /// are rejected.
    pub fn new(digits: Vec<u32>) -> (r: Option<Modulus>)
        ensures
            match r {
                Some(m) => m@ == digits_value(digits@) && m.wf(),
                None => digits_value(digits@) < 2,
            },
    {
        let small = match digits_to_u64(&digits) {
            Some(v) => v < 2,
            None => false,
        };
        if small {
            None
        } else {
            Some(Modulus { digits })
        }
    }

    /// Build a modulus from a `u64` value of at least two.
    pub fn from_u64(p: u64) -> (r: Option<Modulus>)
        ensures
            match r {
                Some(m) => m@ == p as nat && m.wf(),
                None => p < 2,
            },
    {
        if p >= 2 {
            Some(Modulus { digits: u64_to_digits(p) })
        } else {
            None
        }
    }
}

/// A clear (non-secret) field element: the canonical residue in `[0, P)`.
pub struct ClearField {
    digits: Vec<u32>,
}

impl View for ClearField {
    type V = nat;

    closed spec fn view(&self) -> nat {
        digits_value(self.digits@)
    }
}

impl ClearField {
    /// A clear field element is well formed for a modulus when its residue is
    /// canonical, that is, below the modulus.
    pub open spec fn wf(&self, m: &Modulus) -> bool {
        self@ < m@
    }

    /// Build a field element from little-endian base-2^32 digits; a value at
    /// or above the modulus is rejected rather than reduced.
    pub fn from_digits(digits: Vec<u32>, m: &Modulus) -> (r: Option<ClearField>)
        ensures
            match r {
                Some(f) => f@ == digits_value(digits@) && f.wf(m),
                None => digits_value(digits@) >= m@,
            },
    {
        if big_lt(&digits, &m.digits) {
            Some(ClearField { digits })
        } else {
            None
        }
    }

    /// The residue as a `u64`, when it fits.
    pub fn as_u64(&self) -> (r: Option<u64>)
        ensures
            match r {
                Some(v) => v as nat == self@,
                None => self@ >= 0x1_0000_0000_0000_0000,
            },
    {
        digits_to_u64(&self.digits)
    }

    /// Runtime check of well-formedness for `m`.
    pub fn is_canonical(&self, m: &Modulus) -> (r: bool)
        ensures
            r == self.wf(m),
    {
        big_lt(&self.digits, &m.digits)
    }
}

/// A secret-tagged field element: same residue domain and reduction rule as
/// `ClearField`, distinguished at the type level.
pub struct SecretField {
    digits: Vec<u32>,
}

impl View for SecretField {
    type V = nat;

    closed spec fn view(&self) -> nat {
        digits_value(self.digits@)
    }
}

impl SecretField {
    /// A secret field element is well formed for a modulus when its residue is
    /// canonical, that is, below the modulus.
    pub open spec fn wf(&self, m: &Modulus) -> bool {
        self@ < m@
    }

    /// Build a secret field element from little-endian base-2^32 digits; a
    /// value at or above the modulus is rejected rather than reduced.
    pub fn from_digits(digits: Vec<u32>, m: &Modulus) -> (r: Option<SecretField>)
        ensures
            match r {
                Some(f) => f@ == digits_value(digits@) && f.wf(m),
                None => digits_value(digits@) >= m@,
            },
    {
        if big_lt(&digits, &m.digits) {
            Some(SecretField { digits })
        } else {
            None
        }
    }

    /// The residue as a `u64`, when it fits.
    pub fn as_u64(&self) -> (r: Option<u64>)
        ensures
            match r {
                Some(v) => v as nat == self@,
                None => self@ >= 0x1_0000_0000_0000_0000,
            },
    {
        digits_to_u64(&self.digits)
    }

    /// Runtime check of well-formedness for `m`.
    pub fn is_canonical(&self, m: &Modulus) -> (r: bool)
        ensures
            r == self.wf(m),
    {
        big_lt(&self.digits, &m.digits)
    }
}

/// A secret-tagged 64-bit signed integer.
pub struct SecretInt {
    value: i64,
}

impl View for SecretInt {
    type V = int;

    closed spec fn view(&self) -> int {
        self.value as int
    }
}

impl SecretInt {
    pub fn value(&self) -> (r: i64)
        ensures
            r == self@,
    {
        self.value
    }
}

/// A secret-tagged single bit, held as an integer that is always zero or one.
pub struct SecretBit {
    value: i64,
}

impl View for SecretBit {
    type V = int;

    closed spec fn view(&self) -> int {
        self.value as int
    }
}

impl SecretBit {
    pub open spec fn wf(&self) -> bool {
        self@ == 0 || self@ == 1
    }

    pub fn value(&self) -> (r: i64)
        ensures
            r == self@,
    {
        self.value
    }
}

/// The balanced representative of residue `v` modulo `p`: the integer nearest
/// zero (ties to the positive side) whose residue is `v`.
pub open spec fn balanced_rep(v: int, p: int) -> int {
    if v > p / 2 {
        v - p
    } else {
        v
    }
}

/// Whether residue `v` fits in `w` bits.
pub open spec fn fits_width(v: nat, w: u32) -> bool {
    v < pow2(w as nat)
}

/// Residue of the negation of a non-negative integer.
proof fn lemma_neg_mod(n: int, m: int)
    requires
        n >= 0,
        m >= 1,
    ensures
        (-n) % m == if n % m == 0 {
            0int
        } else {
            m - n % m
        },
{
    let q = n / m;
    let t = n % m;
    lemma_fundamental_div_mod(n, m);
    lemma_mod_division_less_than_divisor(n, m);
    if t == 0 {
        assert((-q) * m + 0 == -n) by (nonlinear_arith)
            requires
                n == m * q + 0,
        ;
        lemma_fundamental_div_mod_converse_mod(-n, m, -q, 0);
    } else {
        assert((-q - 1) * m + (m - t) == -n) by (nonlinear_arith)
            requires
                n == m * q + t,
        ;
        lemma_fundamental_div_mod_converse_mod(-n, m, -q - 1, m - t);
    }
}

/// Magnitude of a signed 64-bit integer, exact also at the minimum value.
fn abs_u64(x: i64) -> (r: u64)
    ensures
        r as int == if x >= 0 {
            x as int
        } else {
            -(x as int)
        },
{
    if x >= 0 {
        x as u64
    } else if x == i64::MIN {
        0x8000_0000_0000_0000u64
    } else {
        (-x) as u64
    }
}

/// Canonical residue of a signed 64-bit integer modulo the modulus value.
fn reduce_i64(x: i64, m: &Modulus) -> (r: Vec<u32>)
    requires
        m.wf(),
    ensures
        digits_value(r@) == (x as int) % (m@ as int),
{
    if x >= 0 {
        big_mod_u64(x as u64, &m.digits)
    } else {
        let a = abs_u64(x);
        let t = big_mod_u64(a, &m.digits);
        proof {
            lemma_neg_mod(a as int, m@ as int);
            lemma_mod_division_less_than_divisor(a as int, m@ as int);
        }
        let zero = match digits_to_u64(&t) {
            Some(v) => v == 0,
            None => false,
        };
        if zero {
            let r: Vec<u32> = Vec::new();
            assert(digits_value(r@) == 0);
            r
        } else {
            big_sub(&m.digits, &t)
        }
    }
}

/// Embed a signed 64-bit integer into the clear field: reduce its exact value
/// modulo the modulus; negative inputs map to their positive residue.
pub fn int_to_field(x: i64, m: &Modulus) -> (r: ClearField)
    requires
        m.wf(),
    ensures
        r@ == (x as int) % (m@ as int),
        r.wf(m),
{
    proof {
        lemma_mod_division_less_than_divisor(x as int, m@ as int);
    }
    ClearField { digits: reduce_i64(x, m) }
}

/// Narrow a clear field residue to a signed 64-bit integer, provided it fits
/// in `w` bits (else `RangeOverflow`) and in the output type (else
/// `NarrowingOverflow`).
pub fn field_to_int(f: &ClearField, w: u32) -> (r: Result<i64, ConvError>)
    ensures
        match r {
            Ok(v) => fits_width(f@, w) && f@ <= i64::MAX && v == f@,
            Err(ConvError::RangeOverflow) => !fits_width(f@, w),
            Err(ConvError::NarrowingOverflow) => fits_width(f@, w) && f@ > i64::MAX,
        },
{
    let bound = big_pow2(w);
    if !big_lt(&f.digits, &bound) {
        return Err(ConvError::RangeOverflow);
    }
    match digits_to_u64(&f.digits) {
        Some(v) => {
            if v <= 0x7fff_ffff_ffff_ffffu64 {
                Ok(v as i64)
            } else {
                Err(ConvError::NarrowingOverflow)
            }
        },
        None => Err(ConvError::NarrowingOverflow),
    }
}

/// Map a secret field residue to its balanced representative — subtracting the
/// modulus from residues above half of it — and narrow that to a signed 64-bit
/// integer; a representative outside the output range is a `RangeOverflow`.
pub fn field_to_signed_secret_int(f: &SecretField, m: &Modulus) -> (r: Result<
    SecretInt,
    ConvError,
>)
    requires
        m.wf(),
        f.wf(m),
    ensures
        match r {
            Ok(s) => s@ == balanced_rep(f@ as int, m@ as int),
            Err(e) => e == ConvError::RangeOverflow && !(i64::MIN <= balanced_rep(
                f@ as int,
                m@ as int,
            ) <= i64::MAX),
        },
{
    let half = big_half(&m.digits);
    if big_lt(&half, &f.digits) {
        let d = big_sub(&m.digits, &f.digits);
        match digits_to_u64(&d) {
            Some(dv) => {
                if dv < 0x8000_0000_0000_0000u64 {
                    Ok(SecretInt { value: -(dv as i64) })
                } else if dv == 0x8000_0000_0000_0000u64 {
                    Ok(SecretInt { value: i64::MIN })
                } else {
                    Err(ConvError::RangeOverflow)
                }
            },
            None => Err(ConvError::RangeOverflow),
        }
    } else {
        match digits_to_u64(&f.digits) {
            Some(v) => {
                if v <= 0x7fff_ffff_ffff_ffffu64 {
                    Ok(SecretInt { value: v as i64 })
                } else {
                    Err(ConvError::RangeOverflow)
                }
            },
            None => Err(ConvError::RangeOverflow),
        }
    }
}

/// Re-tag a signed 64-bit integer as secret: no arithmetic transform.
pub fn int_to_secret_int(x: i64) -> (r: SecretInt)
    ensures
        r@ == x as int,
{
    SecretInt { value: x }
}

/// Embed a secret integer into the field with the signed rule: reduce its
/// exact (possibly negative) value modulo the modulus.
pub fn secret_int_to_signed_field(x: &SecretInt, m: &Modulus) -> (r: SecretField)
    requires
        m.wf(),
    ensures
        r@ == x@ % (m@ as int),
        r.wf(m),
{
    proof {
        lemma_mod_division_less_than_divisor(x@, m@ as int);
    }
    SecretField { digits: reduce_i64(x.value, m) }
}

/// Extract the least-significant bit of a secret integer; all higher bits are
/// discarded, so the result is the value taken modulo two.
pub fn secret_int_to_bit(x: &SecretInt) -> (r: SecretBit)
    ensures
        r@ == x@ % 2,
        r.wf(),
{
    let v = x.value;
    let a = abs_u64(v);
    let p = a % 2;
    proof {
        if v < 0 {
            lemma_neg_mod(a as int, 2);
        }
    }
    let b: i64 = if v >= 0 {
        p as i64
    } else if p == 0 {
        0
    } else {
        1
    };
    SecretBit { value: b }
}

/// Widen a secret bit to the secret integer domain; the value is unchanged.
pub fn bit_to_secret_int(b: &SecretBit) -> (r: SecretInt)
    requires
        b.wf(),
    ensures
        r@ == b@,
{
    SecretInt { value: b.value }
}

/// Embed a secret integer into the field with the unsigned 64-bit rule: a
/// negative value is first wrapped to its unsigned two's-complement
/// representative in `[0, 2^64)`, then reduced modulo the modulus.
pub fn secret_int_to_unsigned_field(x: &SecretInt, m: &Modulus) -> (r: SecretField)
    requires
        m.wf(),
    ensures
        r@ == (x@ % 0x1_0000_0000_0000_0000) % (m@ as int),
        r.wf(m),
{
    let v = x.value;
    let u: u64 = if v >= 0 {
        proof {
            lemma_small_mod(v as nat, 0x1_0000_0000_0000_0000);
        }
        v as u64
    } else {
        let a = abs_u64(v);
        proof {
            lemma_neg_mod(a as int, 0x1_0000_0000_0000_0000);
            lemma_small_mod(a as nat, 0x1_0000_0000_0000_0000);
        }
        (u64::MAX - a) + 1
    };
    let digits = big_mod_u64(u, &m.digits);
    proof {
        lemma_mod_division_less_than_divisor(u as int, m@ as int);
    }
    SecretField { digits }
}

} // verus!
