use numconv::convert::{
    bit_to_secret_int, field_to_int, field_to_signed_secret_int, int_to_field, int_to_secret_int,
    secret_int_to_bit, secret_int_to_signed_field, secret_int_to_unsigned_field, ClearField,
    ConvError, Modulus, SecretField,
};

/// 2^61 - 1, a Mersenne prime.
const P61: u64 = 2305843009213693951;

fn mersenne61() -> Modulus {
    Modulus::from_u64(P61).unwrap()
}

/// 2^89 - 1, a Mersenne prime wider than 64 bits.
fn mersenne89() -> Modulus {
    Modulus::new(vec![0xFFFF_FFFF, 0xFFFF_FFFF, 0x01FF_FFFF]).unwrap()
}

#[test]
fn int_field_round_trip_bounded() {
    let m = mersenne61();
    for x in [0i64, 1, 12345, 1 << 60, P61 as i64 - 1] {
        let f = int_to_field(x, &m);
        assert_eq!(field_to_int(&f, 64), Ok(x));
    }
}

#[test]
fn int_to_field_reduces_negative() {
    let m = mersenne61();
    let f = int_to_field(-5, &m);
    assert_eq!(f.as_u64(), Some(P61 - 5));
    let small = Modulus::from_u64(97).unwrap();
    assert_eq!(int_to_field(100, &small).as_u64(), Some(3));
    assert_eq!(int_to_field(-100, &small).as_u64(), Some(94));
    assert_eq!(int_to_field(-97, &small).as_u64(), Some(0));
}

#[test]
fn field_to_int_width_boundary() {
    let m = mersenne61();
    let at = int_to_field(1024, &m);
    assert_eq!(field_to_int(&at, 10), Err(ConvError::RangeOverflow));
    let below = int_to_field(1023, &m);
    assert_eq!(field_to_int(&below, 10), Ok(1023));
}

#[test]
fn field_to_int_narrowing_overflow() {
    // 2^64 - 59 is prime, so residues at and above 2^63 exist.
    let m = Modulus::new(vec![0xFFFF_FFC5, 0xFFFF_FFFF]).unwrap();
    let f = ClearField::from_digits(vec![0, 0x8000_0000], &m).unwrap();
    assert_eq!(f.as_u64(), Some(1u64 << 63));
    assert_eq!(field_to_int(&f, 64), Err(ConvError::NarrowingOverflow));
    assert_eq!(field_to_int(&f, 63), Err(ConvError::RangeOverflow));
}

#[test]
fn signed_embedding_round_trip() {
    let m = mersenne61();
    let half = (P61 / 2) as i64;
    for x in [0i64, 5, -5, half, -half, 1, -1] {
        let s = int_to_secret_int(x);
        let f = secret_int_to_signed_field(&s, &m);
        let back = field_to_signed_secret_int(&f, &m).unwrap();
        assert_eq!(back.value(), x);
    }
}

#[test]
fn mersenne_scenario() {
    let m = mersenne61();
    let x = int_to_secret_int(-5);
    let f = secret_int_to_signed_field(&x, &m);
    assert_eq!(f.as_u64(), Some(P61 - 5));
    let back = field_to_signed_secret_int(&f, &m).unwrap();
    assert_eq!(back.value(), -5);
}

#[test]
fn balanced_representative_boundary() {
    let m = mersenne61();
    let half = (P61 / 2) as i64;
    // Residue P/2 is kept unchanged.
    let at = secret_int_to_signed_field(&int_to_secret_int(half), &m);
    assert_eq!(at.as_u64(), Some(half as u64));
    assert_eq!(field_to_signed_secret_int(&at, &m).unwrap().value(), half);
    // Residue P/2 + 1 is mapped to a negative value by subtracting P.
    let above = secret_int_to_signed_field(&int_to_secret_int(half + 1), &m);
    assert_eq!(above.as_u64(), Some(half as u64 + 1));
    assert_eq!(
        field_to_signed_secret_int(&above, &m).unwrap().value(),
        half + 1 - P61 as i64
    );
}

#[test]
fn balanced_representative_overflows() {
    let m = mersenne89();
    // Residue 2^70: balanced representative 2^70 exceeds i64::MAX.
    let f = SecretField::from_digits(vec![0, 0, 0x40], &m).unwrap();
    assert_eq!(f.as_u64(), None);
    assert!(matches!(
        field_to_signed_secret_int(&f, &m),
        Err(ConvError::RangeOverflow)
    ));
    // Residue P - 2^70: balanced representative -2^70 is below i64::MIN.
    let g = SecretField::from_digits(vec![0xFFFF_FFFF, 0xFFFF_FFFF, 0x01FF_FFBF], &m).unwrap();
    assert!(matches!(
        field_to_signed_secret_int(&g, &m),
        Err(ConvError::RangeOverflow)
    ));
}

#[test]
fn bit_round_trip() {
    for (z, expected) in [
        (7i64, 1i64),
        (-3, 1),
        (-4, 0),
        (0, 0),
        (i64::MIN, 0),
        (i64::MAX, 1),
    ] {
        let bit = secret_int_to_bit(&int_to_secret_int(z));
        assert_eq!(bit.value(), expected);
        assert_eq!(bit_to_secret_int(&bit).value(), expected);
    }
}

#[test]
fn unsigned_embedding_wraps() {
    let m = mersenne61();
    // (2^64 - 1) mod (2^61 - 1) == 7.
    let f = secret_int_to_unsigned_field(&int_to_secret_int(-1), &m);
    assert_eq!(f.as_u64(), Some(7));
    // 2^63 mod (2^61 - 1) == 4.
    let g = secret_int_to_unsigned_field(&int_to_secret_int(i64::MIN), &m);
    assert_eq!(g.as_u64(), Some(4));
    // Non-negative values are unaffected by the wrap.
    let h = secret_int_to_unsigned_field(&int_to_secret_int(5), &m);
    assert_eq!(h.as_u64(), Some(5));
}

#[test]
fn unsigned_and_signed_embeddings_differ() {
    let m = mersenne61();
    let x = int_to_secret_int(-1);
    let signed = secret_int_to_signed_field(&x, &m);
    let unsigned = secret_int_to_unsigned_field(&x, &m);
    assert_eq!(signed.as_u64(), Some(P61 - 1));
    assert_eq!(unsigned.as_u64(), Some(7));
}

#[test]
fn modulus_construction() {
    assert!(Modulus::from_u64(0).is_none());
    assert!(Modulus::from_u64(1).is_none());
    assert!(Modulus::from_u64(2).is_some());
    assert!(Modulus::new(vec![]).is_none());
    assert!(Modulus::new(vec![1]).is_none());
    assert!(Modulus::new(vec![0, 0, 0]).is_none());
    assert!(Modulus::new(vec![2]).is_some());
    assert!(Modulus::new(vec![0, 0, 1]).is_some());
}

#[test]
fn field_from_digits_requires_canonical_residue() {
    let m = mersenne61();
    assert!(ClearField::from_digits(vec![0xFFFF_FFFF, 0x1FFF_FFFF], &m).is_none());
    let f = ClearField::from_digits(vec![0xFFFF_FFFE, 0x1FFF_FFFF], &m).unwrap();
    assert_eq!(f.as_u64(), Some(P61 - 1));
    assert!(SecretField::from_digits(vec![0xFFFF_FFFF, 0x1FFF_FFFF], &m).is_none());
}

#[test]
fn int_to_secret_int_is_identity() {
    for x in [0i64, 17, -17, i64::MIN, i64::MAX] {
        assert_eq!(int_to_secret_int(x).value(), x);
    }
}
