use pgcopy::decimal::Decimal;
use pgcopy::numeric::numeric_to_postgres_binary;
use pgcopy::temporal::datetime_to_postgres_binary;
use pgcopy::temporal::PG_EPOCH_UNIX_MICROS;
use pgcopy::EncodeError;

fn be16_at(b: &[u8], i: usize) -> u16 {
    ((b[i] as u16) << 8) | (b[i + 1] as u16)
}

/// Reads a serialized numeric value back as (sign, weight, dscale, groups).
fn parse_numeric(b: &[u8]) -> (u16, i16, u16, Vec<u16>) {
    let ndigits = be16_at(b, 0) as usize;
    let weight = be16_at(b, 2) as i16;
    let sign = be16_at(b, 4);
    let dscale = be16_at(b, 6);
    assert_eq!(b.len(), 8 + 2 * ndigits);
    let mut groups = Vec::new();
    for i in 0..ndigits {
        groups.push(be16_at(b, 8 + 2 * i));
    }
    (sign, weight, dscale, groups)
}

/// The standard base-10000 reconstruction, cleared of denominators: checks
/// that sum(groups[i] * 10000^(n-1-i)) * 10^scale equals
/// (int_part*10^scale + frac) * 10^(4*(n-1-weight)).
fn assert_reconstructs(d: &Decimal) {
    let bytes = numeric_to_postgres_binary(d);
    let (sign, weight, dscale, groups) = parse_numeric(&bytes);
    assert_eq!(sign, if d.negative { 0x4000 } else { 0 });
    assert_eq!(dscale as u32, d.scale);
    let n = groups.len() as i64;
    assert!(n > weight as i64);
    let mut recon: i128 = 0;
    for g in &groups {
        assert!(*g < 10000);
        recon = recon * 10000 + (*g as i128);
    }
    let mantissa = (d.int_part as i128) * 10i128.pow(d.scale) + (d.frac as i128);
    let shift = 4 * (n - 1 - weight as i64) as u32;
    assert_eq!(recon * 10i128.pow(d.scale), mantissa * 10i128.pow(shift));
}

#[test]
fn numeric_round_trip_small_scales() {
    let cases = [
        (false, 0u64, 0u32, 0u32),
        (false, 0, 5, 1),
        (false, 0, 5, 2),
        (false, 12, 34, 2),
        (true, 12, 34, 2),
        (false, 23, 50, 2),
        (true, 7, 0, 0),
        (false, 9999, 99, 2),
        (false, 10000, 1, 2),
        (false, 123456789, 10, 2),
        (true, 18446744073709551615, 99, 2),
    ];
    for (negative, int_part, frac, scale) in cases {
        let d = Decimal::new(negative, int_part, frac, scale).unwrap();
        assert_reconstructs(&d);
    }
}

#[test]
fn numeric_round_trip_scale_nine() {
    let d = Decimal::new(false, 0, 1, 9).unwrap();
    assert_reconstructs(&d);
    let d = Decimal::new(true, 3, 999999999, 9).unwrap();
    assert_reconstructs(&d);
}

#[test]
fn numeric_zero_bytes() {
    let d = Decimal::new(false, 0, 0, 0).unwrap();
    let bytes = numeric_to_postgres_binary(&d);
    // one digit group equal to 0, weight 0, sign 0, dscale 0
    assert_eq!(bytes, vec![0, 1, 0, 0, 0, 0, 0, 0, 0, 0]);
}

#[test]
fn numeric_negative_bytes() {
    // -12.34: sign flag 0x4000, dscale 2, groups reconstructing 12.34
    let d = Decimal::new(true, 12, 34, 2).unwrap();
    let bytes = numeric_to_postgres_binary(&d);
    let (sign, weight, dscale, groups) = parse_numeric(&bytes);
    assert_eq!(sign, 0x4000);
    assert_eq!(dscale, 2);
    assert_eq!(weight, 0);
    assert_eq!(groups, vec![12, 3400]);
}

#[test]
fn numeric_rejects_overfull_fraction() {
    assert_eq!(Decimal::new(false, 1, 100, 2), Err(EncodeError::Encoding));
    assert_eq!(Decimal::new(false, 1, 1, 10), Err(EncodeError::Encoding));
    assert!(Decimal::new(false, 1, 99, 2).is_ok());
}

#[test]
fn from_centi_values() {
    let d = Decimal::from_centi(2350);
    assert_eq!((d.negative, d.int_part, d.frac, d.scale), (false, 23, 50, 2));
    let d = Decimal::from_centi(-1234);
    assert_eq!((d.negative, d.int_part, d.frac, d.scale), (true, 12, 34, 2));
    let d = Decimal::from_centi(0);
    assert_eq!((d.negative, d.int_part, d.frac, d.scale), (false, 0, 0, 2));
}

#[test]
fn temporal_epoch_is_zero() {
    assert_eq!(datetime_to_postgres_binary(PG_EPOCH_UNIX_MICROS), Ok(0));
}

#[test]
fn temporal_is_linear() {
    for t in [0i64, PG_EPOCH_UNIX_MICROS, 1700000000000000, -5] {
        let a = datetime_to_postgres_binary(t).unwrap();
        let b = datetime_to_postgres_binary(t + 1).unwrap();
        assert_eq!(b, a + 1);
    }
}

#[test]
fn temporal_overflow_is_error() {
    assert_eq!(
        datetime_to_postgres_binary(i64::MIN),
        Err(EncodeError::Overflow)
    );
    // the largest input that still fails, and the smallest that succeeds
    assert_eq!(
        datetime_to_postgres_binary(i64::MIN + PG_EPOCH_UNIX_MICROS - 1),
        Err(EncodeError::Overflow)
    );
    assert_eq!(
        datetime_to_postgres_binary(i64::MIN + PG_EPOCH_UNIX_MICROS),
        Ok(i64::MIN)
    );
}
