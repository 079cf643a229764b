use pgcopy::decimal::Decimal;
use pgcopy::generator::generate_batch;
use pgcopy::numeric::numeric_to_postgres_binary;
use pgcopy::stream::generate_buffer;
use pgcopy::stream::Row;
use pgcopy::temporal::PG_EPOCH_UNIX_MICROS;
use pgcopy::EncodeError;

const HEADER: [u8; 19] = [
    0x50, 0x47, 0x43, 0x4f, 0x50, 0x59, 0x0a, 0xff, 0x0d, 0x0a, 0x00, 0, 0, 0, 0, 0, 0, 0, 0,
];

fn row(ts: i64, sensor: i32, centi: i64) -> Row {
    Row {
        timestamp_micros: ts,
        sensor_id: sensor,
        temperature: Decimal::from_centi(centi),
    }
}

#[test]
fn empty_stream_is_header_and_terminator() {
    let buf = generate_buffer(&vec![]).unwrap();
    assert_eq!(buf.len(), 21);
    assert_eq!(&buf[..19], &HEADER);
    assert_eq!(&buf[19..], &[0xff, 0xff]);
}

#[test]
fn stream_length_is_header_rows_terminator() {
    let rows = vec![
        row(PG_EPOCH_UNIX_MICROS, 1, 2000),
        row(PG_EPOCH_UNIX_MICROS + 100000, 2, -50),
        row(PG_EPOCH_UNIX_MICROS + 200000, 3, 0),
    ];
    let mut expected = 19 + 2;
    for r in &rows {
        expected += 26 + numeric_to_postgres_binary(&r.temperature).len();
    }
    let buf = generate_buffer(&rows).unwrap();
    assert_eq!(buf.len(), expected);
}

#[test]
fn one_row_stream_exact_bytes() {
    // one day past the epoch, sensor 5, temperature 23.50
    let day_micros: i64 = 86400 * 1000000;
    let rows = vec![row(PG_EPOCH_UNIX_MICROS + day_micros, 5, 2350)];
    let buf = generate_buffer(&rows).unwrap();

    let mut expected: Vec<u8> = Vec::new();
    expected.extend_from_slice(&HEADER);
    // field count 3
    expected.extend_from_slice(&[0, 3]);
    // timestamp: length 8, one day in microseconds
    expected.extend_from_slice(&[0, 0, 0, 8]);
    expected.extend_from_slice(&day_micros.to_be_bytes());
    // sensor id: length 4, value 5
    expected.extend_from_slice(&[0, 0, 0, 4]);
    expected.extend_from_slice(&[0, 0, 0, 5]);
    // temperature 23.50: length 12; ndigits 2, weight 0, sign 0, dscale 2,
    // groups 23 and 5000
    expected.extend_from_slice(&[0, 0, 0, 12]);
    expected.extend_from_slice(&[0, 2, 0, 0, 0, 0, 0, 2, 0, 23, 0x13, 0x88]);
    // terminator
    expected.extend_from_slice(&[0xff, 0xff]);

    assert_eq!(buf, expected);
}

#[test]
fn stream_encoding_is_idempotent() {
    let rows = vec![
        row(PG_EPOCH_UNIX_MICROS + 12345, 7, 1999),
        row(PG_EPOCH_UNIX_MICROS + 54321, 8, -310),
    ];
    let a = generate_buffer(&rows).unwrap();
    let b = generate_buffer(&rows).unwrap();
    assert_eq!(a, b);
}

#[test]
fn stream_overflowing_timestamp_is_error() {
    let rows = vec![row(i64::MIN, 1, 0)];
    assert_eq!(generate_buffer(&rows), Err(EncodeError::Overflow));
}

#[test]
fn negative_offset_row_encodes() {
    // a timestamp before the stream epoch gives a negative offset
    let rows = vec![row(PG_EPOCH_UNIX_MICROS - 1000000, 1, 100)];
    let buf = generate_buffer(&rows).unwrap();
    let delta: i64 = -1000000;
    assert_eq!(&buf[25..33], &delta.to_be_bytes());
}

#[test]
fn batch_progression_is_deterministic() {
    let start: i64 = PG_EPOCH_UNIX_MICROS;
    let (rows, back) = generate_batch(start, 1, 2000, 5);
    assert_eq!(back, 1);
    assert_eq!(rows.len(), 5);
    // timestamps advance by the 100 ms tick
    for (j, r) in rows.iter().enumerate() {
        assert_eq!(r.timestamp_micros, start + 100000 * j as i64);
    }
    // the sensor cycle: each row advances the previous id by its index,
    // wrapping into [1, 32]
    let ids: Vec<i32> = rows.iter().map(|r| r.sensor_id).collect();
    assert_eq!(ids, vec![2, 4, 7, 11, 16]);
    // temperatures are the base plus noise below five degrees, at scale 2
    for r in &rows {
        assert_eq!(r.temperature.scale, 2);
        let mag = (r.temperature.int_part as i64) * 100 + r.temperature.frac as i64;
        let centi = if r.temperature.negative { -mag } else { mag };
        assert!((2000 - 500..2000 + 500).contains(&centi));
    }
}

#[test]
fn batch_sensor_cycle_wraps() {
    let (rows, _) = generate_batch(0, 1, 0, 40);
    for r in &rows {
        assert!((1..=32).contains(&r.sensor_id));
    }
    // generated rows always feed the buffer builder successfully
    assert!(generate_buffer(&rows).is_ok());
}
