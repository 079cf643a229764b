//! The bulk-load binary stream: a fixed 19-byte header, one record per row
//! (a 16-bit field count, then each field as a 32-bit length and its
//! payload), and a 2-byte terminator. Every multi-byte integer is
//! big-endian.

use vstd::prelude::*;
use crate::bytes::be16;
use crate::bytes::be32;
use crate::bytes::be64;
use crate::bytes::as_u32;
use crate::bytes::as_u64;
use crate::bytes::push_be16;
use crate::bytes::push_be32;
use crate::bytes::push_be32_signed;
use crate::bytes::push_be64_signed;
use crate::decimal::Decimal;
use crate::numeric::numeric_bytes;
use crate::numeric::numeric_to_postgres_binary;
use crate::temporal::PG_EPOCH_UNIX_MICROS;
use crate::temporal::pg_micros;
use crate::temporal::pg_micros_in_range;
use crate::temporal::datetime_to_postgres_binary;
use crate::EncodeError;

verus! {

/// One row of the three-column schema: a timestamp in whole microseconds
/// since the Unix epoch, a sensor identifier, and a temperature reading.
#[derive(Clone, Copy, Debug, PartialEq, Eq, Structural)]
pub struct Row {
    pub timestamp_micros: i64,
    pub sensor_id: i32,
    pub temperature: Decimal,
}

impl Row {
    /// The sensor identifier lies in its band and the temperature is a
    /// well-formed decimal.
    pub open spec fn wf(self) -> bool {
        &&& 1 <= self.sensor_id <= 32
        &&& self.temperature.wf()
    }
}

/// Every row is well-formed.
pub open spec fn rows_wf(rows: Seq<Row>) -> bool {
    forall|i: int| 0 <= i < rows.len() ==> rows[i].wf()
}

/// The row's timestamp offset fits the signed 64-bit microsecond field.
pub open spec fn row_ok(row: Row) -> bool {
    pg_micros_in_range(row.timestamp_micros as int)
}

/// Every row's timestamp offset fits.
pub open spec fn rows_ok(rows: Seq<Row>) -> bool {
    forall|i: int| 0 <= i < rows.len() ==> row_ok(rows[i])
}

/// The fixed 19-byte header: the 11-byte signature, a zero 32-bit flags
/// field, and a zero 32-bit header-extension length.
pub open spec fn header_bytes() -> Seq<u8> {
    seq![
        0x50u8,
        0x47u8,
        0x43u8,
        0x4fu8,
        0x50u8,
        0x59u8,
        0x0au8,
        0xffu8,
        0x0du8,
        0x0au8,
        0x00u8,
    ] + be32(0) + be32(0)
}

/// The 2-byte terminator: a field count of -1.
pub open spec fn trailer_bytes() -> Seq<u8> {
    seq![0xffu8, 0xffu8]
}

/// One row record: field count 3, then per field a 4-byte length and the
/// payload — 8 bytes of microsecond offset, 4 bytes of sensor id, and the
/// numeric encoding of the temperature.
pub open spec fn row_bytes(row: Row) -> Seq<u8> {
    be16(3) + be32(8) + be64(as_u64((row.timestamp_micros - PG_EPOCH_UNIX_MICROS) as i64)) + be32(4)
        + be32(as_u32(row.sensor_id)) + be32(numeric_bytes(row.temperature).len() as u32)
        + numeric_bytes(row.temperature)
}

/// The records of a row sequence, in order.
pub open spec fn rows_bytes(rows: Seq<Row>) -> Seq<u8>
    decreases rows.len(),
{
    if rows.len() == 0 {
        Seq::empty()
    } else {
        rows_bytes(rows.drop_last()) + row_bytes(rows.last())
    }
}

/// The full stream: header, row records, terminator.
pub open spec fn stream_bytes(rows: Seq<Row>) -> Seq<u8> {
    header_bytes() + rows_bytes(rows) + trailer_bytes()
}

/// One row record's size: the 2-byte field count, three 4-byte length
/// prefixes, the 8-byte timestamp payload, the 4-byte sensor id payload,
/// and the numeric payload.
pub open spec fn row_size(row: Row) -> int {
    26 + numeric_bytes(row.temperature).len() as int
}

/// The records' total size.
pub open spec fn rows_size(rows: Seq<Row>) -> int
    decreases rows.len(),
{
    if rows.len() == 0 {
        0int
    } else {
        rows_size(rows.drop_last()) + row_size(rows.last())
    }
}

proof fn lemma_rows_bytes_len(rows: Seq<Row>)
    ensures
        rows_bytes(rows).len() == rows_size(rows),
    decreases rows.len(),
{
    if rows.len() > 0 {
        lemma_rows_bytes_len(rows.drop_last());
    }
}

/// The stream's length is exactly the 19-byte header, each row's size, and
/// the 2-byte terminator; an empty batch gives exactly 21 bytes.
pub proof fn lemma_stream_len(rows: Seq<Row>)
    ensures
        stream_bytes(rows).len() == 19 + rows_size(rows) + 2,
        rows.len() == 0 ==> stream_bytes(rows).len() == 21,
{
    lemma_rows_bytes_len(rows);
}

/// Encoding is deterministic: two buffers built from the same row sequence
/// are byte-identical.
pub proof fn lemma_encode_deterministic(rows: Seq<Row>, b1: Seq<u8>, b2: Seq<u8>)
    requires
        b1 == stream_bytes(rows),
        b2 == stream_bytes(rows),
    ensures
        b1 == b2,
{
}

/// Builds the full binary stream for a batch of rows: header, one record
/// per row, terminator. Fails, discarding the partial buffer, on the first
/// row whose timestamp offset leaves the 64-bit microsecond range; an empty
/// batch yields a valid header-plus-terminator stream.
pub fn generate_buffer(batch_data: &Vec<Row>) -> (r: Result<Vec<u8>, EncodeError>)
    requires
        rows_wf(batch_data@),
    ensures
        r is Ok <==> rows_ok(batch_data@),
        r is Ok ==> r->Ok_0@ == stream_bytes(batch_data@),
        r is Err ==> r->Err_0 == EncodeError::Overflow,
{
    let mut buf: Vec<u8> = Vec::new();
    buf.push(0x50u8);
    buf.push(0x47u8);
    buf.push(0x43u8);
    buf.push(0x4fu8);
    buf.push(0x50u8);
    buf.push(0x59u8);
    buf.push(0x0au8);
    buf.push(0xffu8);
    buf.push(0x0du8);
    buf.push(0x0au8);
    buf.push(0x00u8);
    push_be32(&mut buf, 0);
    push_be32(&mut buf, 0);
    proof {
        assert(buf@ =~= header_bytes());
        assert(batch_data@.take(0) =~= Seq::<Row>::empty());
        assert(buf@ =~= header_bytes() + rows_bytes(batch_data@.take(0)));
    }
    let n = batch_data.len();
    let mut i: usize = 0;
    while i < n
        invariant
            n == batch_data@.len(),
            i <= n,
            rows_wf(batch_data@),
            rows_ok(batch_data@.take(i as int)),
            buf@ == header_bytes() + rows_bytes(batch_data@.take(i as int)),
        decreases n - i,
    {
        let row = batch_data[i];
        let micros = match datetime_to_postgres_binary(row.timestamp_micros) {
            Ok(m) => m,
            Err(e) => {
                proof {
                    assert(!row_ok(batch_data@[i as int]));
                }
                return Err(e);
            },
        };
        push_be16(&mut buf, 3);
        push_be32(&mut buf, 8);
        push_be64_signed(&mut buf, micros);
        push_be32(&mut buf, 4);
        push_be32_signed(&mut buf, row.sensor_id);
        let mut nb = numeric_to_postgres_binary(&row.temperature);
        push_be32(&mut buf, nb.len() as u32);
        buf.append(&mut nb);
        i = i + 1;
        proof {
            assert(batch_data@.take(i as int).drop_last() =~= batch_data@.take(i as int - 1));
            assert(batch_data@.take(i as int).last() == batch_data@[i as int - 1]);
            assert(micros == pg_micros(row.timestamp_micros as int));
            assert(buf@ =~= header_bytes() + rows_bytes(batch_data@.take(i as int)));
            assert(rows_ok(batch_data@.take(i as int)));
        }
    }
    proof {
        assert(batch_data@.take(n as int) =~= batch_data@);
    }
    push_be16(&mut buf, 0xffff);
    proof {
        assert(be16(0xffff) =~= trailer_bytes());
        assert(buf@ =~= stream_bytes(batch_data@));
    }
    Ok(buf)
}

} // verus!
