//! The temporal wire encoding: a timestamp becomes the signed 64-bit count
//! of whole microseconds elapsed since the stream epoch, midnight at the
//! start of the year 2000, UTC. Timestamps arrive as whole microseconds
//! since the Unix epoch; no time zone survives in the wire form.

use vstd::prelude::*;
use crate::EncodeError;

verus! {

/// Microseconds from the Unix epoch to the stream epoch (the first instant
/// of the year 2000, UTC).
pub const PG_EPOCH_UNIX_MICROS: i64 = 946684800000000;

/// The temporal wire value: whole microseconds from the stream epoch.
pub open spec fn pg_micros(unix_micros: int) -> int {
    unix_micros - PG_EPOCH_UNIX_MICROS
}

/// Whether the offset fits the signed 64-bit microsecond field.
pub open spec fn pg_micros_in_range(unix_micros: int) -> bool {
    i64::MIN <= pg_micros(unix_micros) <= i64::MAX
}

/// Encodes a timestamp, given as whole microseconds since the Unix epoch,
/// as whole microseconds since the stream epoch. An offset outside the
/// signed 64-bit range is a defined failure, never a silent truncation.
pub fn datetime_to_postgres_binary(unix_micros: i64) -> (r: Result<i64, EncodeError>)
    ensures
        r is Ok <==> pg_micros_in_range(unix_micros as int),
        r is Ok ==> r->Ok_0 == pg_micros(unix_micros as int),
        r is Err ==> r->Err_0 == EncodeError::Overflow,
{
    match unix_micros.checked_sub(PG_EPOCH_UNIX_MICROS) {
        Some(v) => Ok(v),
        None => Err(EncodeError::Overflow),
    }
}

/// The temporal encoding is linear: one more microsecond of input is
/// exactly one more unit of output.
pub proof fn lemma_temporal_linear(unix_micros: int)
    ensures
        pg_micros(unix_micros + 1) == pg_micros(unix_micros) + 1,
{
}

/// The temporal encoding is strictly monotonic.
pub proof fn lemma_temporal_strictly_monotonic(t1: int, t2: int)
    requires
        t1 < t2,
    ensures
        pg_micros(t1) < pg_micros(t2),
{
}

} // verus!
