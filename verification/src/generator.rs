//! The synthetic row batch generator: from a starting timestamp, a base
//! temperature and a batch size it produces rows whose timestamps advance
//! by a fixed 100-millisecond tick, whose sensor identifiers cycle
//! deterministically through the band [1, 32], and whose temperatures are
//! the base perturbed by bounded random noise at two decimal places. The
//! timestamp and sensor progressions are exact; the noise is random by
//! design and only its bound is promised.

use vstd::prelude::*;
use rand::Rng;
use crate::decimal::Decimal;
use crate::stream::Row;

verus! {

/// The fixed tick between consecutive rows: 100 milliseconds in
/// microseconds.
pub const TICK_MICROS: i64 = 100000;

/// The sensor band: identifiers cycle through `[1, MAX_SENSORS]`.
pub const MAX_SENSORS: i64 = 32;

/// Temperature noise stays below five degrees in magnitude, counted in
/// hundredths of a degree.
pub const NOISE_CENTI: i64 = 500;

#[verifier::external_type_specification]
#[verifier::external_body]
pub struct ExThreadRng(rand::rngs::ThreadRng);

/// Relies on rand::thread_rng: a handle to the thread-local random
/// generator. Nothing is promised of it.
#[verifier::external_body]
fn fresh_rng() -> rand::rngs::ThreadRng {
    rand::thread_rng()
}

/// Relies on rand's Rng::gen_range on a half-open integer range: the result
/// lies in the range. Its panic on an empty range is excluded by the
/// precondition; nothing further is promised of a random draw.
#[verifier::external_body]
fn gen_in_range(rng: &mut rand::rngs::ThreadRng, lo: i64, hi: i64) -> (r: i64)
    requires
        lo < hi,
    ensures
        lo <= r < hi,
{
    rng.gen_range(lo..hi)
}

/// The sensor identifier of the row at index `i`, starting from `s0`: each
/// row advances the previous identifier by the row index and wraps into
/// the band `[1, 32]`.
pub open spec fn sensor_at(s0: int, i: nat) -> int
    decreases i,
{
    if i == 0 {
        s0 % (MAX_SENSORS as int) + 1
    } else {
        (sensor_at(s0, (i - 1) as nat) + i) % (MAX_SENSORS as int) + 1
    }
}

/// Generates a batch of `count` rows. Timestamps advance by the fixed tick
/// from `created_micros`; sensor identifiers follow the deterministic
/// cycle through `[1, 32]`; each temperature is the base, in hundredths of
/// a degree, plus noise bounded below five degrees, held at two decimal
/// places. The starting sensor identifier is handed back for the next
/// batch.
pub fn generate_batch(created_micros: i64, sensor_id: i32, base_temp_centi: i64, count: usize) -> (r:
    (Vec<Row>, i32))
    requires
        0 <= sensor_id <= MAX_SENSORS,
        count <= 1000000000,
        created_micros + TICK_MICROS * (count as int) <= i64::MAX,
        -1000000000000000000 <= base_temp_centi <= 1000000000000000000,
    ensures
        r.0@.len() == count as int,
        r.1 == sensor_id,
        forall|j: int| 0 <= j < count ==> r.0@[j].wf(),
        forall|j: int|
            0 <= j < count ==> r.0@[j].timestamp_micros == created_micros + TICK_MICROS * j,
        forall|j: int| 0 <= j < count ==> r.0@[j].sensor_id == sensor_at(sensor_id as int, j as nat),
        forall|j: int| 0 <= j < count ==> r.0@[j].temperature.scale == 2,
        forall|j: int|
            0 <= j < count ==> base_temp_centi - NOISE_CENTI <= #[trigger] r.0@[j].temperature.scaled()
                < base_temp_centi + NOISE_CENTI,
{
    let mut rng = fresh_rng();
    let mut rows: Vec<Row> = Vec::new();
    let mut current_sensor: i64 = sensor_id as i64;
    let mut i: usize = 0;
    while i < count
        invariant
            i <= count,
            count <= 1000000000,
            created_micros + TICK_MICROS * (count as int) <= i64::MAX,
            -1000000000000000000 <= base_temp_centi <= 1000000000000000000,
            rows@.len() == i as int,
            0 <= current_sensor <= MAX_SENSORS,
            i == 0 ==> current_sensor == sensor_id,
            i > 0 ==> current_sensor == sensor_at(sensor_id as int, (i - 1) as nat),
            forall|j: int| 0 <= j < i ==> rows@[j].wf(),
            forall|j: int|
                0 <= j < i ==> rows@[j].timestamp_micros == created_micros + TICK_MICROS * j,
            forall|j: int| 0 <= j < i ==> rows@[j].sensor_id == sensor_at(sensor_id as int, j as nat),
            forall|j: int| 0 <= j < i ==> rows@[j].temperature.scale == 2,
            forall|j: int|
                0 <= j < i ==> base_temp_centi - NOISE_CENTI <= #[trigger] rows@[j].temperature.scaled()
                    < base_temp_centi + NOISE_CENTI,
        decreases count - i,
    {
        current_sensor = (current_sensor + (i as i64)) % MAX_SENSORS + 1;
        proof {
            assert(current_sensor == sensor_at(sensor_id as int, i as nat));
        }
        let noise = gen_in_range(&mut rng, -NOISE_CENTI, NOISE_CENTI);
        let temp = Decimal::from_centi(base_temp_centi + noise);
        let ts = created_micros + TICK_MICROS * (i as i64);
        rows.push(
            Row { timestamp_micros: ts, sensor_id: current_sensor as i32, temperature: temp },
        );
        i = i + 1;
    }
    (rows, sensor_id)
}

} // verus!
