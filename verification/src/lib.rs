//! Binary encoders for a relational database's bulk-load ("COPY BINARY")
//! stream: an arbitrary-precision numeric wire encoding (sign, weight, scale,
//! base-10000 digit groups), a microsecond-offset temporal encoding, and a
//! builder that assembles typed rows into one length-prefixed binary buffer.

use vstd::prelude::*;

pub mod bytes;
pub mod decimal;
pub mod digits;
pub mod generator;
pub mod numeric;
pub mod stream;
pub mod temporal;

verus! {

/// Failures the encoders can report.
///
/// `Encoding` marks a malformed numeric input (a fractional part that does
/// not fit its declared scale, or a scale too large to represent);
/// `Overflow` marks a timestamp whose offset from the stream epoch does not
/// fit a signed 64-bit microsecond count.
#[derive(Clone, Copy, Debug, PartialEq, Eq, Structural)]
pub enum EncodeError {
    Encoding,
    Overflow,
}

} // verus!
