//! Big-endian byte serialization of the fixed-width integers the stream
//! format uses. Every multi-byte integer in the wire format is network byte
//! order; the spec functions here define that layout and the exec functions
//! append it to a buffer.

use vstd::prelude::*;

verus! {

/// The two big-endian bytes of a 16-bit value.
pub open spec fn be16(v: u16) -> Seq<u8> {
    seq![(v / 256) as u8, (v % 256) as u8]
}

/// The four big-endian bytes of a 32-bit value.
pub open spec fn be32(v: u32) -> Seq<u8> {
    seq![
        ((v / 0x1000000) % 256) as u8,
        ((v / 0x10000) % 256) as u8,
        ((v / 0x100) % 256) as u8,
        (v % 256) as u8,
    ]
}

/// The eight big-endian bytes of a 64-bit value.
pub open spec fn be64(v: u64) -> Seq<u8> {
    seq![
        ((v / 0x100000000000000) % 256) as u8,
        ((v / 0x1000000000000) % 256) as u8,
        ((v / 0x10000000000) % 256) as u8,
        ((v / 0x100000000) % 256) as u8,
        ((v / 0x1000000) % 256) as u8,
        ((v / 0x10000) % 256) as u8,
        ((v / 0x100) % 256) as u8,
        (v % 256) as u8,
    ]
}

/// The 64-bit two's-complement image of a signed 64-bit value.
pub open spec fn as_u64(v: i64) -> u64 {
    if v >= 0 {
        v as u64
    } else {
        (v + 0x10000000000000000) as u64
    }
}

/// The 32-bit two's-complement image of a signed 32-bit value.
pub open spec fn as_u32(v: i32) -> u32 {
    if v >= 0 {
        v as u32
    } else {
        (v + 0x100000000) as u32
    }
}

/// Appends the two big-endian bytes of `v` to `out`.
pub fn push_be16(out: &mut Vec<u8>, v: u16)
    ensures
        final(out)@ == old(out)@ + be16(v),
{
    out.push((v / 256) as u8);
    out.push((v % 256) as u8);
    proof {
        assert(out@ =~= old(out)@ + be16(v));
    }
}

/// Appends the four big-endian bytes of `v` to `out`.
pub fn push_be32(out: &mut Vec<u8>, v: u32)
    ensures
        final(out)@ == old(out)@ + be32(v),
{
    out.push(((v / 0x1000000) % 256) as u8);
    out.push(((v / 0x10000) % 256) as u8);
    out.push(((v / 0x100) % 256) as u8);
    out.push((v % 256) as u8);
    proof {
        assert(out@ =~= old(out)@ + be32(v));
    }
}

/// Appends the eight big-endian bytes of `v` to `out`.
pub fn push_be64(out: &mut Vec<u8>, v: u64)
    ensures
        final(out)@ == old(out)@ + be64(v),
{
    out.push(((v / 0x100000000000000) % 256) as u8);
    out.push(((v / 0x1000000000000) % 256) as u8);
    out.push(((v / 0x10000000000) % 256) as u8);
    out.push(((v / 0x100000000) % 256) as u8);
    out.push(((v / 0x1000000) % 256) as u8);
    out.push(((v / 0x10000) % 256) as u8);
    out.push(((v / 0x100) % 256) as u8);
    out.push((v % 256) as u8);
    proof {
        assert(out@ =~= old(out)@ + be64(v));
    }
}

/// Appends the eight big-endian bytes of the two's-complement image of `v`.
pub fn push_be64_signed(out: &mut Vec<u8>, v: i64)
    ensures
        final(out)@ == old(out)@ + be64(as_u64(v)),
{
    let u: u64 = if v >= 0 {
        v as u64
    } else {
        let lowered: i64 = v + 0x4000000000000000i64 + 0x4000000000000000i64;
        assert(lowered >= 0);
        (lowered as u64) + 0x8000000000000000u64
    };
    assert(u == as_u64(v));
    push_be64(out, u);
}

/// Appends the four big-endian bytes of the two's-complement image of `v`.
pub fn push_be32_signed(out: &mut Vec<u8>, v: i32)
    ensures
        final(out)@ == old(out)@ + be32(as_u32(v)),
{
    let u: u32 = if v >= 0 {
        v as u32
    } else {
        let lowered: i32 = v + 0x40000000i32 + 0x40000000i32;
        assert(lowered >= 0);
        (lowered as u32) + 0x80000000u32
    };
    assert(u == as_u32(v));
    push_be32(out, u);
}

} // verus!
