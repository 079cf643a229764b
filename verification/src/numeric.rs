//! The variable-precision numeric wire encoding: sign flag, weight, display
//! scale, and base-10000 digit groups, serialized as big-endian 16-bit
//! fields. The digit string of the magnitude is the integer digits
//! left-padded with zeros to a multiple of four, followed by the fractional
//! digits; the padded string is grouped four digits at a time from the left,
//! the last group filled out with zeros on the right.

use vstd::prelude::*;
use vstd::arithmetic::mul::lemma_mul_is_associative;
use crate::digits::pow10;
use crate::digits::digits_value;
use crate::digits::groups_value;
use crate::digits::digits_of;
use crate::digits::zeros;
use crate::digits::all_digits;
use crate::digits::lemma_pow10_values;
use crate::digits::lemma_pow10_adds;
use crate::digits::lemma_digits_value_concat;
use crate::digits::lemma_groups_value_concat;
use crate::digits::lemma_digits_value_zeros;
use crate::digits::lemma_digits_value_lead_zeros;
use crate::digits::lemma_digits_of_value;
use crate::digits::lemma_digits_of_all_digits;
use crate::digits::lemma_digits_of_len;
use crate::digits::push_digits;
use crate::digits::push_zeros;
use crate::bytes::be16;
use crate::bytes::push_be16;
use crate::decimal::Decimal;

verus! {

/// Zeros needed to bring a length of `n` up to a multiple of four.
pub open spec fn pad4(n: nat) -> nat {
    ((4 - n % 4) % 4) as nat
}

/// The fractional digit string: the digits of `frac` left-padded with zeros
/// to the display scale. Empty at scale zero.
pub open spec fn frac_digits(frac: nat, scale: nat) -> Seq<u8> {
    if scale == 0 {
        Seq::empty()
    } else {
        zeros((scale - digits_of(frac).len()) as nat) + digits_of(frac)
    }
}

/// The magnitude's digit string: integer digits left-padded to a multiple of
/// four, then the fractional digits.
pub open spec fn mag_digits(int_part: nat, frac: nat, scale: nat) -> Seq<u8> {
    zeros(pad4(digits_of(int_part).len())) + digits_of(int_part) + frac_digits(frac, scale)
}

/// The magnitude's digit string filled out with zeros on the right to a
/// multiple of four, ready for grouping.
pub open spec fn padded_digits(int_part: nat, frac: nat, scale: nat) -> Seq<u8> {
    mag_digits(int_part, frac, scale) + zeros(pad4(mag_digits(int_part, frac, scale).len()))
}

/// The value of one group of four digits.
pub open spec fn group4(s: Seq<u8>) -> u16 {
    (1000 * (s[0] as int) + 100 * (s[1] as int) + 10 * (s[2] as int) + (s[3] as int)) as u16
}

/// The base-10000 groups of a digit string, four digits at a time from the
/// left.
pub open spec fn groups_of(s: Seq<u8>) -> Seq<u16>
    decreases s.len(),
{
    if s.len() < 4 {
        Seq::empty()
    } else {
        seq![group4(s)] + groups_of(s.skip(4))
    }
}

/// The weight: the power-of-10000 position of the most significant digit
/// group, read off the integer digit count.
pub open spec fn spec_weight(int_part: nat) -> nat {
    (((digits_of(int_part).len() - 1) as nat) / 4) as nat
}

/// The digit groups the encoder emits for `±(int_part + frac/10^scale)`.
pub open spec fn numeric_groups(int_part: nat, frac: nat, scale: nat) -> Seq<u16> {
    groups_of(padded_digits(int_part, frac, scale))
}

/// The 16-bit sign flag of the wire format.
pub open spec fn sign_flag(negative: bool) -> u16 {
    if negative {
        0x4000u16
    } else {
        0u16
    }
}

/// Each group serialized as two big-endian bytes, in order.
pub open spec fn be16_groups(gs: Seq<u16>) -> Seq<u8>
    decreases gs.len(),
{
    if gs.len() == 0 {
        Seq::empty()
    } else {
        be16_groups(gs.drop_last()) + be16(gs.last())
    }
}

/// The full serialized numeric value: group count, weight, sign flag and
/// display scale as big-endian 16-bit fields, then the digit groups.
pub open spec fn numeric_bytes(d: Decimal) -> Seq<u8> {
    let gs = numeric_groups(d.int_part as nat, d.frac as nat, d.scale as nat);
    be16(gs.len() as u16) + be16(spec_weight(d.int_part as nat) as u16) + be16(
        sign_flag(d.negative),
    ) + be16(d.scale as u16) + be16_groups(gs)
}

pub proof fn lemma_be16_groups_len(gs: Seq<u16>)
    ensures
        be16_groups(gs).len() == 2 * gs.len(),
    decreases gs.len(),
{
    if gs.len() > 0 {
        lemma_be16_groups_len(gs.drop_last());
    }
}

/// The value of a four-digit string, written out.
proof fn lemma_digits_value_4(t: Seq<u8>)
    requires
        t.len() == 4,
    ensures
        digits_value(t) == 1000 * (t[0] as int) + 100 * (t[1] as int) + 10 * (t[2] as int) + (
        t[3] as int),
{
    let t3 = t.drop_last();
    let t2 = t3.drop_last();
    let t1 = t2.drop_last();
    assert(t1.drop_last() =~= Seq::<u8>::empty());
    assert(t3.last() == t[2] && t2.last() == t[1] && t1.last() == t[0]);
    assert(digits_value(t) == digits_value(t3) * 10 + t[3]);
    assert(digits_value(t3) == digits_value(t2) * 10 + t[2]);
    assert(digits_value(t2) == digits_value(t1) * 10 + t[1]);
    assert(digits_value(t1) == digits_value(t1.drop_last()) * 10 + t1.last());
    assert(digits_value(Seq::<u8>::empty()) == 0);
    assert(digits_value(t1) == t[0]);
}

/// Grouping a zero-filled digit string four at a time preserves its value,
/// group count is a quarter of the digit count, and every group is below
/// 10000.
pub proof fn lemma_groups_of_props(s: Seq<u8>)
    requires
        s.len() % 4 == 0,
        all_digits(s),
    ensures
        groups_of(s).len() == s.len() / 4,
        forall|i: int| 0 <= i < groups_of(s).len() ==> groups_of(s)[i] < 10000,
        groups_value(groups_of(s)) == digits_value(s),
    decreases s.len(),
{
    if s.len() == 0 {
    } else {
        let head = s.take(4);
        let rest = s.skip(4);
        let g = group4(s);
        assert(s =~= head + rest);
        assert(all_digits(rest));
        assert(rest.len() % 4 == 0);
        lemma_groups_of_props(rest);
        assert(1000 * (s[0] as int) + 100 * (s[1] as int) + 10 * (s[2] as int) + (s[3] as int)
            <= 9999);
        assert(g == 1000 * (s[0] as int) + 100 * (s[1] as int) + 10 * (s[2] as int) + (
        s[3] as int));
        assert(groups_of(s) == seq![g] + groups_of(rest));
        assert(groups_of(s).len() == 1 + rest.len() / 4);

        // the value of the leading group times the value of the remainder
        lemma_groups_value_concat(seq![g], groups_of(rest));
        assert(seq![g].drop_last() =~= Seq::<u16>::empty());
        assert(groups_value(seq![g]) == groups_value(seq![g].drop_last()) * 10000 + seq![g].last());
        assert(groups_value(Seq::<u16>::empty()) == 0);
        assert(groups_value(seq![g]) == g);
        lemma_digits_value_concat(head, rest);
        lemma_digits_value_4(head);
        assert(head[0] == s[0] && head[1] == s[1] && head[2] == s[2] && head[3] == s[3]);
        assert(digits_value(head) == g);
        assert(4 * groups_of(rest).len() == rest.len());
        assert(groups_value(groups_of(s)) == g * pow10(rest.len()) + digits_value(rest));
        assert(digits_value(s) == digits_value(head) * pow10(rest.len()) + digits_value(rest));
    }
}

/// What the magnitude digit string is: all digits, value `int·10^s + f`,
/// length `4·(weight+1) + scale`, with the digit counts bounded for a
/// 64-bit integer part.
pub proof fn lemma_mag_digits_props(int_part: nat, frac: nat, scale: nat)
    requires
        scale <= 9,
        frac < pow10(scale),
        int_part <= u64::MAX,
    ensures
        all_digits(mag_digits(int_part, frac, scale)),
        digits_value(mag_digits(int_part, frac, scale)) == int_part * pow10(scale) + frac,
        mag_digits(int_part, frac, scale).len() == 4 * (spec_weight(int_part) + 1) + scale,
        1 <= digits_of(int_part).len() <= 20,
        spec_weight(int_part) <= 4,
{
    let di = digits_of(int_part);
    let fd = frac_digits(frac, scale);
    let lp = pad4(di.len());
    lemma_digits_of_all_digits(int_part);
    lemma_pow10_values();
    lemma_digits_of_len(int_part, 20);

    // the fractional digit string: all digits, length `scale`, value `frac`
    if scale == 0 {
        assert(fd.len() == scale);
        assert(digits_value(fd) == frac);
    } else {
        lemma_digits_of_all_digits(frac);
        lemma_digits_of_len(frac, scale);
        lemma_digits_value_lead_zeros((scale - digits_of(frac).len()) as nat, digits_of(frac));
        lemma_digits_of_value(frac);
        assert(fd.len() == scale);
        assert(digits_value(fd) == frac);
        assert(all_digits(fd));
    }

    // the padded integer digit string: value `int_part`, length a multiple
    // of four equal to `4·(weight+1)`
    let pi = zeros(lp) + di;
    lemma_digits_value_lead_zeros(lp, di);
    lemma_digits_of_value(int_part);
    assert(digits_value(pi) == int_part);
    assert(pi.len() == lp + di.len());
    assert(lp + di.len() == 4 * (spec_weight(int_part) + 1));

    assert(mag_digits(int_part, frac, scale) =~= pi + fd);
    lemma_digits_value_concat(pi, fd);
    assert(digits_value(pi + fd) == int_part * pow10(scale) + frac);
    assert(all_digits(pi + fd));
}

/// Decoding the encoded groups by the standard base-10000 reconstruction
/// returns exactly the encoded value. With `n` groups and weight `w`, the
/// decoded magnitude is `(sum groups[i]·10000^(n-1-i)) / 10000^(n-1-w)` and
/// the encoded magnitude is `mantissa / 10^scale`; cleared of denominators,
/// the two agree as stated here.
pub proof fn lemma_numeric_round_trip(d: Decimal)
    requires
        d.wf(),
    ensures
        ({
            let gs = numeric_groups(d.int_part as nat, d.frac as nat, d.scale as nat);
            let w = spec_weight(d.int_part as nat);
            &&& gs.len() > w
            &&& gs.len() <= 8
            &&& groups_value(gs) * pow10(d.scale as nat) == d.mantissa() * pow10(
                (4 * (gs.len() - 1 - w)) as nat,
            )
        }),
{
    let i = d.int_part as nat;
    let f = d.frac as nat;
    let s = d.scale as nat;
    let w = spec_weight(i);
    let mag = mag_digits(i, f, s);
    let rp = pad4(mag.len());
    let pd = padded_digits(i, f, s);
    let gs = numeric_groups(i, f, s);

    lemma_mag_digits_props(i, f, s);
    assert(pd =~= mag + zeros(rp));
    lemma_digits_value_concat(mag, zeros(rp));
    lemma_digits_value_zeros(rp);
    assert(digits_value(pd) == digits_value(mag) * pow10(rp));
    assert(all_digits(pd));
    assert(pd.len() == mag.len() + rp);
    assert(pd.len() % 4 == 0);
    lemma_groups_of_props(pd);
    assert(gs.len() == pd.len() / 4);
    assert(4 * gs.len() == mag.len() + rp);
    assert(gs.len() >= w + 1);
    assert(groups_value(gs) == d.mantissa() * pow10(rp));

    // the exponents balance: rp + s == 4·(n-1-w)
    assert(rp + s == 4 * (gs.len() - 1 - w));
    assert(groups_value(gs) * pow10(s) == (d.mantissa() * pow10(rp)) * pow10(s));
    assert((d.mantissa() * pow10(rp)) * pow10(s) == d.mantissa() * (pow10(rp) * pow10(s))) by {
        lemma_mul_is_associative(d.mantissa(), pow10(rp), pow10(s));
    }
    assert(pow10(rp) * pow10(s) == pow10(rp + s)) by {
        lemma_pow10_adds(rp, s);
    }
}

/// The numeric wire value before serialization: the base-10000 digit groups
/// with their weight, sign and display scale.
pub struct NumericWire {
    pub groups: Vec<u16>,
    pub weight: u16,
    pub negative: bool,
    pub dscale: u16,
}

/// Builds the magnitude's digit string: the integer digits left-padded with
/// zeros to a multiple of four, then the fractional digits.
fn build_mag_digits(d: &Decimal) -> (ds: Vec<u8>)
    requires
        d.wf(),
    ensures
        ds@ == mag_digits(d.int_part as nat, d.frac as nat, d.scale as nat),
{
    let ghost gi = d.int_part as nat;
    let ghost gf = d.frac as nat;
    let ghost gs = d.scale as nat;
    proof {
        lemma_mag_digits_props(gi, gf, gs);
        lemma_pow10_values();
    }
    let mut idig: Vec<u8> = Vec::new();
    push_digits(d.int_part, &mut idig);
    proof {
        assert(idig@ =~= digits_of(gi));
    }
    let n = idig.len();
    let lp = (4 - n % 4) % 4;
    let mut ds: Vec<u8> = Vec::new();
    push_zeros(&mut ds, lp);
    ds.append(&mut idig);
    proof {
        assert(ds@ =~= zeros(lp as nat) + digits_of(gi));
    }
    if d.scale > 0 {
        let mut fdig: Vec<u8> = Vec::new();
        push_digits(d.frac as u64, &mut fdig);
        proof {
            lemma_digits_of_len(gf, gs);
            assert(fdig@ =~= digits_of(gf));
        }
        let fl = fdig.len();
        push_zeros(&mut ds, (d.scale as usize) - fl);
        ds.append(&mut fdig);
        proof {
            assert(ds@ =~= mag_digits(gi, gf, gs));
        }
    } else {
        proof {
            assert(frac_digits(gf, gs) =~= Seq::<u8>::empty());
            assert(ds@ =~= mag_digits(gi, gf, gs));
        }
    }
    ds
}

/// Groups a zero-filled digit string into base-10000 groups, four digits at
/// a time from the left.
fn group_digits(ds: &Vec<u8>) -> (groups: Vec<u16>)
    requires
        ds@.len() % 4 == 0,
        ds@.len() <= 32,
        all_digits(ds@),
    ensures
        groups@ == groups_of(ds@),
{
    let total = ds.len();
    let mut groups: Vec<u16> = Vec::new();
    let mut i: usize = 0;
    proof {
        assert(ds@.skip(0) =~= ds@);
        assert(groups_of(ds@) =~= groups@ + groups_of(ds@.skip(0)));
    }
    while i + 4 <= total
        invariant
            total == ds@.len(),
            total <= 32,
            total % 4 == 0,
            i % 4 == 0,
            i <= total,
            all_digits(ds@),
            groups_of(ds@) == groups@ + groups_of(ds@.skip(i as int)),
        decreases total - i,
    {
        let g: u16 = 1000 * (ds[i] as u16) + 100 * (ds[i + 1] as u16) + 10 * (ds[i + 2] as u16) + (
        ds[i + 3] as u16);
        proof {
            let rem = ds@.skip(i as int);
            assert(rem[0] == ds@[i as int] && rem[1] == ds@[i as int + 1] && rem[2] == ds@[i as int
                + 2] && rem[3] == ds@[i as int + 3]);
            assert(group4(rem) == g);
            assert(rem.skip(4) =~= ds@.skip(i as int + 4));
            assert(groups_of(rem) == seq![group4(rem)] + groups_of(rem.skip(4)));
        }
        groups.push(g);
        i = i + 4;
        proof {
            assert(groups_of(ds@) =~= groups@ + groups_of(ds@.skip(i as int)));
        }
    }
    proof {
        assert(i == total);
        assert(ds@.skip(total as int) =~= Seq::<u8>::empty());
        assert(groups@ =~= groups_of(ds@));
    }
    groups
}

/// Encodes a decimal value as its numeric wire value: the sign, the display
/// scale, the weight read off the integer digit count, and the base-10000
/// digit groups of the padded magnitude digit string.
pub fn encode_numeric(d: &Decimal) -> (r: NumericWire)
    requires
        d.wf(),
    ensures
        r.groups@ == numeric_groups(d.int_part as nat, d.frac as nat, d.scale as nat),
        r.weight == spec_weight(d.int_part as nat),
        r.negative == d.negative,
        r.dscale == d.scale,
        r.groups@.len() <= 8,
        forall|j: int| 0 <= j < r.groups@.len() ==> r.groups@[j] < 10000,
{
    let ghost gi = d.int_part as nat;
    let ghost gf = d.frac as nat;
    let ghost gs = d.scale as nat;
    proof {
        lemma_mag_digits_props(gi, gf, gs);
    }
    let mut ds = build_mag_digits(d);
    let ml = ds.len();
    let rp = (4 - ml % 4) % 4;
    push_zeros(&mut ds, rp);
    proof {
        assert(ds@ =~= padded_digits(gi, gf, gs));
        assert(all_digits(ds@));
        lemma_groups_of_props(ds@);
    }
    let groups = group_digits(&ds);
    // the weight is recovered from the digit-string length, which the
    // left padding made `4·(weight+1) + scale`
    let weight = ((ml - (d.scale as usize)) / 4 - 1) as u16;
    proof {
        assert(weight == spec_weight(gi));
        assert(4 * groups@.len() == ds@.len());
    }
    NumericWire { groups, weight, negative: d.negative, dscale: d.scale as u16 }
}

/// Serializes a decimal value in the numeric wire format: group count,
/// weight, sign flag and display scale as big-endian 16-bit fields, then the
/// digit groups, two big-endian bytes each.
pub fn numeric_to_postgres_binary(d: &Decimal) -> (r: Vec<u8>)
    requires
        d.wf(),
    ensures
        r@ == numeric_bytes(*d),
        r@.len() == 8 + 2 * numeric_groups(d.int_part as nat, d.frac as nat, d.scale as nat).len(),
        r@.len() <= 24,
{
    let w = encode_numeric(d);
    let ng = w.groups.len();
    let mut out: Vec<u8> = Vec::new();
    push_be16(&mut out, ng as u16);
    push_be16(&mut out, w.weight);
    let flag: u16 = if w.negative {
        0x4000
    } else {
        0
    };
    push_be16(&mut out, flag);
    push_be16(&mut out, w.dscale);
    let ghost header = be16(ng as u16) + be16(spec_weight(d.int_part as nat) as u16) + be16(
        sign_flag(d.negative),
    ) + be16(d.scale as u16);
    proof {
        assert(out@ =~= header + be16_groups(w.groups@.take(0)));
    }
    let mut i: usize = 0;
    while i < ng
        invariant
            ng == w.groups@.len(),
            i <= ng,
            out@ == header + be16_groups(w.groups@.take(i as int)),
        decreases ng - i,
    {
        push_be16(&mut out, w.groups[i]);
        i = i + 1;
        proof {
            assert(w.groups@.take(i as int).drop_last() =~= w.groups@.take(i as int - 1));
            assert(w.groups@.take(i as int).last() == w.groups@[i as int - 1]);
            assert(out@ =~= header + be16_groups(w.groups@.take(i as int)));
        }
    }
    proof {
        assert(w.groups@.take(ng as int) =~= w.groups@);
        lemma_be16_groups_len(w.groups@);
        assert(out@ =~= numeric_bytes(*d));
    }
    out
}

} // verus!
