//! Decimal digit strings and base-10000 digit groups.
//!
//! The numeric wire format renders a magnitude as a string of base-10 digits,
//! pads it, and regroups it into base-10000 groups of four digits each. This
//! module defines the digit strings and their values, proves the regrouping
//! exact, and provides the executable digit extraction.

use vstd::prelude::*;
use vstd::arithmetic::mul::*;

verus! {

/// `10^e`.
pub open spec fn pow10(e: nat) -> int
    decreases e,
{
    if e == 0 {
        1
    } else {
        10 * pow10((e - 1) as nat)
    }
}

pub proof fn lemma_pow10_pos(e: nat)
    ensures
        pow10(e) >= 1,
    decreases e,
{
    if e > 0 {
        lemma_pow10_pos((e - 1) as nat);
    }
}

pub proof fn lemma_pow10_adds(a: nat, b: nat)
    ensures
        pow10(a + b) == pow10(a) * pow10(b),
    decreases a,
{
    if a == 0 {
    } else {
        lemma_pow10_adds((a - 1) as nat, b);
        assert(pow10(a + b) == 10 * pow10((a + b - 1) as nat));
        assert(10 * (pow10((a - 1) as nat) * pow10(b)) == (10 * pow10((a - 1) as nat)) * pow10(
            b,
        )) by {
            lemma_mul_is_associative(10, pow10((a - 1) as nat), pow10(b));
        }
    }
}

/// Small concrete powers of ten, up to the twenty digits of a 64-bit value.
pub proof fn lemma_pow10_values()
    ensures
        pow10(0) == 1,
        pow10(1) == 10,
        pow10(2) == 100,
        pow10(3) == 1000,
        pow10(4) == 10000,
        pow10(9) == 1000000000,
        pow10(19) == 10000000000000000000,
        pow10(20) == 100000000000000000000,
{
    reveal_with_fuel(pow10, 21);
}

/// Value of a most-significant-first string of base-10 digits.
pub open spec fn digits_value(s: Seq<u8>) -> int
    decreases s.len(),
{
    if s.len() == 0 {
        0
    } else {
        digits_value(s.drop_last()) * 10 + s.last()
    }
}

/// Value of a most-significant-first string of base-10000 digit groups.
pub open spec fn groups_value(s: Seq<u16>) -> int
    decreases s.len(),
{
    if s.len() == 0 {
        0
    } else {
        groups_value(s.drop_last()) * 10000 + s.last()
    }
}

/// Every entry of `s` is a base-10 digit.
pub open spec fn all_digits(s: Seq<u8>) -> bool {
    forall|i: int| 0 <= i < s.len() ==> s[i] < 10
}

/// The decimal digit string of `v`, most significant first, no leading
/// zeros (the string of zero itself is the single digit 0).
pub open spec fn digits_of(v: nat) -> Seq<u8>
    decreases v,
{
    if v < 10 {
        seq![v as u8]
    } else {
        digits_of(v / 10) + seq![(v % 10) as u8]
    }
}

/// A string of `n` zero digits.
pub open spec fn zeros(n: nat) -> Seq<u8> {
    Seq::new(n, |i: int| 0u8)
}

pub proof fn lemma_digits_value_concat(s: Seq<u8>, t: Seq<u8>)
    ensures
        digits_value(s + t) == digits_value(s) * pow10(t.len()) + digits_value(t),
    decreases t.len(),
{
    if t.len() == 0 {
        assert(s + t =~= s);
    } else {
        lemma_digits_value_concat(s, t.drop_last());
        assert((s + t).drop_last() =~= s + t.drop_last());
        assert((s + t).last() == t.last());
        let p = pow10((t.len() - 1) as nat);
        assert(digits_value(s + t) == (digits_value(s) * p + digits_value(t.drop_last())) * 10
            + t.last());
        assert((digits_value(s) * p) * 10 == digits_value(s) * (p * 10)) by {
            lemma_mul_is_associative(digits_value(s), p, 10);
        }
        assert(p * 10 == pow10(t.len())) by {
            lemma_pow10_adds((t.len() - 1) as nat, 1);
            reveal_with_fuel(pow10, 2);
        }
        lemma_mul_is_distributive_add_other_way(10, digits_value(s) * p, digits_value(
            t.drop_last(),
        ));
    }
}

pub proof fn lemma_groups_value_concat(s: Seq<u16>, t: Seq<u16>)
    ensures
        groups_value(s + t) == groups_value(s) * pow10(4 * t.len()) + groups_value(t),
    decreases t.len(),
{
    if t.len() == 0 {
        assert(s + t =~= s);
    } else {
        lemma_groups_value_concat(s, t.drop_last());
        assert((s + t).drop_last() =~= s + t.drop_last());
        assert((s + t).last() == t.last());
        let p = pow10((4 * t.len() - 4) as nat);
        assert(groups_value(s + t) == (groups_value(s) * p + groups_value(t.drop_last())) * 10000
            + t.last());
        assert((groups_value(s) * p) * 10000 == groups_value(s) * (p * 10000)) by {
            lemma_mul_is_associative(groups_value(s), p, 10000);
        }
        assert(p * 10000 == pow10(4 * t.len())) by {
            lemma_pow10_adds((4 * t.len() - 4) as nat, 4);
            reveal_with_fuel(pow10, 5);
        }
        lemma_mul_is_distributive_add_other_way(10000, groups_value(s) * p, groups_value(
            t.drop_last(),
        ));
    }
}

pub proof fn lemma_digits_value_zeros(n: nat)
    ensures
        digits_value(zeros(n)) == 0,
    decreases n,
{
    if n > 0 {
        assert(zeros(n).drop_last() =~= zeros((n - 1) as nat));
        lemma_digits_value_zeros((n - 1) as nat);
    }
}

/// Leading zeros do not change a digit string's value.
pub proof fn lemma_digits_value_lead_zeros(n: nat, s: Seq<u8>)
    ensures
        digits_value(zeros(n) + s) == digits_value(s),
{
    lemma_digits_value_concat(zeros(n), s);
    lemma_digits_value_zeros(n);
}

/// The digit string of `v` reads back as `v`.
pub proof fn lemma_digits_of_value(v: nat)
    ensures
        digits_value(digits_of(v)) == v,
    decreases v,
{
    if v < 10 {
        assert(digits_of(v).drop_last() =~= Seq::<u8>::empty());
        assert(digits_of(v).last() == v as u8);
        assert(digits_value(digits_of(v)) == digits_value(Seq::<u8>::empty()) * 10 + v as u8);
        assert(digits_value(digits_of(v)) == v);
    } else {
        lemma_digits_of_value(v / 10);
        assert(digits_of(v).drop_last() =~= digits_of(v / 10));
        assert(digits_of(v).last() == (v % 10) as u8);
        assert((v / 10) * 10 + v % 10 == v) by {
            vstd::arithmetic::div_mod::lemma_fundamental_div_mod(v as int, 10);
        }
    }
}

pub proof fn lemma_digits_of_all_digits(v: nat)
    ensures
        all_digits(digits_of(v)),
        digits_of(v).len() >= 1,
    decreases v,
{
    if v >= 10 {
        lemma_digits_of_all_digits(v / 10);
    }
}

/// A value below `10^k` has at most `k` digits.
pub proof fn lemma_digits_of_len(v: nat, k: nat)
    requires
        k >= 1,
        v < pow10(k),
    ensures
        digits_of(v).len() <= k,
    decreases v,
{
    if v < 10 {
    } else {
        assert(k >= 2) by {
            if k == 1 {
                reveal_with_fuel(pow10, 2);
            }
        }
        assert(v / 10 < pow10((k - 1) as nat)) by {
            assert(pow10(k) == 10 * pow10((k - 1) as nat));
            assert(v < 10 * pow10((k - 1) as nat));
            assert(v / 10 < pow10((k - 1) as nat)) by (nonlinear_arith)
                requires
                    v < 10 * pow10((k - 1) as nat),
                    pow10((k - 1) as nat) >= 0,
            ;
        }
        lemma_digits_of_len(v / 10, (k - 1) as nat);
    }
}

/// Appends `k` zero digits to `out`.
pub fn push_zeros(out: &mut Vec<u8>, k: usize)
    ensures
        final(out)@ == old(out)@ + zeros(k as nat),
{
    let mut j: usize = 0;
    while j < k
        invariant
            j <= k,
            out@ == old(out)@ + zeros(j as nat),
        decreases k - j,
    {
        out.push(0u8);
        j = j + 1;
        proof {
            assert(out@ =~= old(out)@ + zeros(j as nat));
        }
    }
}

/// Appends the decimal digit string of `v` to `out`.
pub fn push_digits(v: u64, out: &mut Vec<u8>)
    ensures
        final(out)@ == old(out)@ + digits_of(v as nat),
    decreases v,
{
    if v < 10 {
        out.push(v as u8);
        proof {
            assert(out@ =~= old(out)@ + digits_of(v as nat));
        }
    } else {
        push_digits(v / 10, out);
        out.push((v % 10) as u8);
        proof {
            assert(out@ =~= old(out)@ + digits_of(v as nat));
        }
    }
}

} // verus!
