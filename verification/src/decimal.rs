//! The decimal values the numeric encoder accepts: a sign, an integer
//! magnitude, and a fractional part held exactly as `frac / 10^scale`.
//! Holding the parts as plain integers keeps every value finite by
//! construction; there is no not-a-number or infinity to miscode.

use vstd::prelude::*;
use crate::digits::pow10;
use crate::digits::lemma_pow10_values;
use crate::digits::lemma_pow10_adds;
use crate::digits::lemma_pow10_pos;
use crate::EncodeError;
use vstd::arithmetic::mul::lemma_mul_inequality;

verus! {

/// A finite decimal value `±(int_part + frac/10^scale)`.
///
/// `scale` is the display scale: the count of digits right of the decimal
/// point, trailing zeros included, so `23.50` is held with `frac == 50`,
/// `scale == 2` and is distinct from `23.5` at scale 1.
#[derive(Clone, Copy, Debug, PartialEq, Eq, Structural)]
pub struct Decimal {
    pub negative: bool,
    pub int_part: u64,
    pub frac: u32,
    pub scale: u32,
}

impl Decimal {
    /// The fractional numerator fits its declared scale, and the scale fits
    /// the encoder's digit budget.
    pub open spec fn wf(self) -> bool {
        &&& self.scale <= 9
        &&& (self.frac as int) < pow10(self.scale as nat)
    }

    /// The magnitude scaled to an integer: `int_part * 10^scale + frac`.
    pub open spec fn mantissa(self) -> int {
        self.int_part * pow10(self.scale as nat) + self.frac
    }

    /// The value scaled to an integer, sign applied: the decimal value
    /// itself is `scaled() / 10^scale`.
    pub open spec fn scaled(self) -> int {
        if self.negative {
            -self.mantissa()
        } else {
            self.mantissa()
        }
    }

    /// Builds a decimal, rejecting a fractional part that does not fit its
    /// declared scale (or a scale past the supported nine digits) as a
    /// malformed-input encoding error.
    pub fn new(negative: bool, int_part: u64, frac: u32, scale: u32) -> (r: Result<
        Decimal,
        EncodeError,
    >)
        ensures
            r is Ok <==> (scale <= 9 && (frac as int) < pow10(scale as nat)),
            r is Ok ==> r->Ok_0 == (Decimal { negative, int_part, frac, scale }),
            r is Ok ==> r->Ok_0.wf(),
            r is Err ==> r->Err_0 == EncodeError::Encoding,
    {
        if scale <= 9 && frac < pow10_u32(scale) {
            Ok(Decimal { negative, int_part, frac, scale })
        } else {
            Err(EncodeError::Encoding)
        }
    }

    /// Builds the scale-2 decimal `c / 100` from a count of hundredths.
    pub fn from_centi(c: i64) -> (d: Decimal)
        requires
            c > i64::MIN,
        ensures
            d.wf(),
            d.scale == 2,
            d.negative == (c < 0),
            d.scaled() == c,
    {
        let mag: u64 = if c < 0 {
            (-c) as u64
        } else {
            c as u64
        };
        let d = Decimal {
            negative: c < 0,
            int_part: mag / 100,
            frac: (mag % 100) as u32,
            scale: 2,
        };
        proof {
            lemma_pow10_values();
            vstd::arithmetic::div_mod::lemma_fundamental_div_mod(mag as int, 100);
            assert(d.mantissa() == mag);
        }
        d
    }
}

/// `10^e` as a machine integer, for the scale check.
pub fn pow10_u32(e: u32) -> (r: u32)
    requires
        e <= 9,
    ensures
        r == pow10(e as nat),
{
    let mut r: u32 = 1;
    let mut i: u32 = 0;
    while i < e
        invariant
            i <= e <= 9,
            r == pow10(i as nat),
        decreases e - i,
    {
        proof {
            lemma_pow10_values();
            assert(pow10((i + 1) as nat) == pow10(i as nat) * 10) by {
                lemma_pow10_adds(i as nat, 1);
            }
            assert(pow10((i + 1) as nat) <= pow10(9)) by {
                lemma_pow10_adds((i + 1) as nat, (9 - i - 1) as nat);
                lemma_pow10_pos((9 - i - 1) as nat);
                lemma_mul_inequality(1, pow10((9 - i - 1) as nat), pow10((i + 1) as nat));
                vstd::arithmetic::mul::lemma_mul_is_commutative(
                    pow10((i + 1) as nat),
                    pow10((9 - i - 1) as nat),
                );
            }
        }
        r = r * 10;
        i = i + 1;
    }
    r
}

} // verus!
