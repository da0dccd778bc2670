//! JavaScript numbers as the 64 bits that encode them.
//!
//! A script hands over every numeric option as an IEEE 754 double. The rules
//! on those options (finite, not negative, integral, at most some bound) and
//! the conversion to an unsigned integer are decided here on the encoding.

use vstd::arithmetic::power2::{lemma2_to64, lemma_pow2_adds, lemma_pow2_pos, lemma_pow2_strictly_increases, lemma_pow2_unfold, pow2};
use vstd::prelude::*;

verus! {

/// Two to the power of 52: the weight of the implicit leading bit.
pub const IMPLICIT_BIT: u64 = 0x10_0000_0000_0000;

/// A double, held as its bits (what `f64::to_bits` gives).
#[derive(Copy, Clone, Debug, PartialEq, Eq)]
pub struct JsNumber {
    pub bits: u64,
}

impl JsNumber {
    /// The sign bit.
    pub open spec fn sign_bit(self) -> bool {
        self.bits >= 0x8000_0000_0000_0000
    }

    /// The eleven exponent bits.
    pub open spec fn biased_exponent(self) -> nat {
        ((self.bits / IMPLICIT_BIT) % 2048) as nat
    }

    /// The fifty-two fraction bits.
    pub open spec fn fraction(self) -> nat {
        (self.bits % IMPLICIT_BIT) as nat
    }

    /// Neither an infinity nor a NaN.
    pub open spec fn finite(self) -> bool {
        self.biased_exponent() != 2047
    }

    pub open spec fn nan(self) -> bool {
        self.biased_exponent() == 2047 && self.fraction() != 0
    }

    /// The magnitude of a finite number is `significand * 2^exponent`.
    pub open spec fn significand(self) -> nat {
        if self.biased_exponent() == 0 {
            self.fraction()
        } else {
            IMPLICIT_BIT as nat + self.fraction()
        }
    }

    pub open spec fn exponent(self) -> int {
        (if self.biased_exponent() == 0 {
            1
        } else {
            self.biased_exponent() as int
        }) - 1075
    }

    /// Less than zero; neither zero nor a NaN is.
    pub open spec fn negative(self) -> bool {
        self.sign_bit() && self.significand() != 0 && !self.nan()
    }

    /// The integer part of a finite number's magnitude.
    pub open spec fn whole(self) -> nat {
        if self.exponent() >= 0 {
            self.significand() * pow2(self.exponent() as nat)
        } else {
            self.significand() / pow2((-self.exponent()) as nat)
        }
    }

    /// A finite number has no fractional part.
    pub open spec fn integral(self) -> bool {
        self.exponent() >= 0 || self.significand() % pow2((-self.exponent()) as nat) == 0
    }

    /// The saturating conversion to an unsigned integer: towards zero, a NaN
    /// and everything below zero to zero, and what is too large to the maximum.
    pub open spec fn clamped(self) -> u64 {
        if self.nan() || self.negative() {
            0
        } else if !self.finite() || self.whole() > u64::MAX {
            u64::MAX
        } else {
            self.whole() as u64
        }
    }

    /// What the double nearest to `max` bounds: for the largest integer that
    /// is two to the power of 64.
    pub open spec fn bound(max: u64) -> nat {
        if max == u64::MAX {
            0x1_0000_0000_0000_0000
        } else {
            max as nat
        }
    }

    pub fn is_finite(&self) -> (finite: bool)
        ensures
            finite == self.finite(),
    {
        (self.bits / IMPLICIT_BIT) % 2048 != 2047
    }

    pub fn is_negative(&self) -> (negative: bool)
        ensures
            negative == self.negative(),
    {
        let biased: u64 = (self.bits / IMPLICIT_BIT) % 2048;
        let fraction: u64 = self.bits % IMPLICIT_BIT;
        if biased == 2047 && fraction != 0 {
            return false;
        }
        self.bits >= 0x8000_0000_0000_0000 && (biased != 0 || fraction != 0)
    }

    /// A zero of either sign.
    pub fn is_zero(&self) -> (zero: bool)
        ensures
            zero == (self.significand() == 0),
    {
        let (significand, _exponent) = self.parts();
        significand == 0
    }

    /// The significand and the exponent of the encoding.
    fn parts(&self) -> (parts: (u64, i64))
        ensures
            parts.0 == self.significand(),
            parts.1 == self.exponent(),
            parts.0 < 2 * IMPLICIT_BIT,
            -1074 <= parts.1 <= 972,
            parts.1 > -1074 ==> parts.0 >= IMPLICIT_BIT,
    {
        let biased: u64 = (self.bits / IMPLICIT_BIT) % 2048;
        let fraction: u64 = self.bits % IMPLICIT_BIT;
        if biased == 0 {
            (fraction, -1074)
        } else {
            (IMPLICIT_BIT + fraction, biased as i64 - 1075)
        }
    }

    /// The integer part, where it is below two to the power of 64.
    fn whole_part(&self) -> (whole: Option<u64>)
        ensures
            match whole {
                Some(value) => value == self.whole(),
                None => self.whole() > u64::MAX,
            },
    {
        let (significand, exponent) = self.parts();
        if exponent >= 0 {
            if exponent > 11 {
                proof {
                    lemma2_to64();
                    lemma_power_at_least(12, exponent as nat);
                    assert(significand * pow2(exponent as nat) >= 0x10_0000_0000_0000 * 4096) by (nonlinear_arith)
                        requires
                            significand >= 0x10_0000_0000_0000,
                            pow2(exponent as nat) >= 4096,
                    ;
                }
                return None;
            }
            let power: u64 = power_of_two(exponent as u64);
            proof {
                lemma2_to64();
                lemma_power_at_least(exponent as nat, 11);
                assert(significand * power < 0x1_0000_0000_0000_0000) by (nonlinear_arith)
                    requires
                        significand < 0x20_0000_0000_0000,
                        power <= 2048,
                ;
            }
            Some(significand * power)
        } else {
            let shift: u64 = (-exponent) as u64;
            if shift > 52 {
                proof {
                    lemma_significand_powers();
                    lemma_power_at_least(53, shift as nat);
                    vstd::arithmetic::div_mod::lemma_basic_div(significand as int, pow2(shift as nat) as int);
                }
                return Some(0);
            }
            let power: u64 = power_of_two(shift);
            proof {
                lemma_pow2_pos(shift as nat);
                vstd::arithmetic::div_mod::lemma_div_is_ordered_by_denominator(
                    significand as int,
                    1,
                    power as int,
                );
            }
            Some(significand / power)
        }
    }

    pub fn is_integral(&self) -> (integral: bool)
        ensures
            integral == self.integral(),
    {
        let (significand, exponent) = self.parts();
        if exponent >= 0 {
            return true;
        }
        let shift: u64 = (-exponent) as u64;
        if shift > 52 {
            proof {
                lemma_significand_powers();
                lemma_power_at_least(53, shift as nat);
                vstd::arithmetic::div_mod::lemma_small_mod(significand as nat, pow2(shift as nat));
            }
            return significand == 0;
        }
        let power: u64 = power_of_two(shift);
        proof {
            lemma_pow2_pos(shift as nat);
        }
        significand % power == 0
    }

    /// The saturating conversion to an unsigned integer.
    pub fn to_u64(&self) -> (value: u64)
        ensures
            value == self.clamped(),
    {
        let biased: u64 = (self.bits / IMPLICIT_BIT) % 2048;
        let fraction: u64 = self.bits % IMPLICIT_BIT;
        if (biased == 2047 && fraction != 0) || self.is_negative() {
            return 0;
        }
        if !self.is_finite() {
            return u64::MAX;
        }
        match self.whole_part() {
            Some(value) => value,
            None => u64::MAX,
        }
    }

    /// A finite, non-negative integer that is at most `max`, compared as a
    /// double.
    pub fn is_integer_up_to(&self, max: u64) -> (accepted: bool)
        requires
            max < 2 * IMPLICIT_BIT || max == u64::MAX,
        ensures
            accepted == (self.finite() && !self.negative() && self.integral() && self.whole()
                <= JsNumber::bound(max)),
    {
        if !self.is_finite() || self.is_negative() || !self.is_integral() {
            return false;
        }
        match self.whole_part() {
            Some(value) => value <= max,
            None => {
                let (significand, exponent) = self.parts();
                proof {
                    self.lemma_beyond_u64();
                }
                max == u64::MAX && exponent == 12 && significand == IMPLICIT_BIT
            },
        }
    }

    /// Above the unsigned range, only two to the power of 64 itself is within
    /// the bound of the largest integer.
    proof fn lemma_beyond_u64(self)
        requires
            self.whole() > u64::MAX,
        ensures
            self.whole() >= 0x1_0000_0000_0000_0000,
            self.whole() == 0x1_0000_0000_0000_0000 <==> self.exponent() == 12
                && self.significand() == IMPLICIT_BIT,
    {
        lemma2_to64();
        let m = self.significand();
        let e = self.exponent();
        if e < 0 {
            lemma_pow2_pos((-e) as nat);
            vstd::arithmetic::div_mod::lemma_div_is_ordered_by_denominator(
                m as int,
                1,
                pow2((-e) as nat) as int,
            );
        } else if e < 12 {
            lemma_power_at_least(e as nat, 11);
            let p = pow2(e as nat);
            assert(m * p < 0x1_0000_0000_0000_0000) by (nonlinear_arith)
                requires
                    m < 0x20_0000_0000_0000,
                    p <= 2048,
            ;
        } else if e == 12 {
            assert(self.whole() == m * 4096);
        } else {
            lemma_power_at_least(13, e as nat);
            let p = pow2(e as nat);
            assert(m * p >= 0x10_0000_0000_0000 * 8192) by (nonlinear_arith)
                requires
                    m >= 0x10_0000_0000_0000,
                    p >= 8192,
            ;
        }
    }
}

/// The powers around the width of a significand.
proof fn lemma_significand_powers()
    ensures
        pow2(52) == 0x10_0000_0000_0000,
        pow2(53) == 0x20_0000_0000_0000,
{
    lemma2_to64();
    lemma_pow2_adds(32, 20);
    lemma_pow2_unfold(53);
}

/// Powers of two do not decrease.
proof fn lemma_power_at_least(low: nat, high: nat)
    requires
        low <= high,
    ensures
        pow2(low) <= pow2(high),
{
    if low < high {
        lemma_pow2_strictly_increases(low, high);
    }
}

/// `2^exponent`, for an exponent that leaves it below two to the power of 53.
fn power_of_two(exponent: u64) -> (power: u64)
    requires
        exponent <= 52,
    ensures
        power == pow2(exponent as nat),
        power >= 1,
{
    let mut power: u64 = 1;
    let mut done: u64 = 0;
    proof {
        lemma2_to64();
    }
    while done < exponent
        invariant
            done <= exponent <= 52,
            power == pow2(done as nat),
            1 <= power,
        decreases exponent - done,
    {
        proof {
            lemma_significand_powers();
            lemma_pow2_unfold((done + 1) as nat);
            lemma_power_at_least(done as nat, 52);
        }
        power = power * 2;
        done = done + 1;
    }
    power
}

/// The parts of an encoding: from a sign, an exponent and a fraction a number
/// is put together, and the same parts are read from it. The largest exponent
/// stands for an infinity or a NaN, the smallest for numbers without the
/// implicit bit.
pub proof fn law_encoding_reads_back(sign: bool, exponent: u64, fraction: u64)
    requires
        exponent < 2048,
        fraction < 0x10_0000_0000_0000,
    ensures
        ({
            let top: int = if sign {
                0x8000_0000_0000_0000
            } else {
                0
            };
            let n = JsNumber { bits: (top + exponent * 0x10_0000_0000_0000 + fraction) as u64 };
            &&& n.sign_bit() == sign
            &&& n.biased_exponent() == exponent
            &&& n.fraction() == fraction
            &&& n.finite() <==> exponent < 2047
            &&& n.nan() <==> exponent == 2047 && fraction != 0
            &&& n.significand() == if exponent == 0 {
                fraction as int
            } else {
                fraction + 0x10_0000_0000_0000
            }
            &&& n.exponent() == if exponent == 0 {
                -1074
            } else {
                exponent - 1075
            }
            &&& n.negative() <==> sign && !(exponent == 0 && fraction == 0) && !(exponent == 2047
                && fraction != 0)
        }),
{
    let top: int = if sign {
        0x8000_0000_0000_0000
    } else {
        0
    };
    let bits = (top + exponent * 0x10_0000_0000_0000 + fraction) as u64;
    assert(bits == top + exponent * 0x10_0000_0000_0000 + fraction);
    assert(bits / 0x10_0000_0000_0000 == exponent + if sign {
        2048int
    } else {
        0
    });
    assert(bits % 0x10_0000_0000_0000 == fraction);
}

/// The integer part of a number is the largest integer that is not above it:
/// the significand lies between its multiples of the unit. A number is an
/// integer exactly where it equals its integer part.
pub proof fn law_whole_part_is_rounded_down(n: JsNumber)
    ensures
        n.exponent() >= 0 ==> n.whole() == n.significand() * pow2(n.exponent() as nat)
            && n.integral(),
        n.exponent() < 0 ==> {
            let unit = pow2((-n.exponent()) as nat);
            &&& n.whole() * unit <= n.significand() < (n.whole() + 1) * unit
            &&& n.integral() <==> n.whole() * unit == n.significand()
        },
{
    if n.exponent() < 0 {
        let unit = pow2((-n.exponent()) as nat);
        let m = n.significand();
        lemma_pow2_pos((-n.exponent()) as nat);
        vstd::arithmetic::div_mod::lemma_fundamental_div_mod(m as int, unit as int);
        vstd::arithmetic::div_mod::lemma_mod_bound(m as int, unit as int);
        let q = m / unit;
        assert(q * unit == unit * q) by (nonlinear_arith);
        assert((q + 1) * unit == q * unit + unit) by (nonlinear_arith);
    }
}

/// The conversion to an unsigned integer: the integer part where it fits, the
/// largest value for whatever is above, zero for whatever is below zero and for
/// a NaN. The bound of a check is the number itself, but for the largest one,
/// which a double rounds up.
pub proof fn law_conversion_saturates(n: JsNumber, max: u64)
    ensures
        n.nan() || n.negative() ==> n.clamped() == 0,
        !n.nan() && !n.negative() && !n.finite() ==> n.clamped() == u64::MAX,
        n.finite() && !n.negative() && n.whole() <= u64::MAX ==> n.clamped() == n.whole(),
        n.finite() && !n.negative() && n.whole() > u64::MAX ==> n.clamped() == u64::MAX,
        max < u64::MAX ==> JsNumber::bound(max) == max,
        JsNumber::bound(u64::MAX) == u64::MAX + 1,
{
}

} // verus!
