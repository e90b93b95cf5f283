//! Numbers as the gauges see them: exact multiples of 2^-24, with the two
//! infinities and "not a number" standing outside the grid.
//!
//! The grid step is the smallest positive half-precision number, so every
//! value that a bus slot can hold is represented exactly. Results of
//! arithmetic are the exact value rounded down onto the grid; where they
//! leave the 64-bit range they become the infinity of their sign.

use vstd::arithmetic::div_mod::lemma_fundamental_div_mod_converse;
use vstd::arithmetic::power2::{lemma2_to64, lemma_pow2_strictly_increases, pow2};
use vstd::bits::lemma_u64_shl_is_mul;
use vstd::prelude::*;

verus! {

/// How many grid steps make one: 2^24.
pub const UNIT: i64 = 16_777_216;

/// A gauge value.
///
/// `Finite(r)` is the number `r / 2^24`.
#[derive(Clone, Copy, Debug, PartialEq, Eq, Structural)]
pub enum Scalar {
    Finite(i64),
    PosInf,
    NegInf,
    NaN,
}

/// `n / d` rounded to the nearest whole number, a tie going to the even one.
pub open spec fn round_half_even(n: nat, d: nat) -> nat {
    let q = n / d;
    let r = n % d;
    if 2 * r > d || (2 * r == d && q % 2 == 1) {
        q + 1
    } else {
        q
    }
}

/// The sign bit of a half-precision bit pattern.
pub open spec fn half_negative(bits: u16) -> bool {
    bits >= 0x8000
}

/// The five exponent bits of a half-precision bit pattern.
pub open spec fn half_exponent(bits: u16) -> int {
    (bits as int / 1024) % 32
}

/// The ten mantissa bits of a half-precision bit pattern.
pub open spec fn half_mantissa(bits: u16) -> int {
    bits as int % 1024
}

/// The absolute value of a finite half-precision number, in grid steps:
/// subnormals count their mantissa, normal numbers put the hidden bit in
/// front of it and double once for each exponent step above one.
pub open spec fn half_magnitude(bits: u16) -> int {
    if half_exponent(bits) == 0 {
        half_mantissa(bits)
    } else {
        (1024 + half_mantissa(bits)) * pow2((half_exponent(bits) - 1) as nat)
    }
}

impl Scalar {
    /// The scalar for the grid count `r`: `r` itself where it fits in 64
    /// bits, the infinity of its sign where it does not.
    pub open spec fn of_raw(r: int) -> Scalar {
        if r > i64::MAX {
            Scalar::PosInf
        } else if r < i64::MIN {
            Scalar::NegInf
        } else {
            Scalar::Finite(r as i64)
        }
    }

    /// The whole number `n`.
    pub open spec fn spec_whole(n: int) -> Scalar {
        Scalar::of_raw(n * UNIT)
    }

    /// The number that the IEEE 754 half-precision pattern `bits` encodes.
    pub open spec fn spec_from_half(bits: u16) -> Scalar {
        if half_exponent(bits) == 31 {
            if half_mantissa(bits) != 0 {
                Scalar::NaN
            } else if half_negative(bits) {
                Scalar::NegInf
            } else {
                Scalar::PosInf
            }
        } else if half_negative(bits) {
            Scalar::of_raw(-half_magnitude(bits))
        } else {
            Scalar::of_raw(half_magnitude(bits))
        }
    }

    /// The number with the opposite sign.
    pub open spec fn spec_negate(self) -> Scalar {
        match self {
            Scalar::Finite(r) => Scalar::of_raw(-r),
            Scalar::PosInf => Scalar::NegInf,
            Scalar::NegInf => Scalar::PosInf,
            Scalar::NaN => Scalar::NaN,
        }
    }

    /// The whole number `n` as a scalar.
    pub fn whole(n: i32) -> (s: Scalar)
        ensures
            s == Scalar::spec_whole(n as int),
    {
        let wide: i64 = n as i64;
        Scalar::Finite(wide * UNIT)
    }

    /// Decodes an IEEE 754 half-precision bit pattern.
    pub fn from_half(bits: u16) -> (s: Scalar)
        ensures
            s == Scalar::spec_from_half(bits),
    {
        let negative: bool = bits >= 0x8000;
        let exponent: u16 = (bits >> 10) & 31;
        let mantissa: u16 = bits & 1023;
        assert((bits >> 10) & 31 == (bits / 1024) % 32) by (bit_vector);
        assert(bits & 1023 == bits % 1024) by (bit_vector);
        if exponent == 31 {
            if mantissa != 0 {
                Scalar::NaN
            } else if negative {
                Scalar::NegInf
            } else {
                Scalar::PosInf
            }
        } else {
            let magnitude: u64 = if exponent == 0 {
                mantissa as u64
            } else {
                let hidden: u64 = 1024 + mantissa as u64;
                let shift: u64 = (exponent - 1) as u64;
                proof {
                    lemma2_to64();
                    if shift < 29 {
                        lemma_pow2_strictly_increases(shift as nat, 29);
                    }
                    assert(hidden * pow2(shift as nat) <= 2047 * pow2(29)) by (nonlinear_arith)
                        requires
                            hidden <= 2047,
                            pow2(shift as nat) <= pow2(29),
                    ;
                    lemma_u64_shl_is_mul(hidden, shift);
                }
                hidden << shift
            };
            proof {
                lemma_half_magnitude_bound(bits);
            }
            if negative {
                Scalar::Finite(-(magnitude as i64))
            } else {
                Scalar::Finite(magnitude as i64)
            }
        }
    }

    /// The number with the opposite sign.
    pub fn negate(self) -> (s: Scalar)
        ensures
            s == self.spec_negate(),
    {
        match self {
            Scalar::Finite(r) => {
                if r == i64::MIN {
                    Scalar::PosInf
                } else {
                    Scalar::Finite(-r)
                }
            },
            Scalar::PosInf => Scalar::NegInf,
            Scalar::NegInf => Scalar::PosInf,
            Scalar::NaN => Scalar::NaN,
        }
    }
}

/// A finite half-precision number is at most 65504: its grid count stays
/// below 2^40.
pub proof fn lemma_half_magnitude_bound(bits: u16)
    requires
        half_exponent(bits) != 31,
    ensures
        0 <= half_magnitude(bits) <= 2047 * 536_870_912,
{
    lemma2_to64();
    let e = half_exponent(bits);
    if e != 0 {
        let shift = (e - 1) as nat;
        if shift < 29 {
            lemma_pow2_strictly_increases(shift, 29);
        }
        assert((1024 + half_mantissa(bits)) * pow2(shift) <= 2047 * pow2(29)) by (nonlinear_arith)
            requires
                0 <= 1024 + half_mantissa(bits) <= 2047,
                pow2(shift) <= pow2(29),
        ;
    }
}

/// The difference of two scalars as an extended real: exact where both are
/// finite, and by the rules of IEEE 754 where an infinity or a NaN takes part.
pub enum Delta {
    Finite(int),
    PosInf,
    NegInf,
    NaN,
}

/// The quotient of two differences: an exact ratio with a positive
/// denominator, or what IEEE 754 division gives where no ratio exists.
pub enum Fraction {
    Ratio { num: int, den: int },
    PosInf,
    NegInf,
    NaN,
}

/// `a - b`.
pub open spec fn spec_delta(a: Scalar, b: Scalar) -> Delta {
    match (a, b) {
        (Scalar::NaN, _) => Delta::NaN,
        (_, Scalar::NaN) => Delta::NaN,
        (Scalar::PosInf, Scalar::PosInf) => Delta::NaN,
        (Scalar::NegInf, Scalar::NegInf) => Delta::NaN,
        (Scalar::PosInf, _) => Delta::PosInf,
        (Scalar::NegInf, _) => Delta::NegInf,
        (Scalar::Finite(_), Scalar::PosInf) => Delta::NegInf,
        (Scalar::Finite(_), Scalar::NegInf) => Delta::PosInf,
        (Scalar::Finite(x), Scalar::Finite(y)) => Delta::Finite(x - y),
    }
}

/// `n / d`. A zero divisor counts as positive zero, which is what the
/// difference of two equal numbers is.
pub open spec fn spec_quotient(n: Delta, d: Delta) -> Fraction {
    match (n, d) {
        (Delta::NaN, _) => Fraction::NaN,
        (_, Delta::NaN) => Fraction::NaN,
        (Delta::PosInf, Delta::Finite(y)) => if y < 0 {
            Fraction::NegInf
        } else {
            Fraction::PosInf
        },
        (Delta::NegInf, Delta::Finite(y)) => if y < 0 {
            Fraction::PosInf
        } else {
            Fraction::NegInf
        },
        (Delta::Finite(_), Delta::PosInf) => Fraction::Ratio { num: 0, den: 1 },
        (Delta::Finite(_), Delta::NegInf) => Fraction::Ratio { num: 0, den: 1 },
        (Delta::Finite(x), Delta::Finite(y)) => if y > 0 {
            Fraction::Ratio { num: x, den: y }
        } else if y < 0 {
            Fraction::Ratio { num: -x, den: -y }
        } else if x > 0 {
            Fraction::PosInf
        } else if x < 0 {
            Fraction::NegInf
        } else {
            Fraction::NaN
        },
        _ => Fraction::NaN,
    }
}

/// How far `value` has come on the way from `min` to `max`:
/// `(value - min) / (max - min)`.
pub open spec fn spec_position(value: Scalar, min: Scalar, max: Scalar) -> Fraction {
    spec_quotient(spec_delta(value, min), spec_delta(max, min))
}

impl Fraction {
    /// `offset + span * self` for a positive `span`, both in grid steps,
    /// rounded down onto the grid.
    pub open spec fn affine(self, offset: int, span: int) -> Scalar {
        match self {
            Fraction::Ratio { num, den } => Scalar::of_raw((offset * den + span * num) / den),
            Fraction::PosInf => Scalar::PosInf,
            Fraction::NegInf => Scalar::NegInf,
            Fraction::NaN => Scalar::NaN,
        }
    }
}

/// The largest offset and span that `Quotient::affine` takes: 2^40 grid
/// steps, the number 65536.
pub const AFFINE_LIMIT: i64 = 1_099_511_627_776;

/// A `Delta` held in machine integers.
pub enum Difference {
    Finite(i128),
    PosInf,
    NegInf,
    NaN,
}

impl View for Difference {
    type V = Delta;

    open spec fn view(&self) -> Delta {
        match *self {
            Difference::Finite(x) => Delta::Finite(x as int),
            Difference::PosInf => Delta::PosInf,
            Difference::NegInf => Delta::NegInf,
            Difference::NaN => Delta::NaN,
        }
    }
}

impl Difference {
    /// A finite difference is that of two 64-bit numbers.
    pub open spec fn wf(&self) -> bool {
        *self matches Difference::Finite(x) ==> -(u64::MAX as int) <= x <= u64::MAX
    }

    /// `a - b`.
    pub fn of(a: Scalar, b: Scalar) -> (d: Difference)
        ensures
            d@ == spec_delta(a, b),
            d.wf(),
    {
        match (a, b) {
            (Scalar::NaN, _) => Difference::NaN,
            (_, Scalar::NaN) => Difference::NaN,
            (Scalar::PosInf, Scalar::PosInf) => Difference::NaN,
            (Scalar::NegInf, Scalar::NegInf) => Difference::NaN,
            (Scalar::PosInf, _) => Difference::PosInf,
            (Scalar::NegInf, _) => Difference::NegInf,
            (Scalar::Finite(_), Scalar::PosInf) => Difference::NegInf,
            (Scalar::Finite(_), Scalar::NegInf) => Difference::PosInf,
            (Scalar::Finite(x), Scalar::Finite(y)) => Difference::Finite(x as i128 - y as i128),
        }
    }
}

/// A `Fraction` held in machine integers.
pub enum Quotient {
    Ratio { num: i128, den: i128 },
    PosInf,
    NegInf,
    NaN,
}

impl View for Quotient {
    type V = Fraction;

    open spec fn view(&self) -> Fraction {
        match *self {
            Quotient::Ratio { num, den } => Fraction::Ratio { num: num as int, den: den as int },
            Quotient::PosInf => Fraction::PosInf,
            Quotient::NegInf => Fraction::NegInf,
            Quotient::NaN => Fraction::NaN,
        }
    }
}

impl Quotient {
    /// A ratio is the quotient of two differences of 64-bit numbers, with
    /// the sign in the numerator.
    pub open spec fn wf(&self) -> bool {
        *self matches Quotient::Ratio { num, den } ==> 0 < den <= u64::MAX && -(u64::MAX as int)
            <= num <= u64::MAX
    }

    /// `n / d`.
    pub fn of(n: Difference, d: Difference) -> (q: Quotient)
        requires
            n.wf(),
            d.wf(),
        ensures
            q@ == spec_quotient(n@, d@),
            q.wf(),
    {
        match (n, d) {
            (Difference::NaN, _) => Quotient::NaN,
            (_, Difference::NaN) => Quotient::NaN,
            (Difference::PosInf, Difference::Finite(y)) => if y < 0 {
                Quotient::NegInf
            } else {
                Quotient::PosInf
            },
            (Difference::NegInf, Difference::Finite(y)) => if y < 0 {
                Quotient::PosInf
            } else {
                Quotient::NegInf
            },
            (Difference::Finite(_), Difference::PosInf) => Quotient::Ratio { num: 0, den: 1 },
            (Difference::Finite(_), Difference::NegInf) => Quotient::Ratio { num: 0, den: 1 },
            (Difference::Finite(x), Difference::Finite(y)) => if y > 0 {
                Quotient::Ratio { num: x, den: y }
            } else if y < 0 {
                Quotient::Ratio { num: -x, den: -y }
            } else if x > 0 {
                Quotient::PosInf
            } else if x < 0 {
                Quotient::NegInf
            } else {
                Quotient::NaN
            },
            _ => Quotient::NaN,
        }
    }

    /// How far `value` has come on the way from `min` to `max`.
    pub fn position(value: Scalar, min: Scalar, max: Scalar) -> (q: Quotient)
        ensures
            q@ == spec_position(value, min, max),
            q.wf(),
    {
        Quotient::of(Difference::of(value, min), Difference::of(max, min))
    }

    /// `offset + span * self`, rounded down onto the grid.
    pub fn affine(&self, offset: i64, span: i64) -> (s: Scalar)
        requires
            self.wf(),
            0 <= offset <= AFFINE_LIMIT,
            0 < span <= AFFINE_LIMIT,
        ensures
            s == self@.affine(offset as int, span as int),
    {
        match *self {
            Quotient::Ratio { num, den } => {
                assert(0 <= offset * den <= AFFINE_LIMIT * u64::MAX) by (nonlinear_arith)
                    requires
                        0 <= offset <= AFFINE_LIMIT,
                        0 < den <= u64::MAX,
                ;
                assert(-(AFFINE_LIMIT * u64::MAX) <= span * num <= AFFINE_LIMIT * u64::MAX)
                    by (nonlinear_arith)
                    requires
                        0 < span <= AFFINE_LIMIT,
                        -(u64::MAX as int) <= num <= u64::MAX,
                ;
                let scaled: i128 = (offset as i128) * den + (span as i128) * num;
                Scalar::from_wide(floor_div(scaled, den))
            },
            Quotient::PosInf => Scalar::PosInf,
            Quotient::NegInf => Scalar::NegInf,
            Quotient::NaN => Scalar::NaN,
        }
    }
}

impl Scalar {
    /// The scalar for a grid count of up to 128 bits.
    pub fn from_wide(r: i128) -> (s: Scalar)
        ensures
            s == Scalar::of_raw(r as int),
    {
        if r > i64::MAX as i128 {
            Scalar::PosInf
        } else if r < i64::MIN as i128 {
            Scalar::NegInf
        } else {
            Scalar::Finite(r as i64)
        }
    }
}

/// The quotient rounded towards minus infinity.
fn floor_div(a: i128, d: i128) -> (q: i128)
    requires
        d > 0,
        a > i128::MIN,
    ensures
        q == a / d,
{
    if a >= 0 {
        ((a as u128) / (d as u128)) as i128
    } else {
        // For a negative dividend the floor is one below the mirrored
        // quotient of -a - 1.
        let mirrored: u128 = (-(a + 1)) as u128;
        let k: u128 = mirrored / (d as u128);
        let r: u128 = mirrored % (d as u128);
        proof {
            assert(mirrored == k * d + r) by {
                vstd::arithmetic::div_mod::lemma_fundamental_div_mod(mirrored as int, d as int);
                assert(d * k == k * d) by (nonlinear_arith);
            }
            assert(a == (-(k as int) - 1) * d + (d - r - 1)) by (nonlinear_arith)
                requires
                    mirrored == -(a + 1),
                    mirrored == k * d + r,
            ;
            lemma_fundamental_div_mod_converse(a as int, d as int, -(k as int) - 1, d - r - 1);
        }
        -1 - (k as i128)
    }
}

} // verus!
