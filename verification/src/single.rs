//! Scalars and IEEE 754 single-precision bit patterns.
//!
//! A single is read as the grid point nearest to it, and a scalar is
//! written as the single nearest to it, ties going to the even neighbour
//! both ways. No floating-point arithmetic takes part: both directions work
//! on the bit pattern.

use crate::scalar::{round_half_even, Scalar};
use vstd::arithmetic::power2::{
    lemma2_to64, lemma2_to64_rest, lemma_pow2_adds, lemma_pow2_pos, lemma_pow2_strictly_increases,
    pow2,
};
use vstd::bits::lemma_u64_shl_is_mul;
use vstd::prelude::*;

verus! {

/// The value of the hidden bit of a single: 2^23.
pub const HIDDEN: u32 = 0x80_0000;

/// The bit pattern of positive infinity.
pub const INFINITY: u32 = 0x7F80_0000;

/// The bit pattern of the NaN that `to_single` writes.
pub const QUIET_NAN: u32 = 0x7FC0_0000;

/// The sign bit.
pub const SIGN: u32 = 0x8000_0000;

/// The exponent at which the last bit of the significand is one grid step:
/// at it, a single counts grid steps.
pub const GRID_EXPONENT: u32 = 126;

/// The sign bit of a single-precision bit pattern.
pub open spec fn single_negative(bits: u32) -> bool {
    bits >= SIGN
}

/// The eight exponent bits of a single-precision bit pattern.
pub open spec fn single_exponent(bits: u32) -> int {
    (bits as int / HIDDEN as int) % 256
}

/// The twenty-three mantissa bits of a single-precision bit pattern.
pub open spec fn single_mantissa(bits: u32) -> int {
    bits as int % HIDDEN as int
}

/// The significand of a finite single: the mantissa, with the hidden bit in
/// front of it unless the number is subnormal.
pub open spec fn single_significand(bits: u32) -> int {
    if single_exponent(bits) == 0 {
        single_mantissa(bits)
    } else {
        HIDDEN + single_mantissa(bits)
    }
}

/// The exponent that scales the significand; subnormals share that of the
/// smallest normal numbers.
pub open spec fn single_scale(bits: u32) -> int {
    if single_exponent(bits) == 0 {
        1
    } else {
        single_exponent(bits)
    }
}

/// The absolute value of a finite single in grid steps, rounded to the
/// nearest whole number of steps.
pub open spec fn single_steps(bits: u32) -> int {
    if single_scale(bits) >= GRID_EXPONENT {
        single_significand(bits) * pow2((single_scale(bits) - GRID_EXPONENT) as nat)
    } else {
        round_half_even(
            single_significand(bits) as nat,
            pow2((GRID_EXPONENT - single_scale(bits)) as nat),
        ) as int
    }
}

/// The scalar nearest to the single with the bit pattern `bits`.
pub open spec fn spec_from_single(bits: u32) -> Scalar {
    if single_exponent(bits) == 255 {
        if single_mantissa(bits) != 0 {
            Scalar::NaN
        } else if single_negative(bits) {
            Scalar::NegInf
        } else {
            Scalar::PosInf
        }
    } else if single_negative(bits) {
        Scalar::of_raw(-single_steps(bits))
    } else {
        Scalar::of_raw(single_steps(bits))
    }
}

/// The position of the highest set bit of `a`, counted from zero.
pub open spec fn top_bit(a: nat) -> nat
    decreases a,
{
    if a < 2 {
        0
    } else {
        1 + top_bit(a / 2)
    }
}

/// The significand, hidden bit included, of the single nearest to `a` grid
/// steps: `a` moved so that its highest bit becomes the hidden bit, and
/// rounded where bits are lost on the way. Rounding may carry it to 2^24.
pub open spec fn steps_significand(a: nat) -> nat {
    if top_bit(a) <= 23 {
        a * pow2((23 - top_bit(a)) as nat)
    } else {
        round_half_even(a, pow2((top_bit(a) - 23) as nat))
    }
}

/// The bit pattern, without the sign, of the single nearest to `a` grid
/// steps, for a positive `a`. One grid step has the exponent field 103;
/// the hidden bit of the significand adds one to the exponent field that
/// stands in front of it, and so does a carry out of the significand.
pub open spec fn steps_single(a: nat) -> nat {
    (top_bit(a) + 102) * HIDDEN as nat + steps_significand(a)
}

/// The bit pattern of the single nearest to `value`.
pub open spec fn spec_to_single(value: Scalar) -> u32 {
    match value {
        Scalar::NaN => QUIET_NAN,
        Scalar::PosInf => INFINITY,
        Scalar::NegInf => (SIGN + INFINITY) as u32,
        Scalar::Finite(r) => if r == 0 {
            0
        } else if r > 0 {
            steps_single(r as nat) as u32
        } else {
            (SIGN + steps_single((-r) as nat)) as u32
        },
    }
}

/// Reads a single-precision bit pattern.
pub fn from_single(bits: u32) -> (value: Scalar)
    ensures
        value == spec_from_single(bits),
{
    let negative: bool = bits >= SIGN;
    let exponent: u32 = (bits >> 23) & 255;
    let mantissa: u32 = bits & 0x7F_FFFF;
    assert((bits >> 23) & 255 == (bits / 0x80_0000) % 256) by (bit_vector);
    assert(bits & 0x7F_FFFF == bits % 0x80_0000) by (bit_vector);
    if exponent == 255 {
        return if mantissa != 0 {
            Scalar::NaN
        } else if negative {
            Scalar::NegInf
        } else {
            Scalar::PosInf
        };
    }
    let significand: u64 = if exponent == 0 {
        mantissa as u64
    } else {
        (HIDDEN + mantissa) as u64
    };
    let scale: u32 = if exponent == 0 {
        1
    } else {
        exponent
    };
    proof {
        lemma2_to64();
    }
    if scale >= GRID_EXPONENT {
        let shift: u32 = scale - GRID_EXPONENT;
        if shift > 40 {
            proof {
                if shift > 41 {
                    lemma_pow2_strictly_increases(41, shift as nat);
                }
                lemma_pow2_adds(23, 41);
                assert(significand * pow2(shift as nat) >= pow2(23) * pow2(41))
                    by (nonlinear_arith)
                    requires
                        significand >= pow2(23),
                        pow2(shift as nat) >= pow2(41),
                ;
            }
            return if negative {
                Scalar::NegInf
            } else {
                Scalar::PosInf
            };
        }
        proof {
            if shift < 40 {
                lemma_pow2_strictly_increases(shift as nat, 40);
            }
            lemma_pow2_adds(24, 40);
            assert(significand * pow2(shift as nat) <= (pow2(24) - 1) * pow2(40))
                by (nonlinear_arith)
                requires
                    0 <= significand <= pow2(24) - 1,
                    0 <= pow2(shift as nat) <= pow2(40),
            ;
            lemma_u64_shl_is_mul(significand, shift as u64);
        }
        let steps: u64 = significand << (shift as u64);
        if negative {
            Scalar::from_wide(-(steps as i128))
        } else {
            Scalar::from_wide(steps as i128)
        }
    } else {
        let shift: u32 = GRID_EXPONENT - scale;
        if shift >= 26 {
            proof {
                if shift > 26 {
                    lemma_pow2_strictly_increases(26, shift as nat);
                }
                lemma_small_rounds_to_zero(significand as nat, pow2(shift as nat));
            }
            return Scalar::Finite(0);
        }
        proof {
            lemma_pow2_strictly_increases(shift as nat, 26);
            lemma_pow2_pos(shift as nat);
            lemma_u64_shl_is_mul(1, shift as u64);
        }
        let divisor: u64 = 1u64 << (shift as u64);
        let steps = round_to_even(significand, divisor);
        if negative {
            Scalar::Finite(-(steps as i64))
        } else {
            Scalar::Finite(steps as i64)
        }
    }
}

/// Writes the single-precision bit pattern nearest to `value`.
pub fn to_single(value: Scalar) -> (bits: u32)
    ensures
        bits == spec_to_single(value),
{
    match value {
        Scalar::NaN => QUIET_NAN,
        Scalar::PosInf => INFINITY,
        Scalar::NegInf => SIGN + INFINITY,
        Scalar::Finite(r) => {
            if r == 0 {
                0
            } else if r > 0 {
                magnitude_bits(r as u64)
            } else {
                let magnitude: u64 = (-(r as i128)) as u64;
                SIGN + magnitude_bits(magnitude)
            }
        },
    }
}

/// The bit pattern, without the sign, of the single nearest to `a` grid
/// steps.
fn magnitude_bits(a: u64) -> (bits: u32)
    requires
        0 < a <= 0x8000_0000_0000_0000,
    ensures
        bits == steps_single(a as nat),
        bits < SIGN,
{
    let mut position: u32 = 0;
    let mut rest: u64 = a;
    proof {
        lemma2_to64();
    }
    while rest >= 2
        invariant
            rest >= 1,
            position <= 63,
            top_bit(a as nat) == position + top_bit(rest as nat),
            rest * pow2(position as nat) <= a < (rest + 1) * pow2(position as nat),
            a <= 0x8000_0000_0000_0000,
        decreases rest,
    {
        proof {
            let half = rest / 2;
            lemma2_to64();
            lemma_pow2_adds(position as nat, 1);
            lemma_pow2_pos(position as nat);
            assert(half * pow2((position + 1) as nat) <= rest * pow2(position as nat))
                by (nonlinear_arith)
                requires
                    2 * half <= rest,
                    pow2((position + 1) as nat) == 2 * pow2(position as nat),
                    pow2(position as nat) > 0,
            ;
            assert((rest + 1) * pow2(position as nat) <= (half + 1) * pow2((position + 1) as nat))
                by (nonlinear_arith)
                requires
                    rest + 1 <= 2 * (half + 1),
                    pow2((position + 1) as nat) == 2 * pow2(position as nat),
                    pow2(position as nat) > 0,
            ;
            if position >= 63 {
                lemma_pow2_strictly_increases(63, (position + 1) as nat);
                assert(false) by (nonlinear_arith)
                    requires
                        half >= 1,
                        half * pow2((position + 1) as nat) <= a,
                        a <= 0x8000_0000_0000_0000,
                        pow2((position + 1) as nat) > 0x8000_0000_0000_0000,
                ;
            }
        }
        rest = rest / 2;
        position = position + 1;
    }
    proof {
        lemma2_to64();
    }
    assert(pow2(position as nat) <= a < 2 * pow2(position as nat)) by (nonlinear_arith)
        requires
            rest == 1,
            rest * pow2(position as nat) <= a < (rest + 1) * pow2(position as nat),
    ;
    let significand: u64 = if position <= 23 {
        let shift: u32 = 23 - position;
        proof {
            lemma_pow2_adds(position as nat, shift as nat);
            assert(a * pow2(shift as nat) < 2 * pow2(23)) by (nonlinear_arith)
                requires
                    a < 2 * pow2(position as nat),
                    pow2(position as nat) * pow2(shift as nat) == pow2(23),
                    pow2(shift as nat) > 0,
            ;
            lemma_u64_shl_is_mul(a, shift as u64);
        }
        a << (shift as u64)
    } else {
        let shift: u32 = position - 23;
        proof {
            if shift < 40 {
                lemma_pow2_strictly_increases(shift as nat, 40);
            }
            lemma2_to64_rest();
            lemma_pow2_pos(shift as nat);
            lemma_u64_shl_is_mul(1, shift as u64);
            lemma_pow2_adds(shift as nat, 23);
            lemma_quotient_below(a as int, pow2(shift as nat) as int, 2 * pow2(23) as int);
        }
        let divisor: u64 = 1u64 << (shift as u64);
        round_to_even(a, divisor)
    };
    (position + 102) * HIDDEN + significand as u32
}

/// `n / d` rounded to the nearest whole number, a tie going to the even
/// one.
fn round_to_even(n: u64, d: u64) -> (rounded: u64)
    requires
        0 < d <= 0x4000_0000_0000_0000,
    ensures
        rounded == round_half_even(n as nat, d as nat),
        rounded <= n / d + 1,
{
    let q: u64 = n / d;
    let r: u64 = n % d;
    assert(q < u64::MAX || d == 1) by (nonlinear_arith)
        requires
            q == n / d,
            d > 0,
            n <= u64::MAX,
    ;
    if r > d - r || (r == d - r && q % 2 == 1) {
        q + 1
    } else {
        q
    }
}

/// A number below a quarter of the divisor rounds to zero.
proof fn lemma_small_rounds_to_zero(n: nat, d: nat)
    requires
        4 * n < d,
    ensures
        round_half_even(n, d) == 0,
{
    vstd::arithmetic::div_mod::lemma_fundamental_div_mod_converse(n as int, d as int, 0, n as int);
}

/// A number below `bound` times the divisor has a quotient below `bound`.
proof fn lemma_quotient_below(n: int, d: int, bound: int)
    requires
        0 <= n < bound * d,
        d > 0,
    ensures
        n / d < bound,
{
    vstd::arithmetic::div_mod::lemma_fundamental_div_mod(n, d);
    assert(n / d < bound) by (nonlinear_arith)
        requires
            n == d * (n / d) + n % d,
            0 <= n % d,
            n < bound * d,
            d > 0,
    ;
}

/// Whether the single nearest to `value` is `value` itself: its count of
/// grid steps has no more than twenty-four significant bits. Every number
/// that a bus slot can hold is of this kind.
pub open spec fn is_single(value: Scalar) -> bool {
    value matches Scalar::Finite(r) ==> {
        let a: nat = if r < 0 { (-r) as nat } else { r as nat };
        top_bit(a) <= 23 || a % pow2((top_bit(a) - 23) as nat) == 0
    }
}

/// The highest set bit of a positive number brackets it between two powers
/// of two.
pub proof fn lemma_top_bit(a: nat)
    requires
        a > 0,
    ensures
        pow2(top_bit(a)) <= a < 2 * pow2(top_bit(a)),
    decreases a,
{
    lemma2_to64();
    if a >= 2 {
        lemma_top_bit(a / 2);
        lemma_pow2_adds(top_bit(a / 2), 1);
    }
}

/// A scalar that is a single survives being written as one and read back.
pub proof fn lemma_single_round_trip(value: Scalar)
    requires
        is_single(value),
    ensures
        spec_from_single(spec_to_single(value)) == value,
{
    lemma2_to64();
    lemma2_to64_rest();
    match value {
        Scalar::Finite(r) => {
            if r != 0 {
                let a: nat = if r < 0 { (-r) as nat } else { r as nat };
                lemma_steps_single(a);
                let plain = steps_single(a) as u32;
                let bits = spec_to_single(value);
                assert(bits == if r < 0 { (SIGN + plain) as u32 } else { plain });
                assert(single_exponent(bits) == single_exponent(plain));
                assert(single_mantissa(bits) == single_mantissa(plain));
            } else {
                lemma_pow2_pos(125);
                vstd::arithmetic::div_mod::lemma_fundamental_div_mod_converse(
                    0,
                    pow2(125) as int,
                    0,
                    0,
                );
            }
        },
        _ => {},
    }
}

/// The bit pattern for a count of grid steps that is a single reads back as
/// that count.
proof fn lemma_steps_single(a: nat)
    requires
        0 < a <= 0x8000_0000_0000_0000,
        top_bit(a) <= 23 || a % pow2((top_bit(a) - 23) as nat) == 0,
    ensures
        steps_single(a) < SIGN,
        single_exponent(steps_single(a) as u32) != 255,
        single_steps(steps_single(a) as u32) == a,
{
    lemma2_to64();
    lemma2_to64_rest();
    lemma_top_bit(a);
    let p = top_bit(a);
    if p > 63 {
        lemma_pow2_strictly_increases(63, p);
    }
    let significand = steps_significand(a);
    if p <= 23 {
        let shift = (23 - p) as nat;
        lemma_pow2_adds(p, shift);
        lemma_pow2_pos(shift);
        assert(pow2(23) <= a * pow2(shift) < 2 * pow2(23)) by (nonlinear_arith)
            requires
                pow2(p) <= a < 2 * pow2(p),
                pow2(p) * pow2(shift) == pow2(23),
                pow2(shift) > 0,
        ;
        if shift > 0 {
            vstd::arithmetic::div_mod::lemma_fundamental_div_mod_converse(
                (a * pow2(shift)) as int,
                pow2(shift) as int,
                a as int,
                0,
            );
        }
    } else {
        let shift = (p - 23) as nat;
        let d = pow2(shift);
        lemma_pow2_adds(shift, 23);
        lemma_pow2_pos(shift);
        vstd::arithmetic::div_mod::lemma_fundamental_div_mod(a as int, d as int);
        assert(pow2(23) <= a / d < 2 * pow2(23)) by (nonlinear_arith)
            requires
                pow2(p) <= a < 2 * pow2(p),
                d * pow2(23) == pow2(p),
                a == d * (a / d),
                d > 0,
        ;
        assert((a / d) * d == a) by (nonlinear_arith)
            requires
                a == d * (a / d),
        ;
    }
    assert(HIDDEN <= significand < 2 * HIDDEN);
    let bits = steps_single(a);
    assert(bits == (p + 103) * HIDDEN + (significand - HIDDEN));
    vstd::arithmetic::div_mod::lemma_fundamental_div_mod_converse(
        bits as int,
        HIDDEN as int,
        (p + 103) as int,
        significand - HIDDEN,
    );
    assert(single_significand(bits as u32) == significand);
    if p == 23 {
        assert(significand * pow2(0) == a) by (nonlinear_arith)
            requires
                significand == a * pow2(0),
                pow2(0) == 1,
        ;
    }
}

/// Doubling a positive number `k` times raises its highest bit by `k`.
proof fn lemma_top_bit_shifted(m: nat, k: nat)
    requires
        m > 0,
    ensures
        top_bit(m * pow2(k)) == top_bit(m) + k,
    decreases k,
{
    lemma2_to64();
    if k == 0 {
        assert(m * pow2(0) == m) by (nonlinear_arith)
            requires
                pow2(0) == 1,
        ;
    } else {
        let lower = (k - 1) as nat;
        lemma_top_bit_shifted(m, lower);
        lemma_pow2_adds(lower, 1);
        lemma_pow2_pos(lower);
        assert(m * pow2(k) == 2 * (m * pow2(lower)) && m * pow2(lower) >= 1) by (nonlinear_arith)
            requires
                pow2(k) == pow2(lower) * 2,
                pow2(lower) > 0,
                m > 0,
        ;
    }
}

/// A number of no more than twenty-four bits, doubled any number of times,
/// is a single, with either sign.
pub proof fn lemma_scaled_is_single(m: nat, k: nat)
    requires
        m < 0x100_0000,
        m * pow2(k) <= i64::MAX,
    ensures
        is_single(Scalar::Finite((m * pow2(k)) as i64)),
        is_single(Scalar::Finite((-(m * pow2(k))) as i64)),
{
    lemma2_to64();
    let a = m * pow2(k);
    if m > 0 {
        lemma_top_bit_shifted(m, k);
        lemma_top_bit(m);
        if top_bit(m) > 23 {
            lemma_pow2_strictly_increases(24, top_bit(m));
        }
        if top_bit(a) > 23 {
            let shift = (top_bit(a) - 23) as nat;
            let rest = (k - shift) as nat;
            lemma_pow2_adds(rest, shift);
            lemma_pow2_pos(shift);
            assert(a == (m * pow2(rest)) * pow2(shift)) by (nonlinear_arith)
                requires
                    a == m * pow2(k),
                    pow2(k) == pow2(rest) * pow2(shift),
            ;
            vstd::arithmetic::div_mod::lemma_fundamental_div_mod_converse(
                a as int,
                pow2(shift) as int,
                (m * pow2(rest)) as int,
                0,
            );
        }
    } else {
        assert(a == 0) by (nonlinear_arith)
            requires
                a == m * pow2(k),
                m == 0,
        ;
    }
}

} // verus!
