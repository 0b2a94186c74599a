//! Base-2 logarithm of a duration, in Q16.16 fixed point.
//!
//! The renderer spaces its buckets on a log scale, so the derived uniform
//! structure carries `log2` of the outer thresholds. The library computes
//! that logarithm directly on the IEEE-754 bit pattern, in integer
//! arithmetic: the integer part comes from the unbiased exponent, and the
//! fractional part from the classical square-and-compare iteration on the
//! significand, carried out with 63 fractional bits of working precision
//! and truncated to 16 fractional bits of output. The result is the exact
//! value of the spec-level recurrence below; in particular it is exact on
//! powers of two and within one output step (2^-16) plus the working
//! rounding of the true logarithm everywhere else.

use vstd::prelude::*;
use vstd::arithmetic::power2::pow2;
use vstd::arithmetic::power2::lemma_pow2_strictly_increases;
use vstd::arithmetic::power2::lemma_pow2_unfold;
use vstd::arithmetic::power2::lemma2_to64;
use vstd::arithmetic::power2::lemma2_to64_rest;
use vstd::arithmetic::mul::lemma_mul_inequality;
use vstd::arithmetic::div_mod::lemma_div_is_ordered;
use vstd::arithmetic::div_mod::lemma_multiply_divide_lt;

use crate::sample::SAMPLE_LIMIT;

verus! {

/// One unit in the integer part of a Q16.16 fixed-point value.
pub const Q16_ONE: i32 = 0x1_0000;

/// The biased exponent field of a single-precision bit pattern.
pub open spec fn raw_exponent(bits: u32) -> int {
    ((bits >> 23u32) & 0xffu32) as int
}

/// The mantissa field of a single-precision bit pattern.
pub open spec fn raw_mantissa(bits: u32) -> int {
    (bits & 0x7f_ffffu32) as int
}

/// Doubles `m` until it reaches the normalized significand range
/// [2^23, 2^24), decrementing the exponent in step; the value
/// m / 2^23 * 2^e it stands for is unchanged. This turns the mantissa of a
/// subnormal pattern into a normalized significand.
pub open spec fn normalize(m: int, e: int) -> (int, int)
    recommends
        1 <= m < 0x100_0000,
    decreases 0x100_0000 - m,
        when 1 <= m < 0x100_0000
{
    if m >= 0x80_0000 {
        (m, e)
    } else {
        normalize(2 * m, e - 1)
    }
}

/// The normalized significand and unbiased exponent of a positive finite
/// pattern `bits`: the encoded value is sig / 2^23 * 2^exp with
/// 2^23 <= sig < 2^24.
pub open spec fn sig_exp(bits: u32) -> (int, int)
    recommends
        0 < bits < SAMPLE_LIMIT,
{
    if raw_exponent(bits) == 0 {
        normalize(raw_mantissa(bits), -126)
    } else {
        normalize(0x80_0000 + raw_mantissa(bits), raw_exponent(bits) - 127)
    }
}

/// The first `n` fractional bits of log2(y / 2^63), most significant
/// first, for y in [2^63, 2^64) (a number in [1, 2) with 63 fractional
/// bits). Each step squares y, truncates back to 63 fractional bits, and
/// emits a one exactly when the square reached two.
pub open spec fn log2_frac_bits(y: int, n: nat) -> int
    decreases n,
{
    if n == 0 {
        0
    } else {
        let sq = (y * y) / 0x8000_0000_0000_0000;
        if sq >= 0x1_0000_0000_0000_0000 {
            pow2((n - 1) as nat) + log2_frac_bits(sq / 2, (n - 1) as nat)
        } else {
            log2_frac_bits(sq, (n - 1) as nat)
        }
    }
}

/// log2 of the value encoded by a positive finite pattern, in Q16.16
/// fixed point: the unbiased exponent in the integer part, the
/// square-and-compare bits in the fractional part.
pub open spec fn spec_log2_q16(bits: u32) -> int {
    let se = sig_exp(bits);
    se.1 * 0x1_0000 + log2_frac_bits(se.0 * 0x100_0000_0000, 16)
}

/// `normalize` lands in the normalized range, only lowers the exponent,
/// and exactly multiplies the significand by the two-power it took out of
/// the exponent; the exponent drops by at most 23.
pub proof fn lemma_normalize(m: int, e: int)
    requires
        1 <= m < 0x100_0000,
    ensures
        0x80_0000 <= normalize(m, e).0 < 0x100_0000,
        normalize(m, e).1 <= e,
        normalize(m, e).0 == m * pow2((e - normalize(m, e).1) as nat),
        e - 23 <= normalize(m, e).1,
    decreases 0x100_0000 - m,
{
    let r = normalize(m, e);
    if m >= 0x80_0000 {
        assert(pow2(0) == 1) by {
            lemma2_to64();
        }
        assert(m * pow2(0) == m) by {
            vstd::arithmetic::mul::lemma_mul_basics(m);
        }
    } else {
        lemma_normalize(2 * m, e - 1);
        let d = (e - 1 - r.1) as nat;
        assert(r.0 == (2 * m) * pow2(d));
        assert(pow2(d + 1) == 2 * pow2(d)) by {
            lemma_pow2_unfold(d + 1);
        }
        assert((2 * m) * pow2(d) == m * (2 * pow2(d))) by {
            vstd::arithmetic::mul::lemma_mul_is_associative(2, m, pow2(d) as int);
            vstd::arithmetic::mul::lemma_mul_is_commutative(2, m);
            vstd::arithmetic::mul::lemma_mul_is_associative(m, 2, pow2(d) as int);
        }
        assert(r.0 == m * pow2((e - r.1) as nat));
    }
    // The exponent cannot drop by more than 23: the significand would
    // overshoot the normalized range.
    if e - r.1 > 23 {
        let d = (e - r.1) as nat;
        assert(pow2(24) <= pow2(d)) by {
            lemma2_to64();
            if 24 < d {
                lemma_pow2_strictly_increases(24, d);
            }
        }
        assert(1 * pow2(d) <= m * pow2(d)) by {
            lemma_mul_inequality(1, m, pow2(d) as int);
        }
        assert(pow2(24) == 0x100_0000) by {
            lemma2_to64();
        }
        assert(false);
    }
}

/// The fractional bits of a logarithm fit in `n` bits.
pub proof fn lemma_log2_frac_bits_bounds(y: int, n: nat)
    ensures
        0 <= log2_frac_bits(y, n) < pow2(n),
    decreases n,
{
    if n == 0 {
        assert(pow2(0) == 1) by {
            lemma2_to64();
        }
    } else {
        let sq = (y * y) / 0x8000_0000_0000_0000;
        lemma_log2_frac_bits_bounds(sq / 2, (n - 1) as nat);
        lemma_log2_frac_bits_bounds(sq, (n - 1) as nat);
        assert(pow2(n) == 2 * pow2((n - 1) as nat)) by {
            lemma_pow2_unfold(n);
        }
    }
}

/// A significand of exactly one (y = 2^63) has no fractional bits: its
/// square never reaches two.
pub proof fn lemma_log2_frac_bits_of_one(n: nat)
    ensures
        log2_frac_bits(0x8000_0000_0000_0000, n) == 0,
    decreases n,
{
    if n != 0 {
        assert((0x8000_0000_0000_0000int * 0x8000_0000_0000_0000) / 0x8000_0000_0000_0000
            == 0x8000_0000_0000_0000int);
        lemma_log2_frac_bits_of_one((n - 1) as nat);
    }
}

/// The Q16.16 logarithm of a positive finite pattern lies in
/// [-149 * 2^16, 2^23): the exponent range of single precision, with the
/// fractional part below one unit of the integer part.
pub proof fn lemma_log2_q16_range(bits: u32)
    requires
        0 < bits < SAMPLE_LIMIT,
    ensures
        -0x95_0000 <= spec_log2_q16(bits) < 0x80_0000,
{
    let se = sig_exp(bits);
    if raw_exponent(bits) == 0 {
        assert(1 <= raw_mantissa(bits) < 0x100_0000) by {
            assert(bits == ((bits >> 23u32) & 0xffu32) * 0x80_0000u32 + (bits & 0x7f_ffffu32))
                by (bit_vector)
                requires
                    bits < 0x7f80_0000u32,
            ;
            assert((bits & 0x7f_ffffu32) < 0x80_0000u32) by (bit_vector);
        }
        lemma_normalize(raw_mantissa(bits), -126);
    } else {
        assert(1 <= raw_exponent(bits) <= 254 && 0 <= raw_mantissa(bits) < 0x80_0000) by {
            assert(((bits >> 23u32) & 0xffu32) < 255u32 && (bits & 0x7f_ffffu32) < 0x80_0000u32)
                by (bit_vector)
                requires
                    bits < 0x7f80_0000u32,
            ;
        }
        lemma_normalize(0x80_0000 + raw_mantissa(bits), raw_exponent(bits) - 127);
    }
    assert(-149 <= se.1 <= 127);
    lemma_log2_frac_bits_bounds(se.0 * 0x100_0000_0000, 16);
    assert(pow2(16) == 0x1_0000) by {
        lemma2_to64();
    }
}

/// The logarithm is exact on powers of two: a pattern with an empty
/// mantissa and biased exponent `be` encodes 2^(be - 127), and its Q16.16
/// logarithm is exactly (be - 127) * 2^16.
pub proof fn lemma_log2_q16_pow2(bits: u32)
    requires
        0 < bits < SAMPLE_LIMIT,
        raw_exponent(bits) >= 1,
        raw_mantissa(bits) == 0,
    ensures
        spec_log2_q16(bits) == (raw_exponent(bits) - 127) * 0x1_0000,
{
    let se = sig_exp(bits);
    assert(se == (0x80_0000int, raw_exponent(bits) - 127));
    lemma_log2_frac_bits_of_one(16);
    assert(0x80_0000int * 0x100_0000_0000 == 0x8000_0000_0000_0000int);
}

/// Squaring and truncating preserves order, so the fractional bits are
/// monotone in the significand.
pub proof fn lemma_log2_frac_bits_monotone(y1: int, y2: int, n: nat)
    requires
        0x8000_0000_0000_0000 <= y1 <= y2 < 0x1_0000_0000_0000_0000,
    ensures
        log2_frac_bits(y1, n) <= log2_frac_bits(y2, n),
    decreases n,
{
    if n != 0 {
        let p63: int = 0x8000_0000_0000_0000;
        let p64: int = 0x1_0000_0000_0000_0000;
        let sq1 = (y1 * y1) / p63;
        let sq2 = (y2 * y2) / p63;
        assert(y1 * y1 <= y2 * y2) by {
            lemma_mul_inequality(y1, y2, y1);
            lemma_mul_inequality(y1, y2, y2);
            vstd::arithmetic::mul::lemma_mul_is_commutative(y2, y1);
        }
        assert(sq1 <= sq2) by {
            lemma_div_is_ordered(y1 * y1, y2 * y2, p63);
        }
        assert(p63 <= sq1) by {
            assert(p63 * p63 <= y1 * y1) by {
                lemma_mul_inequality(p63, y1, p63);
                lemma_mul_inequality(p63, y1, y1);
            }
            assert((p63 * p63) / p63 == p63) by {
                vstd::arithmetic::div_mod::lemma_div_multiples_vanish(p63, p63);
            }
            lemma_div_is_ordered(p63 * p63, y1 * y1, p63);
        }
        assert(sq2 < 2 * p64) by {
            assert(y2 * y2 < p63 * (2 * p64)) by {
                vstd::arithmetic::mul::lemma_mul_strict_upper_bound(y2, p64, y2, p64);
            }
            lemma_multiply_divide_lt(y2 * y2, p63, 2 * p64);
        }
        if sq1 >= p64 {
            // both emit a one
            assert(p64 / 2 <= sq1 / 2 && sq1 / 2 <= sq2 / 2) by {
                lemma_div_is_ordered(p64, sq1, 2);
                lemma_div_is_ordered(sq1, sq2, 2);
            }
            assert(sq2 / 2 < p64) by {
                lemma_multiply_divide_lt(sq2, 2, p64);
            }
            lemma_log2_frac_bits_monotone(sq1 / 2, sq2 / 2, (n - 1) as nat);
        } else if sq2 < p64 {
            // neither does
            lemma_log2_frac_bits_monotone(sq1, sq2, (n - 1) as nat);
        } else {
            // only the larger one does, and its one outweighs any tail
            lemma_log2_frac_bits_bounds(sq1, (n - 1) as nat);
            lemma_log2_frac_bits_bounds(sq2 / 2, (n - 1) as nat);
        }
    }
}

/// Doubling into the normalized range preserves order, lexicographically
/// on (exponent, significand).
pub proof fn lemma_normalize_monotone(m1: int, m2: int, e: int)
    requires
        1 <= m1 <= m2 < 0x100_0000,
    ensures
        normalize(m1, e).1 < normalize(m2, e).1 || (normalize(m1, e).1 == normalize(m2, e).1
            && normalize(m1, e).0 <= normalize(m2, e).0),
    decreases 0x100_0000 - m1,
{
    if m1 >= 0x80_0000 {
        // both already normalized, same exponent
    } else if m2 >= 0x80_0000 {
        // m1 needs at least one more doubling, so its exponent ends lower
        lemma_normalize(2 * m1, e - 1);
    } else {
        lemma_normalize_monotone(2 * m1, 2 * m2, e - 1);
    }
}

/// The logarithm is monotone: patterns in unsigned order encode durations
/// in numeric order, and their Q16.16 logarithms follow.
pub proof fn lemma_log2_q16_monotone(b1: u32, b2: u32)
    requires
        0 < b1 <= b2 < SAMPLE_LIMIT,
    ensures
        spec_log2_q16(b1) <= spec_log2_q16(b2),
{
    assert(b1 == ((b1 >> 23u32) & 0xffu32) * 0x80_0000u32 + (b1 & 0x7f_ffffu32) && ((b1 >> 23u32)
        & 0xffu32) < 255u32 && (b1 & 0x7f_ffffu32) < 0x80_0000u32) by (bit_vector)
        requires
            b1 < 0x7f80_0000u32,
    ;
    assert(b2 == ((b2 >> 23u32) & 0xffu32) * 0x80_0000u32 + (b2 & 0x7f_ffffu32) && ((b2 >> 23u32)
        & 0xffu32) < 255u32 && (b2 & 0x7f_ffffu32) < 0x80_0000u32) by (bit_vector)
        requires
            b2 < 0x7f80_0000u32,
    ;
    let m1: int = if raw_exponent(b1) == 0 {
        raw_mantissa(b1)
    } else {
        0x80_0000 + raw_mantissa(b1)
    };
    let e1: int = if raw_exponent(b1) == 0 {
        -126
    } else {
        raw_exponent(b1) - 127
    };
    let m2: int = if raw_exponent(b2) == 0 {
        raw_mantissa(b2)
    } else {
        0x80_0000 + raw_mantissa(b2)
    };
    let e2: int = if raw_exponent(b2) == 0 {
        -126
    } else {
        raw_exponent(b2) - 127
    };
    lemma_normalize(m1, e1);
    lemma_normalize(m2, e2);
    let s1 = sig_exp(b1);
    let s2 = sig_exp(b2);
    assert(s1 == normalize(m1, e1) && s2 == normalize(m2, e2));
    // The normalized exponents are ordered, and equal only with ordered
    // significands.
    assert(s1.1 < s2.1 || (s1.1 == s2.1 && s1.0 <= s2.0)) by {
        if raw_exponent(b1) == raw_exponent(b2) {
            lemma_normalize_monotone(m1, m2, e1);
        } else if raw_exponent(b1) == 0 {
            // subnormal against normal: at least one doubling happens
            lemma_normalize(2 * m1, e1 - 1);
        } else {
            // both normal with distinct exponent fields: no doubling at all
        }
    }
    lemma_log2_frac_bits_bounds(s1.0 * 0x100_0000_0000, 16);
    lemma_log2_frac_bits_bounds(s2.0 * 0x100_0000_0000, 16);
    assert(pow2(16) == 0x1_0000) by {
        lemma2_to64();
    }
    if s1.1 == s2.1 {
        assert(s1.0 * 0x100_0000_0000 <= s2.0 * 0x100_0000_0000) by {
            lemma_mul_inequality(s1.0, s2.0, 0x100_0000_0000);
        }
        lemma_log2_frac_bits_monotone(s1.0 * 0x100_0000_0000, s2.0 * 0x100_0000_0000, 16);
    }
}

/// Computes the Q16.16 base-2 logarithm of the value a positive finite
/// pattern encodes.
pub fn log2_q16(bits: u32) -> (r: i32)
    requires
        0 < bits < SAMPLE_LIMIT,
    ensures
        r as int == spec_log2_q16(bits),
{
    proof {
        lemma2_to64();
        lemma2_to64_rest();
    }
    let raw_e: u32 = (bits >> 23u32) & 0xffu32;
    let raw_m: u32 = bits & 0x7f_ffffu32;
    proof {
        assert(bits == ((bits >> 23u32) & 0xffu32) * 0x80_0000u32 + (bits & 0x7f_ffffu32))
            by (bit_vector)
            requires
                bits < 0x7f80_0000u32,
        ;
        assert(((bits >> 23u32) & 0xffu32) < 255u32 && (bits & 0x7f_ffffu32) < 0x80_0000u32)
            by (bit_vector)
            requires
                bits < 0x7f80_0000u32,
        ;
    }
    let mut m: u32;
    let mut e: i32;
    if raw_e == 0 {
        m = raw_m;
        e = -126;
    } else {
        m = 0x80_0000u32 + raw_m;
        e = (raw_e as i32) - 127;
    }
    let ghost m0: int = m as int;
    let ghost e0: int = e as int;
    proof {
        lemma_normalize(m0, e0);
        assert(sig_exp(bits) == normalize(m0, e0));
        assert(pow2(0) == 1) by {
            lemma2_to64();
        }
        assert(m0 * pow2(0) == m0) by {
            vstd::arithmetic::mul::lemma_mul_basics(m0);
        }
    }
    while m < 0x80_0000u32
        invariant
            1 <= (m as int),
            m < 0x100_0000u32,
            e0 - 23 <= (e as int) <= e0 <= 127,
            -126 <= e0,
            m as int == m0 * pow2((e0 - e as int) as nat),
            normalize(m as int, e as int) == normalize(m0, e0),
            1 <= m0 < 0x100_0000,
        decreases 0x100_0000 - m,
    {
        proof {
            let d = (e0 - e as int) as nat;
            assert(pow2(d + 1) == 2 * pow2(d)) by {
                lemma_pow2_unfold(d + 1);
            }
            assert(2 * (m0 * pow2(d)) == m0 * (2 * pow2(d))) by {
                vstd::arithmetic::mul::lemma_mul_is_associative(2, m0, pow2(d) as int);
                vstd::arithmetic::mul::lemma_mul_is_commutative(2, m0);
                vstd::arithmetic::mul::lemma_mul_is_associative(m0, 2, pow2(d) as int);
            }
            assert(2 * (m as int) == m0 * pow2(d + 1));
            // The exponent has dropped fewer than 23 times while the
            // significand is still below 2^23.
            if d >= 23 {
                lemma2_to64();
                if 23 < d {
                    lemma_pow2_strictly_increases(23, d);
                }
                assert(1 * pow2(d) <= m0 * pow2(d)) by {
                    lemma_mul_inequality(1, m0, pow2(d) as int);
                }
                assert(false);
            }
        }
        m = 2 * m;
        e = e - 1;
    }
    let ghost sig: int = m as int;
    let ghost fexp: int = e as int;
    proof {
        assert(normalize(sig, fexp) == (sig, fexp));
        assert(sig_exp(bits) == (sig, fexp));
    }
    let mut y: u64 = m as u64 * 0x100_0000_0000u64;
    let mut frac: u32 = 0;
    let mut i: u32 = 0;
    proof {
        assert(0x80_0000int * 0x100_0000_0000 == 0x8000_0000_0000_0000int);
    }
    while i < 16
        invariant
            i <= 16,
            0x8000_0000_0000_0000u64 <= y,
            (frac as int) < pow2(i as nat),
            frac as int * pow2((16 - i as int) as nat) + log2_frac_bits(
                y as int,
                (16 - i as int) as nat,
            ) == log2_frac_bits(sig * 0x100_0000_0000, 16),
        decreases 16 - i,
    {
        let ghost n: nat = (16 - i as int) as nat;
        let ghost yi: int = y as int;
        let ghost of: int = frac as int;
        let ghost p63: int = 0x8000_0000_0000_0000;
        let ghost p64: int = 0x1_0000_0000_0000_0000;
        proof {
            lemma2_to64();
            lemma2_to64_rest();
            // frac fits comfortably below 2^15 while i < 16
            if (i as nat) < 15 {
                lemma_pow2_strictly_increases(i as nat, 15);
            }
            // y^2 / 2^63 stays in [2^63, 2^65)
            assert(yi * yi < p63 * (2 * p64)) by {
                vstd::arithmetic::mul::lemma_mul_strict_upper_bound(yi, p64, yi, p64);
            }
            assert((yi * yi) / p63 < 2 * p64) by {
                lemma_multiply_divide_lt(yi * yi, p63, 2 * p64);
            }
            assert(p63 * p63 <= yi * yi) by {
                lemma_mul_inequality(p63, yi, p63);
                lemma_mul_inequality(p63, yi, yi);
            }
            assert(p63 <= (yi * yi) / p63) by {
                assert((p63 * p63) / p63 == p63) by {
                    vstd::arithmetic::div_mod::lemma_div_multiples_vanish(p63, p63);
                }
                lemma_div_is_ordered(p63 * p63, yi * yi, p63);
            }
        }
        let sq: u128 = ((y as u128) * (y as u128)) / 0x8000_0000_0000_0000u128;
        if sq >= 0x1_0000_0000_0000_0000u128 {
            frac = 2 * frac + 1;
            y = (sq / 2) as u64;
            proof {
                assert(p64 / 2 <= sq as int / 2) by {
                    lemma_div_is_ordered(p64, sq as int, 2);
                }
                assert(log2_frac_bits(yi, n) == pow2((n - 1) as nat) + log2_frac_bits(
                    y as int,
                    (n - 1) as nat,
                ));
            }
        } else {
            frac = 2 * frac;
            y = sq as u64;
            proof {
                assert(log2_frac_bits(yi, n) == log2_frac_bits(y as int, (n - 1) as nat));
            }
        }
        proof {
            let ghost b: int = frac as int - 2 * of;
            assert(pow2(n) == 2 * pow2((n - 1) as nat)) by {
                lemma_pow2_unfold(n);
            }
            assert(pow2((i + 1) as nat) == 2 * pow2(i as nat)) by {
                lemma_pow2_unfold((i + 1) as nat);
            }
            assert((2 * of + b) * pow2((n - 1) as nat) == of * (2 * pow2((n - 1) as nat)) + b
                * pow2((n - 1) as nat)) by {
                vstd::arithmetic::mul::lemma_mul_is_distributive_add_other_way(
                    pow2((n - 1) as nat) as int,
                    2 * of,
                    b,
                );
                vstd::arithmetic::mul::lemma_mul_is_associative(2, of, pow2((n - 1) as nat) as int);
                vstd::arithmetic::mul::lemma_mul_is_commutative(2, of);
                vstd::arithmetic::mul::lemma_mul_is_associative(of, 2, pow2((n - 1) as nat) as int);
            }
            assert(frac as int == 2 * of + b);
            assert((frac as int) * pow2((n - 1) as nat) == of * pow2(n) + b * pow2((n - 1) as nat));
            if b == 1 {
                assert(log2_frac_bits(yi, n) == pow2((n - 1) as nat) + log2_frac_bits(
                    y as int,
                    (n - 1) as nat,
                ));
                assert((frac as int) * pow2((n - 1) as nat) + log2_frac_bits(
                    y as int,
                    (n - 1) as nat,
                ) == of * pow2(n) + log2_frac_bits(yi, n));
            } else {
                assert(b == 0);
                assert(b * pow2((n - 1) as nat) == 0) by {
                    vstd::arithmetic::mul::lemma_mul_basics(pow2((n - 1) as nat) as int);
                }
                assert(log2_frac_bits(yi, n) == log2_frac_bits(y as int, (n - 1) as nat));
                assert((frac as int) * pow2((n - 1) as nat) + log2_frac_bits(
                    y as int,
                    (n - 1) as nat,
                ) == of * pow2(n) + log2_frac_bits(yi, n));
            }
        }
        i = i + 1;
    }
    proof {
        lemma2_to64();
        assert(log2_frac_bits(y as int, 0) == 0);
        assert((frac as int) * pow2(0) == frac as int) by {
            vstd::arithmetic::mul::lemma_mul_basics(frac as int);
        }
        assert(frac as int == log2_frac_bits(sig * 0x100_0000_0000, 16));
    }
    e * Q16_ONE + (frac as i32)
}

} // verus!
