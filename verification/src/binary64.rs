//! Exact integer arithmetic on the host's real numbers.
//!
//! The host stores a real as a 64-bit binary floating-point number. This
//! module reads and writes that encoding with integer arithmetic only, so
//! that a real can be turned into a native integer exactly when it is one,
//! and an integer into the real that equals it.
//!
//! A bit pattern is split into a sign (the top bit), an exponent field of 11
//! bits and a fraction of 52 bits. A pattern whose exponent field is neither
//! 0 nor 2047 stands for `(2^52 + fraction) * 2^(exponent - 1075)`, negated
//! when the sign is set. With the exponent field 0 it stands for zero if the
//! fraction is 0, and else for a number too small to be whole; with the
//! exponent field 2047 it stands for an infinity if the fraction is 0, and
//! else for no number at all.

use vstd::prelude::*;
use vstd::arithmetic::power2::{
    lemma2_to64, lemma2_to64_rest, lemma_pow2_adds, lemma_pow2_pos, lemma_pow2_strictly_increases,
    lemma_pow2_unfold, pow2,
};
use vstd::arithmetic::div_mod::{lemma_div_by_multiple, lemma_mod_multiples_basic, lemma_small_mod};
use vstd::bits::{lemma_u64_pow2_no_overflow, lemma_u64_shl_is_mul};

verus! {

/// 2^52: the number of values that the fraction can take.
pub const FRACTION_SPAN: u64 = 0x10_0000_0000_0000;

/// 2^11: the number of values that the exponent field can take.
pub const EXPONENT_SPAN: u64 = 0x800;

/// 2^63: the bit patterns from here on have the sign set.
pub const SIGN_BIT: u64 = 0x8000_0000_0000_0000;

/// The exponent field of a pattern whose value is `(2^52 + fraction) * 2^0`.
pub const EXPONENT_OF_ONE_UNIT: u64 = 1075;

/// The host's missing real: a not-a-number whose fraction is 1954.
pub const NA_REAL: u64 = 0x7FF0_0000_0000_07A2;

/// The exponent field of a bit pattern.
pub open spec fn real_exponent(bits: u64) -> int {
    (bits as int / 0x10_0000_0000_0000) % 0x800
}

/// The fraction of a bit pattern.
pub open spec fn real_fraction(bits: u64) -> int {
    bits as int % 0x10_0000_0000_0000
}

/// Whether the sign of a bit pattern is set.
pub open spec fn real_negative(bits: u64) -> bool {
    bits >= 0x8000_0000_0000_0000
}

/// Whether the pattern is not a number. The host's missing real is one of these.
pub open spec fn real_is_nan(bits: u64) -> bool {
    real_exponent(bits) == 2047 && real_fraction(bits) != 0
}

/// The absolute value of the real, if the real is a whole number.
pub open spec fn real_magnitude(bits: u64) -> Option<int> {
    let e = real_exponent(bits);
    let f = real_fraction(bits);
    let m = f + 0x10_0000_0000_0000;
    if e == 2047 {
        None
    } else if e == 0 {
        if f == 0 {
            Some(0)
        } else {
            None
        }
    } else if e >= 1075 {
        Some(m * pow2((e - 1075) as nat))
    } else if m % (pow2((1075 - e) as nat) as int) == 0 {
        Some(m / (pow2((1075 - e) as nat) as int))
    } else {
        None
    }
}

/// The integer that the real equals, if it equals one. Infinities, patterns
/// that are not a number and reals with a fractional part equal none.
pub open spec fn real_integer(bits: u64) -> Option<int> {
    match real_magnitude(bits) {
        Some(n) => Some(if real_negative(bits) { -n } else { n }),
        None => None,
    }
}

/// What `real_to_integer` returns: the integer that the real equals, where
/// its magnitude is below 2^64.
pub open spec fn real_integer_within_reach(bits: u64) -> Option<i128> {
    match real_integer(bits) {
        Some(n) => if -0x1_0000_0000_0000_0000 < n < 0x1_0000_0000_0000_0000 {
            Some(n as i128)
        } else {
            None
        },
        None => None,
    }
}

/// Whether the pattern is not a number.
pub fn is_nan(bits: u64) -> (nan: bool)
    ensures
        nan == real_is_nan(bits),
{
    (bits / FRACTION_SPAN) % EXPONENT_SPAN == 2047 && bits % FRACTION_SPAN != 0
}

/// The integer that a real equals, for reals of magnitude below 2^64; none
/// for every other real.
pub fn real_to_integer(bits: u64) -> (result: Option<i128>)
    ensures
        result == real_integer_within_reach(bits),
{
    let e: u64 = (bits / FRACTION_SPAN) % EXPONENT_SPAN;
    let f: u64 = bits % FRACTION_SPAN;
    let negative: bool = bits >= SIGN_BIT;
    if e == 2047 {
        return None;
    }
    if e == 0 {
        return if f == 0 { Some(0) } else { None };
    }
    let m: u64 = f + FRACTION_SPAN;
    let magnitude: u64;
    if e >= EXPONENT_OF_ONE_UNIT {
        let shift: u64 = e - EXPONENT_OF_ONE_UNIT;
        if shift > 11 {
            proof {
                lemma2_to64();
                if shift > 12 {
                    lemma_pow2_strictly_increases(12, shift as nat);
                }
                assert(m * pow2(shift as nat) >= 0x10_0000_0000_0000 * 0x1000) by (nonlinear_arith)
                    requires
                        m >= 0x10_0000_0000_0000,
                        pow2(shift as nat) >= 0x1000,
                ;
            }
            return None;
        }
        proof {
            lemma2_to64();
            lemma_u64_pow2_no_overflow(shift as nat);
            lemma_u64_shl_is_mul(1, shift);
            if shift < 11 {
                lemma_pow2_strictly_increases(shift as nat, 11);
            }
            assert(m * pow2(shift as nat) <= 0x1f_ffff_ffff_ffff * 0x800) by (nonlinear_arith)
                requires
                    m <= 0x1f_ffff_ffff_ffff,
                    0 < pow2(shift as nat) <= 0x800,
            ;
        }
        let factor: u64 = 1u64 << shift;
        magnitude = m * factor;
    } else {
        let shift: u64 = EXPONENT_OF_ONE_UNIT - e;
        if shift > 52 {
            proof {
                lemma2_to64_rest();
                if shift > 53 {
                    lemma_pow2_strictly_increases(53, shift as nat);
                }
                lemma_small_mod(m as nat, pow2(shift as nat));
            }
            return None;
        }
        proof {
            lemma_u64_pow2_no_overflow(shift as nat);
            lemma_u64_shl_is_mul(1, shift);
        }
        let divisor: u64 = 1u64 << shift;
        if m % divisor != 0 {
            return None;
        }
        magnitude = m / divisor;
    }
    if negative {
        Some(-(magnitude as i128))
    } else {
        Some(magnitude as i128)
    }
}

/// The position of the highest set bit of `a`: the `p` with
/// `2^p <= a < 2^(p + 1)`, for a positive `a`.
pub open spec fn floor_log2(a: nat) -> nat
    decreases a,
{
    if a < 2 {
        0
    } else {
        1 + floor_log2(a / 2)
    }
}

/// The real that equals the integer `n`, for an `n` of at most 32 bits: zero
/// is the pattern of all zeros; any other `n` has the exponent field
/// `1023 + p` and the fraction `|n| * 2^(52 - p) - 2^52`, where `p` is the
/// position of the highest set bit of `|n|`, and the sign of `n`.
pub open spec fn real_of_integer(n: int) -> u64 {
    if n == 0 {
        0
    } else {
        let a: nat = if n < 0 { (-n) as nat } else { n as nat };
        let p = floor_log2(a);
        let sign: int = if n < 0 { 0x8000_0000_0000_0000 } else { 0 };
        (sign + (1023 + p) * 0x10_0000_0000_0000 + (a * pow2((52 - p) as nat)
            - 0x10_0000_0000_0000)) as u64
    }
}

/// `floor_log2` is the position of the highest set bit.
proof fn lemma_floor_log2(a: nat, p: nat)
    requires
        pow2(p) <= a < pow2(p + 1),
    ensures
        floor_log2(a) == p,
    decreases p,
{
    lemma2_to64();
    if p == 0 {
    } else {
        lemma_pow2_unfold(p);
        lemma_pow2_unfold(p + 1);
        lemma_pow2_pos(p);
        lemma_floor_log2(a / 2, (p - 1) as nat);
    }
}

/// A positive number lies between the power of two at its highest set bit
/// and the next one.
proof fn lemma_floor_log2_bounds(a: nat)
    requires
        a >= 1,
    ensures
        pow2(floor_log2(a)) <= a < pow2(floor_log2(a) + 1),
    decreases a,
{
    lemma2_to64();
    if a >= 2 {
        lemma_floor_log2_bounds(a / 2);
        lemma_pow2_unfold(floor_log2(a));
        lemma_pow2_unfold(floor_log2(a) + 1);
    }
}

/// The real made from an integer of at most 32 bits equals that integer.
pub proof fn lemma_real_of_integer(n: int)
    requires
        -0x8000_0000 <= n <= 0x7fff_ffff,
    ensures
        real_integer(real_of_integer(n)) == Some(n),
        !real_is_nan(real_of_integer(n)),
{
    lemma2_to64();
    lemma2_to64_rest();
    if n != 0 {
        let a: nat = if n < 0 { (-n) as nat } else { n as nat };
        let p = floor_log2(a);
        lemma_floor_log2_bounds(a);
        if p >= 32 {
            lemma_pow2_strictly_increases(31, p);
        }
        let scale = pow2((52 - p) as nat);
        let top = pow2(p);
        assert(top * scale == 0x10_0000_0000_0000) by {
            lemma_pow2_adds(p, (52 - p) as nat);
        }
        lemma_pow2_unfold(p + 1);
        lemma_pow2_pos((52 - p) as nat);
        assert(a * scale >= top * scale) by (nonlinear_arith)
            requires
                a >= top,
                scale >= 0,
        ;
        assert(a * scale < (top * 2) * scale) by (nonlinear_arith)
            requires
                a < top * 2,
                scale > 0,
        ;
        assert((top * 2) * scale == 2 * (top * scale)) by (nonlinear_arith);
        let m: int = (a * scale) as int;
        let f: int = m - 0x10_0000_0000_0000;
        let e: int = (1023 + p) as int;
        let s: int = if n < 0 { 0x800 } else { 0 };
        let bits = real_of_integer(n);
        assert(bits as int == (s + e) * 0x10_0000_0000_0000 + f);
        assert(bits as int / 0x10_0000_0000_0000 == s + e && bits as int % 0x10_0000_0000_0000 == f)
            by (nonlinear_arith)
            requires
                bits as int == (s + e) * 0x10_0000_0000_0000 + f,
                0 <= f < 0x10_0000_0000_0000,
        ;
        assert(real_exponent(bits) == e);
        assert(real_fraction(bits) == f);
        assert(real_negative(bits) == (n < 0));
        assert((1075 - e) as nat == (52 - p) as nat);
        lemma_mod_multiples_basic(a as int, scale as int);
        lemma_div_by_multiple(a as int, scale as int);
        assert(real_magnitude(bits) == Some(a as int));
    }
}

/// The real that equals a 32-bit integer.
pub fn integer_to_real(value: i32) -> (bits: u64)
    ensures
        bits == real_of_integer(value as int),
{
    if value == 0 {
        return 0;
    }
    let negative: bool = value < 0;
    let wide: i64 = value as i64;
    let a: u64 = if negative { (-wide) as u64 } else { wide as u64 };
    // `top` is the largest power of two that is at most `a`, and `scale`
    // lifts it to 2^52.
    let mut p: u64 = 0;
    let mut top: u64 = 1;
    let mut scale: u64 = FRACTION_SPAN;
    proof {
        lemma2_to64();
        lemma2_to64_rest();
    }
    while top * 2 <= a
        invariant
            1 <= a <= 0x8000_0000,
            p <= 31,
            top == pow2(p as nat),
            scale == pow2((52 - p) as nat),
            top <= a,
            top * scale == 0x10_0000_0000_0000,
        decreases 0x8000_0000 - top,
    {
        proof {
            lemma2_to64();
            if p >= 31 {
                assert(false);
            }
            lemma_pow2_unfold((p + 1) as nat);
            lemma_pow2_unfold((52 - p) as nat);
            assert((top * 2) * (scale / 2) == top * scale) by (nonlinear_arith)
                requires
                    scale % 2 == 0,
            ;
        }
        top = top * 2;
        scale = scale / 2;
        p = p + 1;
    }
    proof {
        lemma_pow2_unfold((p + 1) as nat);
        lemma_floor_log2(a as nat, p as nat);
        assert(a * scale >= top * scale) by (nonlinear_arith)
            requires
                a >= top,
                scale >= 0,
        ;
        assert(a * scale < (top * 2) * scale) by (nonlinear_arith)
            requires
                a < top * 2,
                scale > 0,
        ;
        assert((top * 2) * scale == 2 * (top * scale)) by (nonlinear_arith);
    }
    let m: u64 = a * scale;
    let e: u64 = 1023 + p;
    let sign: u64 = if negative { SIGN_BIT } else { 0 };
    sign + e * FRACTION_SPAN + (m - FRACTION_SPAN)
}

} // verus!
