//! IEEE-754 bit patterns, read as integers.
//!
//! A real tag is a binary32 pattern and a calculation result a binary64 pattern. This
//! module reads their fields, tells finite patterns from the others, and widens a
//! binary32 pattern to the binary64 pattern of the same number.

use vstd::prelude::*;
use vstd::arithmetic::power2::lemma2_to64;
use vstd::arithmetic::power2::lemma2_to64_rest;
use vstd::arithmetic::power2::lemma_pow2_adds;
use vstd::arithmetic::power2::pow2;

verus! {

pub open spec fn single_negative(bits: u32) -> bool {
    bits >= 0x8000_0000
}

/// The biased exponent field of a binary32 pattern.
pub open spec fn single_exponent(bits: u32) -> int {
    (bits as int / 0x80_0000) % 0x100
}

/// The fraction field of a binary32 pattern.
pub open spec fn single_fraction(bits: u32) -> int {
    bits as int % 0x80_0000
}

pub open spec fn double_negative(bits: u64) -> bool {
    bits >= 0x8000_0000_0000_0000
}

/// The biased exponent field of a binary64 pattern.
pub open spec fn double_exponent(bits: u64) -> int {
    (bits as int / 0x10_0000_0000_0000) % 0x800
}

/// The fraction field of a binary64 pattern.
pub open spec fn double_fraction(bits: u64) -> int {
    bits as int % 0x10_0000_0000_0000
}

/// A binary32 pattern that is neither an infinity nor a NaN.
pub open spec fn single_finite(bits: u32) -> bool {
    single_exponent(bits) != 0xff
}

/// A binary64 pattern that is neither an infinity nor a NaN.
pub open spec fn double_finite(bits: u64) -> bool {
    double_exponent(bits) != 0x7ff
}

/// The magnitude of a finite binary32 pattern, counted in units of 2^-149.
pub open spec fn single_magnitude(bits: u32) -> int {
    let e = single_exponent(bits);
    let f = single_fraction(bits);
    if e == 0 {
        f
    } else {
        (0x80_0000 + f) * pow2((e - 1) as nat)
    }
}

/// The magnitude of a finite binary64 pattern, counted in units of 2^-1074.
pub open spec fn double_magnitude(bits: u64) -> int {
    let e = double_exponent(bits);
    let f = double_fraction(bits);
    if e == 0 {
        f
    } else {
        (0x10_0000_0000_0000 + f) * pow2((e - 1) as nat)
    }
}

/// The binary64 pattern with the given sign, biased exponent and fraction.
pub open spec fn double_pattern(negative: bool, exponent: int, fraction: int) -> u64 {
    ((if negative {
        0x8000_0000_0000_0000int
    } else {
        0int
    }) + exponent * 0x10_0000_0000_0000 + fraction) as u64
}

/// The exponent and significand of a subnormal binary32 number once its leading one
/// has been moved up to bit 23: each doubling of the significand takes one from the
/// exponent.
pub open spec fn normalized(exponent: int, significand: int) -> (int, int)
    decreases 0x100_0000 - significand,
{
    if significand <= 0 || significand >= 0x80_0000 {
        (exponent, significand)
    } else {
        normalized(exponent - 1, 2 * significand)
    }
}

/// The binary64 pattern of the number that a binary32 pattern denotes.
pub open spec fn widened(bits: u32) -> u64 {
    let negative = single_negative(bits);
    let e = single_exponent(bits);
    let f = single_fraction(bits);
    if e == 0xff {
        double_pattern(negative, 0x7ff, f * 0x2000_0000)
    } else if e != 0 {
        double_pattern(negative, e + 896, f * 0x2000_0000)
    } else if f == 0 {
        double_pattern(negative, 0, 0)
    } else {
        let (exponent, significand) = normalized(897, f);
        double_pattern(negative, exponent, (significand - 0x80_0000) * 0x2000_0000)
    }
}

/// Whether a binary64 pattern is a finite number.
pub fn is_finite(bits: u64) -> (finite: bool)
    ensures
        finite == double_finite(bits),
{
    assert((bits >> 52) & 0x7ff == (bits / 0x10_0000_0000_0000) % 0x800) by (bit_vector);
    (bits >> 52) & 0x7ff != 0x7ff
}

/// Puts the three fields of a binary64 pattern together.
fn double_of(negative: bool, exponent: u64, fraction: u64) -> (bits: u64)
    requires
        exponent < 0x800,
        fraction < 0x10_0000_0000_0000,
    ensures
        bits == double_pattern(negative, exponent as int, fraction as int),
        double_negative(bits) == negative,
        double_exponent(bits) == exponent,
        double_fraction(bits) == fraction,
{
    let sign: u64 = if negative {
        1
    } else {
        0
    };
    let bits = (sign << 63) | (exponent << 52) | fraction;
    assert(bits == sign * 0x8000_0000_0000_0000 + exponent * 0x10_0000_0000_0000 + fraction)
        by (bit_vector)
        requires
            bits == (sign << 63) | (exponent << 52) | fraction,
            sign <= 1,
            exponent < 0x800,
            fraction < 0x10_0000_0000_0000,
    ;
    bits
}

/// The binary64 pattern of the number that a binary32 pattern denotes. The sign is
/// kept. A finite number keeps its magnitude exactly (one unit of 2^-149 is 2^925
/// units of 2^-1074); an infinity stays an infinity and a NaN stays a NaN.
pub fn widen_real(bits: u32) -> (wide: u64)
    ensures
        wide == widened(bits),
        double_negative(wide) == single_negative(bits),
        double_finite(wide) == single_finite(bits),
        single_finite(bits) ==> double_magnitude(wide) == single_magnitude(bits) * pow2(925),
        !single_finite(bits) ==> double_fraction(wide) == single_fraction(bits) * 0x2000_0000,
{
    let negative = bits >= 0x8000_0000;
    let exponent: u64 = ((bits >> 23) & 0xff) as u64;
    let fraction: u64 = (bits & 0x7f_ffff) as u64;
    assert((bits >> 23) & 0xff == (bits / 0x80_0000) % 0x100) by (bit_vector);
    assert(bits & 0x7f_ffff == bits % 0x80_0000) by (bit_vector);
    proof {
        lemma2_to64();
        lemma2_to64_rest();
    }
    if exponent == 0xff {
        double_of(negative, 0x7ff, fraction * 0x2000_0000)
    } else if exponent != 0 {
        let wide = double_of(negative, exponent + 896, fraction * 0x2000_0000);
        proof {
            let e = (exponent - 1) as nat;
            lemma_pow2_adds(e, 896);
            lemma_pow2_adds(29, 896);
            lemma_widen_normal(fraction as int, pow2(e) as int, pow2(896) as int);
        }
        wide
    } else if fraction == 0 {
        let wide = double_of(negative, 0, 0);
        assert(double_magnitude(wide) == single_magnitude(bits) * pow2(925)) by {
            assert(single_magnitude(bits) == 0);
        }
        wide
    } else {
        let mut e: u64 = 897;
        let mut f: u64 = fraction;
        assert(f == fraction * pow2((897 - e) as nat)) by {
            assert(fraction * 1 == fraction);
        }
        while f < 0x80_0000
            invariant
                0 < f < 0x100_0000,
                874 <= e <= 897,
                normalized(897, fraction as int) == normalized(e as int, f as int),
                f == fraction * pow2((897 - e) as nat),
                f >= pow2((897 - e) as nat),
            decreases 0x100_0000 - f,
        {
            proof {
                let k = (897 - e) as nat;
                lemma2_to64();
                assert(fraction * (pow2(k) * 2) == (fraction * pow2(k)) * 2) by (nonlinear_arith);
            }
            f = f * 2;
            e = e - 1;
        }
        let wide = double_of(negative, e, (f - 0x80_0000) * 0x2000_0000);
        proof {
            let k = (897 - e) as nat;
            let g = (e - 1) as nat;
            lemma_pow2_adds((k + 29) as nat, g);
            lemma_widen_subnormal(fraction as int, pow2(k) as int, pow2(g) as int);
        }
        wide
    }
}

proof fn lemma_widen_normal(f: int, p: int, q: int)
    ensures
        (0x10_0000_0000_0000 + f * 0x2000_0000) * (p * q) == ((0x80_0000 + f) * p) * (0x2000_0000
            * q),
{
    assert((0x10_0000_0000_0000 + f * 0x2000_0000) * (p * q) == ((0x80_0000 + f) * p) * (
    0x2000_0000 * q)) by (nonlinear_arith);
}

proof fn lemma_widen_subnormal(f: int, p: int, q: int)
    ensures
        (0x10_0000_0000_0000 + (f * p - 0x80_0000) * 0x2000_0000) * q == f * ((p * 0x2000_0000)
            * q),
{
    assert((0x10_0000_0000_0000 + (f * p - 0x80_0000) * 0x2000_0000) * q == f * ((p
        * 0x2000_0000) * q)) by (nonlinear_arith);
}

/// The position of the leading one of a positive number: the largest `k` with
/// 2^k at most `n`.
pub open spec fn floor_log2(n: int) -> int
    decreases n,
{
    if n <= 1 {
        0
    } else {
        1 + floor_log2(n / 2)
    }
}

/// `magnitude` counted in units of `unit` and rounded to the nearest count, a tie
/// going to the even one.
pub open spec fn rounded(magnitude: int, unit: int) -> int {
    let count = magnitude / unit;
    let rest = magnitude % unit;
    if 2 * rest > unit || (2 * rest == unit && count % 2 == 1) {
        count + 1
    } else {
        count
    }
}

/// The 53-bit significand of the real number nearest to a positive whole number
/// whose leading one is at position `top`.
pub open spec fn whole_significand(magnitude: int, top: int) -> int {
    if top <= 52 {
        magnitude * pow2((52 - top) as nat)
    } else {
        rounded(magnitude, pow2((top - 52) as nat) as int)
    }
}

/// The binary64 pattern of the real number nearest to a whole number, a tie going to
/// the even significand. The significand is added onto the exponent field, so that
/// one that was rounded up to 2^53 carries into the exponent.
pub open spec fn whole_pattern(whole: int) -> int {
    if whole == 0 {
        0
    } else {
        let magnitude = if whole < 0 {
            -whole
        } else {
            whole
        };
        let top = floor_log2(magnitude);
        (if whole < 0 {
            0x8000_0000_0000_0000int
        } else {
            0int
        }) + (top + 1022) * 0x10_0000_0000_0000 + whole_significand(magnitude, top)
    }
}

/// A number between 2^k and 2^(k+1) has its leading one at position `k`.
proof fn lemma_floor_log2(n: int, k: nat)
    requires
        pow2(k) <= n < pow2(k + 1),
    ensures
        floor_log2(n) == k,
    decreases k,
{
    lemma2_to64();
    if k > 0 {
        lemma_pow2_adds((k - 1) as nat, 1);
        lemma_pow2_adds(k, 1);
        lemma_floor_log2(n / 2, (k - 1) as nat);
    }
}

fn power_of_two(exponent: u64) -> (power: u64)
    requires
        exponent <= 63,
    ensures
        power == pow2(exponent as nat),
{
    let mut power: u64 = 1;
    let mut e: u64 = 0;
    proof {
        lemma2_to64();
    }
    while e < exponent
        invariant
            e <= exponent <= 63,
            power == pow2(e as nat),
            power <= 0x4000_0000_0000_0000 || e == 63,
            e < 63 ==> power <= 0x4000_0000_0000_0000,
        decreases exponent - e,
    {
        proof {
            lemma2_to64();
            lemma2_to64_rest();
        }
        power = power * 2;
        e = e + 1;
    }
    power
}

/// The binary64 pattern of the real number nearest to a whole number.
pub fn real_of_whole(whole: i64) -> (bits: u64)
    ensures
        bits == whole_pattern(whole as int),
{
    if whole == 0 {
        return 0;
    }
    let negative = whole < 0;
    let magnitude: u64 = if negative {
        (-(whole + 1)) as u64 + 1
    } else {
        whole as u64
    };
    let mut top: u64 = 0;
    let mut low: u64 = 1;
    proof {
        lemma2_to64();
    }
    while low <= magnitude / 2
        invariant
            0 < magnitude <= 0x8000_0000_0000_0000,
            top <= 63,
            low == pow2(top as nat),
            low <= magnitude,
        decreases magnitude - low,
    {
        proof {
            lemma2_to64();
            lemma2_to64_rest();
        }
        low = low * 2;
        top = top + 1;
    }
    proof {
        lemma_pow2_adds(top as nat, 1);
        lemma_floor_log2(magnitude as int, top as nat);
    }
    let significand: u64 = if top <= 52 {
        let scale = power_of_two(52 - top);
        proof {
            lemma2_to64_rest();
            lemma_pow2_adds((top + 1) as nat, (52 - top) as nat);
            assert(magnitude * scale < pow2((top + 1) as nat) * scale) by (nonlinear_arith)
                requires
                    magnitude < pow2((top + 1) as nat),
                    scale > 0,
            ;
        }
        magnitude * scale
    } else {
        let unit = power_of_two(top - 52);
        proof {
            lemma2_to64_rest();
            assert(magnitude / unit < 0x20_0000_0000_0000) by (nonlinear_arith)
                requires
                    magnitude < unit * 0x20_0000_0000_0000,
                    unit > 0,
            ;
        }
        let count = magnitude / unit;
        let rest = magnitude % unit;
        if 2 * rest > unit || (2 * rest == unit && count % 2 == 1) {
            count + 1
        } else {
            count
        }
    };
    let sign: u64 = if negative {
        0x8000_0000_0000_0000
    } else {
        0
    };
    sign + (top + 1022) * 0x10_0000_0000_0000 + significand
}

/// The number with the given binary64 pattern, written with two digits after the
/// decimal point.
pub uninterp spec fn fixed_text(bits: u64) -> Seq<char>;

/// Calls `format!` with `{:.2}` on the number with the given binary64 pattern: the
/// number rounded to two digits after the decimal point, as the standard library
/// writes it. The text depends on the pattern alone.
#[verifier::external_body]
pub(crate) fn fixed(bits: u64) -> (text: String)
    ensures
        text@ == fixed_text(bits),
{
    format!("{:.2}", rhai::FLOAT::from_bits(bits))
}

} // verus!
