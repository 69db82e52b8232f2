//! Reading IEEE 754 binary32 and binary64 values from their bit patterns.
//!
//! The settings block is a row of single-precision values and the host
//! hands values over in double precision. Everything the contract decides
//! about a value (is it finite, is it zero or one, is it a whole number,
//! does it sit between two bounds) is a question about its encoding, and is
//! answered here on the bits, so that the deciding code holds no arithmetic
//! on the values themselves.

use vstd::prelude::*;
use vstd::arithmetic::power2::{
    pow2, lemma2_to64, lemma_pow2_adds, lemma_pow2_pos, lemma_pow2_strictly_increases,
    lemma_pow2_unfold,
};

verus! {

/// `2^23`: one unit of a single's exponent field.
pub const SINGLE_EXPONENT_UNIT: u32 = 0x80_0000;

/// `2^31`: the sign bit of a single.
pub const SINGLE_SIGN: u32 = 0x8000_0000;

/// Single-precision one.
pub const SINGLE_ONE: u32 = 0x3F80_0000;

/// Single-precision one half.
pub const SINGLE_HALF: u32 = 0x3F00_0000;

/// `2^52`: one unit of a double's exponent field.
pub const DOUBLE_EXPONENT_UNIT: u64 = 0x10_0000_0000_0000;

/// `2^63`: the sign bit of a double.
pub const DOUBLE_SIGN: u64 = 0x8000_0000_0000_0000;

/// Double-precision one.
pub const DOUBLE_ONE: u64 = 0x3FF0_0000_0000_0000;

// ---------------------------------------------------------------------------
// Fields of an encoding

pub open spec fn single_negative(bits: u32) -> bool {
    bits >= SINGLE_SIGN
}

pub open spec fn single_exponent(bits: u32) -> int {
    (bits / SINGLE_EXPONENT_UNIT) as int % 256
}

pub open spec fn single_fraction(bits: u32) -> int {
    bits as int % SINGLE_EXPONENT_UNIT as int
}

/// The magnitude bits: everything but the sign.
pub open spec fn single_magnitude(bits: u32) -> int {
    bits as int % SINGLE_SIGN as int
}

pub open spec fn single_is_nan(bits: u32) -> bool {
    single_exponent(bits) == 255 && single_fraction(bits) != 0
}

pub open spec fn single_is_finite(bits: u32) -> bool {
    single_exponent(bits) != 255
}

/// Plus or minus zero.
pub open spec fn single_is_zero(bits: u32) -> bool {
    single_magnitude(bits) == 0
}

/// Where a value that is not a NaN sits on the number line. Magnitudes grow
/// with their encodings, so the order of values is the order of these ranks,
/// and the two zeros share rank zero.
pub open spec fn single_rank(bits: u32) -> int {
    if single_negative(bits) {
        -single_magnitude(bits)
    } else {
        single_magnitude(bits)
    }
}

/// `a <= b` between two singles: false when either is a NaN.
pub open spec fn single_le(a: u32, b: u32) -> bool {
    !single_is_nan(a) && !single_is_nan(b) && single_rank(a) <= single_rank(b)
}

pub open spec fn double_negative(bits: u64) -> bool {
    bits >= DOUBLE_SIGN
}

pub open spec fn double_exponent(bits: u64) -> int {
    (bits / DOUBLE_EXPONENT_UNIT) as int % 2048
}

pub open spec fn double_fraction(bits: u64) -> int {
    bits as int % DOUBLE_EXPONENT_UNIT as int
}

pub open spec fn double_is_finite(bits: u64) -> bool {
    double_exponent(bits) != 2047
}

pub open spec fn double_is_zero(bits: u64) -> bool {
    bits as int % DOUBLE_SIGN as int == 0
}

// ---------------------------------------------------------------------------
// Whole numbers

/// The natural number an encoding denotes, when it denotes one below `2^64`.
/// Both zeros denote zero; a negative number, a fraction, an infinity, a NaN
/// and anything at or above `2^64` denote none. `fraction_bits` and `bias`
/// describe the format: 23 and 127 for a single, 52 and 1023 for a double.
pub open spec fn whole_value(
    negative: bool,
    exponent: int,
    fraction: int,
    fraction_bits: nat,
    bias: int,
) -> Option<nat> {
    if exponent == 0 && fraction == 0 {
        Some(0)
    } else if negative || exponent == 0 || exponent < bias || exponent >= bias + 64 {
        None
    } else {
        let significand = pow2(fraction_bits) + fraction;
        let scale = exponent - bias - fraction_bits;
        if scale >= 0 {
            Some((significand * pow2(scale as nat)) as nat)
        } else if significand % pow2((-scale) as nat) as int == 0 {
            Some((significand / pow2((-scale) as nat) as int) as nat)
        } else {
            None
        }
    }
}

pub open spec fn single_whole(bits: u32) -> Option<nat> {
    whole_value(single_negative(bits), single_exponent(bits), single_fraction(bits), 23, 127)
}

pub open spec fn double_whole(bits: u64) -> Option<nat> {
    whole_value(double_negative(bits), double_exponent(bits), double_fraction(bits), 52, 1023)
}

/// The largest `e` with `2^e <= k`, for `k >= 1`.
pub open spec fn floor_log2(k: nat) -> nat
    decreases k,
{
    if k < 2 {
        0
    } else {
        1 + floor_log2(k / 2)
    }
}

/// `m / 2^drop` rounded to the nearest whole number, ties to the even one.
pub open spec fn rounded_shift(m: nat, drop: nat) -> nat {
    if drop == 0 {
        m
    } else {
        let kept = m / pow2(drop);
        let rest = m % pow2(drop);
        let half = pow2((drop - 1) as nat);
        if rest > half || (rest == half && kept % 2 == 1) {
            kept + 1
        } else {
            kept
        }
    }
}

/// The 24-bit significand nearest to `k`, where `2^e <= k < 2^(e+1)`: `k`
/// itself scaled up when it fits, else `k` scaled down and rounded to
/// nearest, ties to even. The result may reach `2^24`, which the encoding
/// carries into the exponent.
pub open spec fn nearest_significand(k: nat, e: nat) -> nat {
    if e <= 23 {
        k * pow2((23 - e) as nat)
    } else {
        rounded_shift(k, (e - 23) as nat)
    }
}

/// The single nearest to the natural number `k`, ties to even: what a
/// conversion of an integer to single precision yields.
pub open spec fn single_of_whole(k: nat) -> nat {
    if k == 0 {
        0
    } else {
        let e = floor_log2(k);
        ((127 + e) * pow2(23) + nearest_significand(k, e) - pow2(23)) as nat
    }
}


/// The single nearest to a double, ties to even: what narrowing a double to
/// single precision yields. A value past the largest single becomes an
/// infinity, one below half the smallest single becomes a zero, both keeping
/// the sign. A NaN becomes the quiet NaN of its sign here, where the
/// hardware may carry part of its payload across; nothing in the contract
/// reads a narrowed NaN, since a NaN host value is refused first.
pub open spec fn narrowed(bits: u64) -> u32 {
    let sign: int = if double_negative(bits) { SINGLE_SIGN as int } else { 0 };
    let e = double_exponent(bits);
    let f = double_fraction(bits);
    if e == 2047 {
        if f == 0 {
            (sign + 0x7F80_0000) as u32
        } else {
            (sign + 0x7FC0_0000) as u32
        }
    } else if e == 0 {
        sign as u32
    } else if e >= 1023 + 128 {
        (sign + 0x7F80_0000) as u32
    } else {
        let field: int = if e >= 897 { e - 896 } else { 1 };
        let drop: nat = if e >= 897 { 29 } else { (926 - e) as nat };
        (sign + field * 0x80_0000 + rounded_shift((0x10_0000_0000_0000 + f) as nat, drop) - 0x80_0000) as u32
    }
}


/// The double equal to a single: widening is exact. A subnormal single
/// becomes a normal double. An infinity stays one; a NaN keeps its sign and
/// payload here, where the hardware also sets its quiet bit.
pub open spec fn widened(bits: u32) -> u64 {
    let sign: int = if single_negative(bits) { DOUBLE_SIGN as int } else { 0 };
    let e = single_exponent(bits);
    let f = single_fraction(bits);
    if e == 255 {
        (sign + 0x7FF0_0000_0000_0000 + f * 0x2000_0000) as u64
    } else if e == 0 {
        if f == 0 {
            sign as u64
        } else {
            let p = floor_log2(f as nat);
            (sign + (p + 874) * 0x10_0000_0000_0000 + (f - pow2(p)) * pow2((52 - p) as nat)) as u64
        }
    } else {
        (sign + (e + 896) * 0x10_0000_0000_0000 + f * 0x2000_0000) as u64
    }
}

// ---------------------------------------------------------------------------
// Proofs

pub proof fn lemma_floor_log2_bounds(k: nat)
    requires
        k >= 1,
    ensures
        pow2(floor_log2(k)) <= k < pow2(floor_log2(k) + 1),
    decreases k,
{
    lemma2_to64();
    if k >= 2 {
        lemma_floor_log2_bounds(k / 2);
        let e = floor_log2(k / 2);
        lemma_pow2_unfold(e + 1);
        lemma_pow2_unfold(e + 2);
    }
}

pub proof fn lemma_floor_log2_unique(k: nat, e: nat)
    requires
        pow2(e) <= k < pow2(e + 1),
    ensures
        floor_log2(k) == e,
{
    lemma_pow2_pos(e);
    lemma_floor_log2_bounds(k);
    let f = floor_log2(k);
    if f < e {
        if f + 1 < e {
            lemma_pow2_strictly_increases(f + 1, e);
        }
    } else if f > e {
        if e + 1 < f {
            lemma_pow2_strictly_increases(e + 1, f);
        }
    }
}


/// A single that lies between two finite singles is finite itself.
pub proof fn lemma_between_finite_is_finite(low: u32, x: u32, high: u32)
    requires
        single_le(low, x),
        single_le(x, high),
        single_is_finite(low),
        single_is_finite(high),
    ensures
        single_is_finite(x),
{
    assert(single_magnitude(x) == single_exponent(x) * 0x80_0000 + single_fraction(x));
    assert(single_magnitude(low) == single_exponent(low) * 0x80_0000 + single_fraction(low));
    assert(single_magnitude(high) == single_exponent(high) * 0x80_0000 + single_fraction(high));
}


/// The encoding of a single, put back together from its fields.
proof fn lemma_single_fields(bits: u32)
    ensures
        bits as int == (if single_negative(bits) { SINGLE_SIGN as int } else { 0 }) + single_exponent(
            bits,
        ) * 0x80_0000 + single_fraction(bits),
{
}

/// A subnormal single narrows back from its widening.
#[verifier::spinoff_prover]
#[verifier::rlimit(40)]
proof fn lemma_subnormal_narrows_back(bits: u32)
    requires
        single_exponent(bits) == 0,
        single_fraction(bits) != 0,
    ensures
        narrowed(widened(bits)) == bits,
        double_is_finite(widened(bits)),
        !double_is_zero(widened(bits)),
        widened(bits) != DOUBLE_ONE,
        874 <= double_exponent(widened(bits)) < 1023,
{
    lemma2_to64();
    vstd::arithmetic::power2::lemma2_to64_rest();
    lemma_single_fields(bits);
    let f = single_fraction(bits);
    let w = widened(bits);
    let p = floor_log2(f as nat);
    lemma_floor_log2_bounds(f as nat);
    assert(p <= 22) by {
        if p > 22 {
            lemma_pow2_strictly_increases(23, p);
        }
    }
    let d = (52 - p) as nat;
    lemma_pow2_adds(p, d);
    lemma_pow2_unfold(p + 1);
    lemma_pow2_pos(d);
    let low = (f - pow2(p)) * pow2(d);
    assert(0 <= low < 0x10_0000_0000_0000) by (nonlinear_arith)
        requires
            low == (f - pow2(p)) * pow2(d),
            0 <= f - pow2(p) < pow2(p),
            pow2(p) * pow2(d) == 0x10_0000_0000_0000,
            pow2(d) > 0,
    ;
    let m = 0x10_0000_0000_0000 + low;
    assert(m == f * pow2(d)) by (nonlinear_arith)
        requires
            m == 0x10_0000_0000_0000 + low,
            low == (f - pow2(p)) * pow2(d),
            pow2(p) * pow2(d) == 0x10_0000_0000_0000,
    ;
    vstd::arithmetic::div_mod::lemma_div_by_multiple(f, pow2(d) as int);
    vstd::arithmetic::div_mod::lemma_mod_multiples_basic(f, pow2(d) as int);
    assert(double_exponent(w) == p + 874);
    assert(double_fraction(w) == low);
    assert(rounded_shift(m as nat, d) == f);
}

/// A normal single narrows back from its widening.
#[verifier::spinoff_prover]
proof fn lemma_normal_narrows_back(bits: u32)
    requires
        single_exponent(bits) != 0,
        single_exponent(bits) != 255,
    ensures
        narrowed(widened(bits)) == bits,
        double_is_finite(widened(bits)),
        !double_is_zero(widened(bits)),
        (widened(bits) == DOUBLE_ONE) == (bits == SINGLE_ONE),
        double_exponent(widened(bits)) == single_exponent(bits) + 896,
        double_fraction(widened(bits)) == single_fraction(bits) * 0x2000_0000,
        double_negative(widened(bits)) == single_negative(bits),
{
    lemma2_to64();
    lemma_single_fields(bits);
    let e = single_exponent(bits);
    let f = single_fraction(bits);
    let w = widened(bits);
    assert(double_exponent(w) == e + 896);
    assert(double_fraction(w) == f * 0x2000_0000);
    let m = 0x10_0000_0000_0000 + f * 0x2000_0000;
    assert(m / pow2(29) as int == 0x80_0000 + f);
    assert(m % pow2(29) as int == 0);
    assert(rounded_shift(m as nat, 29) == 0x80_0000 + f);
}

/// `a * m` divided by `b * m`: the quotient of `a` by `b`, and the
/// remainder of `a` scaled by `m`.
proof fn lemma_scaled_division(a: int, b: int, m: int)
    requires
        a >= 0,
        b > 0,
        m > 0,
    ensures
        (a * m) / (b * m) == a / b,
        (a * m) % (b * m) == (a % b) * m,
{
    let q = a / b;
    let r = a % b;
    vstd::arithmetic::div_mod::lemma_fundamental_div_mod(a, b);
    assert(0 <= r < b);
    assert(a * m == q * (b * m) + r * m && 0 <= r * m < b * m) by (nonlinear_arith)
        requires
            a == b * q + r,
            0 <= r < b,
            m > 0,
    ;
    vstd::arithmetic::div_mod::lemma_fundamental_div_mod_converse(a * m, b * m, q, r * m);
}

/// The whole number of a normal single, read again from the fields its
/// widening has: the exponent rebased and the fraction moved up 29 places.
#[verifier::spinoff_prover]
#[verifier::rlimit(40)]
proof fn lemma_whole_of_rebased_fields(negative: bool, e: int, f: int)
    requires
        1 <= e <= 254,
        0 <= f < 0x80_0000,
    ensures
        whole_value(negative, e + 896, f * 0x2000_0000, 52, 1023) == whole_value(
            negative,
            e,
            f,
            23,
            127,
        ),
{
    lemma2_to64();
    vstd::arithmetic::power2::lemma2_to64_rest();
    if !negative && 127 <= e < 191 {
        let s = pow2(23) + f;
        let big = pow2(52) + f * 0x2000_0000;
        assert(big == s * pow2(29)) by (nonlinear_arith)
            requires
                s == pow2(23) + f,
                big == pow2(52) + f * 0x2000_0000,
                pow2(23) == 0x80_0000,
                pow2(29) == 0x2000_0000,
                pow2(52) == 0x10_0000_0000_0000,
        ;
        lemma_pow2_pos(29);
        if e >= 179 {
            let t = (e - 179) as nat;
            lemma_pow2_adds(29, t);
            lemma_pow2_pos(t);
            assert(big * pow2(t) == s * pow2(29 + t)) by (nonlinear_arith)
                requires
                    big == s * pow2(29),
                    pow2(29) * pow2(t) == pow2(29 + t),
            ;
        } else if e >= 150 {
            let t = (e - 150) as nat;
            let u = (29 - t) as nat;
            lemma_pow2_adds(t, u);
            lemma_pow2_pos(t);
            lemma_pow2_pos(u);
            assert(big == (s * pow2(t)) * pow2(u)) by (nonlinear_arith)
                requires
                    big == s * pow2(29),
                    pow2(t) * pow2(u) == pow2(29),
            ;
            lemma_scaled_division(s * pow2(t), 1, pow2(u) as int);
            if t == 0 {
                assert(pow2(t) == 1) by {
                    lemma2_to64();
                }
            }
        } else {
            let u = (150 - e) as nat;
            lemma_pow2_adds(u, 29);
            lemma_pow2_pos(u);
            assert(big == s * pow2(29));
            lemma_scaled_division(s, pow2(u) as int, pow2(29) as int);
            assert(pow2(u) * pow2(29) == pow2(u + 29));
            assert(((e + 896) - 1023 - 52) == -((u + 29) as int));
        }
    }
}

/// A single and its widening denote the same whole number, or neither
/// denotes one.
pub proof fn lemma_widened_whole(bits: u32)
    ensures
        double_whole(widened(bits)) == single_whole(bits),
{
    lemma2_to64();
    lemma_single_fields(bits);
    let e = single_exponent(bits);
    let f = single_fraction(bits);
    let w = widened(bits);
    if e == 255 {
        assert(double_exponent(w) == 2047);
    } else if e == 0 {
        if f != 0 {
            lemma_subnormal_narrows_back(bits);
        }
    } else {
        lemma_normal_narrows_back(bits);
        assert(double_negative(w) == single_negative(bits));
        lemma_whole_of_rebased_fields(single_negative(bits), e, f);
    }
}

/// A whole number below `2^24` is exact in single precision: the single
/// nearest to it is finite and denotes it.
#[verifier::spinoff_prover]
#[verifier::rlimit(40)]
pub proof fn lemma_small_whole_is_exact(k: nat)
    requires
        k < 0x100_0000,
    ensures
        single_of_whole(k) < 0x8000_0000,
        single_is_finite(single_of_whole(k) as u32),
        single_whole(single_of_whole(k) as u32) == Some(k),
{
    lemma2_to64();
    if k > 0 {
        let e = floor_log2(k);
        lemma_floor_log2_bounds(k);
        assert(e <= 23) by {
            if e > 23 {
                lemma_pow2_strictly_increases(24, e);
            }
        }
        let u = (23 - e) as nat;
        lemma_pow2_adds(e, u);
        lemma_pow2_adds(e + 1, u);
        lemma_pow2_unfold(e + 1);
        lemma_pow2_pos(u);
        let n = k * pow2(u);
        assert(pow2(23) <= n < pow2(24)) by (nonlinear_arith)
            requires
                n == k * pow2(u),
                pow2(e) <= k < pow2(e + 1),
                pow2(e) * pow2(u) == pow2(23),
                pow2(e + 1) * pow2(u) == pow2(24),
                pow2(u) > 0,
        ;
        assert(nearest_significand(k, e) == n);
        let c = single_of_whole(k);
        assert(c == (127 + e) * 0x80_0000 + (n - 0x80_0000));
        let bits = c as u32;
        assert(bits as int == c);
        vstd::arithmetic::div_mod::lemma_fundamental_div_mod_converse(
            c as int,
            0x80_0000,
            (127 + e) as int,
            n - 0x80_0000,
        );
        assert(single_exponent(bits) == 127 + e);
        assert(single_fraction(bits) == n - 0x80_0000);
        assert(!single_negative(bits));
        let significand = pow2(23) + single_fraction(bits);
        assert(significand == n);
        if e < 23 {
            vstd::arithmetic::div_mod::lemma_fundamental_div_mod_converse(
                n as int,
                pow2(u) as int,
                k as int,
                0,
            );
            assert((n as int) % (pow2(u) as int) == 0);
            assert((n as int) / (pow2(u) as int) == k);
            assert(single_whole(bits) == Some(((n as int) / (pow2(u) as int)) as nat));
        } else {
            assert(pow2(u) == 1 && pow2(0) == 1);
            assert(n == k && n * pow2(0) == n) by (nonlinear_arith)
                requires
                    n == k * pow2(u),
                    pow2(u) == 1,
                    pow2(0) == 1,
            ;
            assert(single_whole(bits) == Some((n * pow2(0)) as nat));
        }
        assert(single_whole(bits) == Some(k));
    } else {
        assert(single_of_whole(k) == 0);
        assert(single_exponent(0u32) == 0 && single_fraction(0u32) == 0);
    }
}

/// The whole number an encoding denotes is below `2^64`.
#[verifier::spinoff_prover]
#[verifier::rlimit(40)]
proof fn lemma_whole_value_bound(
    negative: bool,
    exponent: int,
    fraction: int,
    fraction_bits: nat,
    bias: int,
)
    requires
        0 <= fraction < pow2(fraction_bits),
        fraction_bits <= 63,
    ensures
        whole_value(negative, exponent, fraction, fraction_bits, bias) matches Some(k) ==> k
            < 0x1_0000_0000_0000_0000,
{
    lemma2_to64();
    vstd::arithmetic::power2::lemma2_to64_rest();
    if !(exponent == 0 && fraction == 0) && !(negative || exponent == 0 || exponent < bias
        || exponent >= bias + 64) {
        let significand = pow2(fraction_bits) + fraction;
        let scale = exponent - bias - fraction_bits;
        lemma_pow2_unfold(fraction_bits + 1);
        assert(significand < pow2(fraction_bits + 1));
        if scale >= 0 {
            let top = (fraction_bits + 1 + scale) as nat;
            lemma_pow2_adds(fraction_bits + 1, scale as nat);
            lemma_pow2_pos(scale as nat);
            assert(significand * pow2(scale as nat) < pow2(top)) by (nonlinear_arith)
                requires
                    significand < pow2(fraction_bits + 1),
                    pow2(scale as nat) > 0,
                    pow2(top) == pow2(fraction_bits + 1) * pow2(scale as nat),
            ;
            if top < 64 {
                lemma_pow2_strictly_increases(top, 64);
            }
        } else {
            let d = pow2((-scale) as nat);
            lemma_pow2_pos((-scale) as nat);
            vstd::arithmetic::div_mod::lemma_fundamental_div_mod(significand, d as int);
            let q = significand / (d as int);
            assert(q <= significand) by (nonlinear_arith)
                requires
                    significand == d * q + significand % (d as int),
                    significand % (d as int) >= 0,
                    d >= 1,
                    significand >= 0,
            ;
            if fraction_bits + 1 < 64 {
                lemma_pow2_strictly_increases(fraction_bits + 1, 64);
            }
        }
    }
}

/// The whole number a single or a double denotes is below `2^64`.
pub proof fn lemma_wholes_are_below_2_64(single: u32, double: u64)
    ensures
        single_whole(single) matches Some(k) ==> k < 0x1_0000_0000_0000_0000,
        double_whole(double) matches Some(k) ==> k < 0x1_0000_0000_0000_0000,
{
    lemma2_to64();
    vstd::arithmetic::power2::lemma2_to64_rest();
    lemma_whole_value_bound(
        single_negative(single),
        single_exponent(single),
        single_fraction(single),
        23,
        127,
    );
    lemma_whole_value_bound(
        double_negative(double),
        double_exponent(double),
        double_fraction(double),
        52,
        1023,
    );
}

/// The single nearest to a whole number below `2^64` is a positive
/// encoding (or zero): its sign bit is clear.
#[verifier::spinoff_prover]
#[verifier::rlimit(40)]
pub proof fn lemma_single_of_whole_is_positive(k: nat)
    requires
        k < 0x1_0000_0000_0000_0000,
    ensures
        single_of_whole(k) < 0x8000_0000,
{
    lemma2_to64();
    vstd::arithmetic::power2::lemma2_to64_rest();
    if k > 0 {
        let e = floor_log2(k);
        lemma_floor_log2_bounds(k);
        assert(e <= 63) by {
            if e > 63 {
                lemma_pow2_strictly_increases(64, e);
            }
        }
        lemma_pow2_unfold(e + 1);
        let n = nearest_significand(k, e);
        if e <= 23 {
            let u = (23 - e) as nat;
            lemma_pow2_adds(e + 1, u);
            lemma_pow2_pos(u);
            assert(n <= pow2(24)) by (nonlinear_arith)
                requires
                    n == k * pow2(u),
                    k < pow2(e + 1),
                    pow2(e + 1) * pow2(u) == pow2(24),
                    pow2(u) > 0,
            ;
        } else {
            let d = (e - 23) as nat;
            lemma_pow2_adds(24, d);
            lemma_pow2_pos(d);
            let kept = k / pow2(d);
            vstd::arithmetic::div_mod::lemma_fundamental_div_mod(k as int, pow2(d) as int);
            assert(kept < pow2(24)) by (nonlinear_arith)
                requires
                    k == pow2(d) * kept + k % pow2(d),
                    k % pow2(d) >= 0,
                    k < pow2(24) * pow2(d),
                    pow2(d) > 0,
            ;
            assert(n <= kept + 1);
        }
        assert(single_of_whole(k) == (127 + e) * pow2(23) + n - pow2(23));
    }
}

/// A single that denotes a whole number and has its sign bit clear is the
/// single nearest to that number.
#[verifier::spinoff_prover]
#[verifier::rlimit(60)]
pub proof fn lemma_whole_single_is_nearest(bits: u32)
    requires
        !single_negative(bits),
        single_whole(bits) is Some,
    ensures
        single_of_whole(single_whole(bits).unwrap()) == bits,
        single_is_finite(bits),
{
    lemma2_to64();
    vstd::arithmetic::power2::lemma2_to64_rest();
    lemma_single_fields(bits);
    let big_e = single_exponent(bits);
    let f = single_fraction(bits);
    let m = single_whole(bits).unwrap();
    if big_e == 0 && f == 0 {
        assert(bits == 0);
    } else {
        let s = pow2(23) + f;
        let e = (big_e - 127) as nat;
        assert(0x80_0000 <= s < 0x100_0000);
        if big_e >= 150 {
            let t = (big_e - 150) as nat;
            assert(m == s * pow2(t));
            assert(e == 23 + t);
            lemma_pow2_adds(23, t);
            lemma_pow2_adds(24, t);
            lemma_pow2_pos(t);
            assert(pow2(e) <= m < pow2(e + 1)) by (nonlinear_arith)
                requires
                    m == s * pow2(t),
                    0x80_0000 <= s < 0x100_0000,
                    pow2(23) == 0x80_0000,
                    pow2(24) == 0x100_0000,
                    pow2(e) == pow2(23) * pow2(t),
                    pow2(e + 1) == pow2(24) * pow2(t),
                    pow2(t) > 0,
            ;
            lemma_floor_log2_unique(m, e);
            if t == 0 {
                assert(m == s) by (nonlinear_arith)
                    requires
                        m == s * pow2(t),
                        pow2(t) == 1,
                ;
                assert(nearest_significand(m, e) == m * pow2(0));
                assert(m * pow2(0) == m) by (nonlinear_arith)
                    requires
                        pow2(0) == 1,
                ;
            } else {
                vstd::arithmetic::div_mod::lemma_fundamental_div_mod_converse(
                    m as int,
                    pow2(t) as int,
                    s as int,
                    0,
                );
                lemma_pow2_pos((t - 1) as nat);
                assert(rounded_shift(m, t) == s);
            }
        } else {
            let u = (150 - big_e) as nat;
            assert(s % pow2(u) as int == 0 && m == s / pow2(u) as int);
            assert(e == 23 - u);
            lemma_pow2_pos(u);
            vstd::arithmetic::div_mod::lemma_fundamental_div_mod(s as int, pow2(u) as int);
            assert(s == m * pow2(u)) by (nonlinear_arith)
                requires
                    s == pow2(u) * (s / pow2(u) as int) + s % pow2(u) as int,
                    s % pow2(u) as int == 0,
                    m == s / pow2(u) as int,
            ;
            lemma_pow2_adds(e, u);
            lemma_pow2_adds(e + 1, u);
            assert(pow2(e) <= m < pow2(e + 1)) by (nonlinear_arith)
                requires
                    s == m * pow2(u),
                    0x80_0000 <= s < 0x100_0000,
                    pow2(e) * pow2(u) == 0x80_0000,
                    pow2(e + 1) * pow2(u) == 0x100_0000,
                    pow2(u) > 0,
            ;
            lemma_floor_log2_unique(m, e);
            assert(nearest_significand(m, e) == m * pow2(u));
        }
        assert(nearest_significand(m, e) == s);
        assert(single_of_whole(m) == (127 + e) * pow2(23) + s - pow2(23));
    }
}

/// Narrowing a widened single gives the single back, NaNs aside; and the
/// widening is finite, zero or one exactly when the single is.
pub proof fn lemma_widened_narrows_back(bits: u32)
    requires
        !single_is_nan(bits),
    ensures
        narrowed(widened(bits)) == bits,
        double_is_finite(widened(bits)) == single_is_finite(bits),
        double_is_zero(widened(bits)) == single_is_zero(bits),
        (widened(bits) == DOUBLE_ONE) == (bits == SINGLE_ONE),
{
    lemma_single_fields(bits);
    let e = single_exponent(bits);
    let f = single_fraction(bits);
    if e == 0 && f != 0 {
        lemma_subnormal_narrows_back(bits);
    } else if e != 0 && e != 255 {
        lemma_normal_narrows_back(bits);
    }
}

// ---------------------------------------------------------------------------
// Executable readings

/// `2^n`, for `n` up to 64.
pub fn power_of_two(n: u64) -> (p: u128)
    requires
        n <= 64,
    ensures
        p == pow2(n as nat),
{
    let mut p: u128 = 1;
    let mut i: u64 = 0;
    proof {
        lemma2_to64();
    }
    while i < n
        invariant
            i <= n <= 64,
            p == pow2(i as nat),
        decreases n - i,
    {
        proof {
            lemma_pow2_unfold((i + 1) as nat);
            lemma2_to64();
            if i + 1 < 64 {
                lemma_pow2_strictly_increases((i + 1) as nat, 64);
            }
        }
        p = p * 2;
        i = i + 1;
    }
    p
}

pub fn single_le_bits(a: u32, b: u32) -> (r: bool)
    ensures
        r == single_le(a, b),
{
    let a_nan = (a / SINGLE_EXPONENT_UNIT) % 256 == 255 && a % SINGLE_EXPONENT_UNIT != 0;
    let b_nan = (b / SINGLE_EXPONENT_UNIT) % 256 == 255 && b % SINGLE_EXPONENT_UNIT != 0;
    if a_nan || b_nan {
        return false;
    }
    let a_magnitude = a % SINGLE_SIGN;
    let b_magnitude = b % SINGLE_SIGN;
    match (a >= SINGLE_SIGN, b >= SINGLE_SIGN) {
        (false, false) => a_magnitude <= b_magnitude,
        (true, true) => b_magnitude <= a_magnitude,
        (true, false) => true,
        (false, true) => a_magnitude == 0 && b_magnitude == 0,
    }
}

pub fn single_is_finite_bits(bits: u32) -> (r: bool)
    ensures
        r == single_is_finite(bits),
{
    (bits / SINGLE_EXPONENT_UNIT) % 256 != 255
}

pub fn double_is_finite_bits(bits: u64) -> (r: bool)
    ensures
        r == double_is_finite(bits),
{
    (bits / DOUBLE_EXPONENT_UNIT) % 2048 != 2047
}

/// `a < b` between two singles: false when either is a NaN.
pub open spec fn single_lt(a: u32, b: u32) -> bool {
    !single_is_nan(a) && !single_is_nan(b) && single_rank(a) < single_rank(b)
}

pub fn single_lt_bits(a: u32, b: u32) -> (r: bool)
    ensures
        r == single_lt(a, b),
{
    single_le_bits(a, b) && !single_le_bits(b, a)
}

/// `value` held between `minimum` and `maximum`: the bound it passes, or
/// itself. A NaN passes neither bound and comes back as it went in.
pub open spec fn single_clamp(value: u32, minimum: u32, maximum: u32) -> u32 {
    if single_lt(value, minimum) {
        minimum
    } else if single_lt(maximum, value) {
        maximum
    } else {
        value
    }
}

pub fn clamp(value: u32, minimum: u32, maximum: u32) -> (held: u32)
    ensures
        held == single_clamp(value, minimum, maximum),
{
    if single_lt_bits(value, minimum) {
        minimum
    } else if single_lt_bits(maximum, value) {
        maximum
    } else {
        value
    }
}

/// `1e-20` as a single: below this a sample is flushed to silence.
pub const FLUSH_BELOW: u32 = 0x1E3C_E508;

/// A sample that is finite and louder than [`FLUSH_BELOW`] stays; a
/// denormal, a near-silence, an infinity or a NaN becomes silence. An
/// equaliser runs for hours at a time on a stage; one NaN in a filter state
/// would stay forever, and a denormal tail would cost more than the filter
/// itself.
pub open spec fn sanitised(value: u32) -> u32 {
    if single_is_finite(value) && single_magnitude(value) > FLUSH_BELOW {
        value
    } else {
        0
    }
}

pub fn sanitise(value: u32) -> (clean: u32)
    ensures
        clean == sanitised(value),
{
    if single_is_finite_bits(value) && value % SINGLE_SIGN > FLUSH_BELOW {
        value
    } else {
        0
    }
}

/// The natural number denoted by an encoding with the given fields; see
/// [`whole_value`].
#[verifier::rlimit(40)]
fn whole_value_of(negative: bool, exponent: u64, fraction: u64, fraction_bits: u64, bias: u64) -> (k: Option<u64>)
    requires
        fraction_bits <= 52,
        fraction_bits < bias <= 1023,
        fraction < pow2(fraction_bits as nat),
        exponent < 4096,
    ensures
        k is Some <==> whole_value(negative, exponent as int, fraction as int, fraction_bits as nat, bias as int) is Some,
        k matches Some(v) ==> whole_value(negative, exponent as int, fraction as int, fraction_bits as nat, bias as int) == Some(v as nat),
{
    if exponent == 0 && fraction == 0 {
        return Some(0);
    }
    if negative || exponent == 0 || exponent < bias || exponent >= bias + 64 {
        return None;
    }
    let unbiased = exponent - bias;
    let one = power_of_two(fraction_bits);
    proof {
        lemma2_to64();
        lemma_pow2_strictly_increases(fraction_bits as nat, 64);
    }
    let significand: u128 = one + fraction as u128;
    proof {
        lemma_pow2_unfold((fraction_bits + 1) as nat);
        assert(significand < pow2((fraction_bits + 1) as nat));
    }
    if unbiased >= fraction_bits {
        let scale = power_of_two(unbiased - fraction_bits);
        proof {
            let a = (fraction_bits + 1) as nat;
            let b = (unbiased - fraction_bits) as nat;
            lemma_pow2_adds(a, b);
            lemma_pow2_pos(b);
            lemma2_to64();
            if a + b < 64 {
                lemma_pow2_strictly_increases(a + b, 64);
            }
            assert(significand * scale < pow2(a) * pow2(b)) by (nonlinear_arith)
                requires
                    significand < pow2(a),
                    scale == pow2(b),
                    pow2(b) > 0,
            ;
        }
        let value = significand * scale;
        Some(value as u64)
    } else {
        let divisor = power_of_two(fraction_bits - unbiased);
        proof {
            lemma_pow2_pos((fraction_bits - unbiased) as nat);
        }
        if significand % divisor == 0 {
            proof {
                assert(significand / divisor <= significand) by (nonlinear_arith)
                    requires
                        divisor > 0,
                ;
                lemma2_to64();
                lemma_pow2_strictly_increases((fraction_bits + 1) as nat, 64);
            }
            Some((significand / divisor) as u64)
        } else {
            None
        }
    }
}

pub fn double_whole_bits(bits: u64) -> (k: Option<u64>)
    ensures
        k is Some <==> double_whole(bits) is Some,
        k matches Some(v) ==> double_whole(bits) == Some(v as nat),
{
    proof {
        lemma2_to64();
        vstd::arithmetic::power2::lemma2_to64_rest();
    }
    let exponent = (bits / DOUBLE_EXPONENT_UNIT) % 2048;
    let fraction = bits % DOUBLE_EXPONENT_UNIT;
    whole_value_of(bits >= DOUBLE_SIGN, exponent, fraction, 52, 1023)
}

/// The single nearest to `k`, ties to even; see [`single_of_whole`].
#[verifier::rlimit(40)]
pub fn single_from_whole(k: u64) -> (bits: u32)
    ensures
        bits == single_of_whole(k as nat),
{
    if k == 0 {
        return 0;
    }
    proof {
        lemma2_to64();
    }
    let mut p: u64 = 1;
    let mut e: u64 = 0;
    while p <= k / 2
        invariant
            1 <= p <= k,
            p == pow2(e as nat),
            e < 64,
        decreases k - p,
    {
        proof {
            lemma_pow2_unfold((e + 1) as nat);
            lemma2_to64();
            if e + 1 > 64 {
                lemma_pow2_strictly_increases(64, (e + 1) as nat);
            }
        }
        p = p * 2;
        e = e + 1;
    }
    proof {
        lemma_pow2_unfold((e + 1) as nat);
        lemma_floor_log2_unique(k as nat, e as nat);
        lemma_pow2_adds(e as nat, (23 - e) as nat);
    }
    let significand: u64 = if e <= 23 {
        let scale = power_of_two(23 - e) as u64;
        proof {
            lemma_pow2_adds(e as nat, (23 - e) as nat);
            lemma_pow2_adds((e + 1) as nat, (23 - e) as nat);
            lemma_pow2_unfold(24);
            assert(p * scale <= k * scale < 2 * p * scale) by (nonlinear_arith)
                requires
                    p <= k < 2 * p,
                    scale > 0,
            ;
        }
        k * scale
    } else {
        let drop = e - 23;
        let divisor = power_of_two(drop);
        proof {
            lemma_pow2_adds(23, drop as nat);
            lemma_pow2_unfold(drop as nat);
            lemma_pow2_pos(drop as nat);
            assert(0x80_0000 * divisor <= k < 0x100_0000 * divisor);
            assert(0x80_0000 <= (k as int) / (divisor as int) < 0x100_0000) by (nonlinear_arith)
                requires
                    0x80_0000 * divisor <= k < 0x100_0000 * divisor,
                    divisor > 0,
            ;
        }
        round_shift(k, drop)
    };
    assert(0x80_0000 <= significand <= 0x100_0000);
    ((127 + e) * 0x80_0000 + significand - 0x80_0000) as u32
}


/// `m / 2^drop` rounded to nearest, ties to even; see [`rounded_shift`].
pub fn round_shift(m: u64, drop: u64) -> (r: u64)
    requires
        1 <= drop <= 63,
    ensures
        r == rounded_shift(m as nat, drop as nat),
        (m as nat) / pow2(drop as nat) <= r <= (m as nat) / pow2(drop as nat) + 1,
{
    let divisor = power_of_two(drop);
    proof {
        lemma_pow2_pos(drop as nat);
        lemma_pow2_unfold(drop as nat);
        lemma2_to64();
        lemma_pow2_strictly_increases(drop as nat, 64);
        assert((m as int) / (divisor as int) <= m as int) by (nonlinear_arith)
            requires
                divisor > 0,
                m >= 0,
        ;
    }
    let kept = (m as u128 / divisor) as u64;
    let rest = (m as u128 % divisor) as u64;
    let half = (divisor / 2) as u64;
    if rest > half || (rest == half && kept % 2 == 1) {
        proof {
            lemma2_to64();
            assert(kept < 0xFFFF_FFFF_FFFF_FFFF) by (nonlinear_arith)
                requires
                    kept == (m as int) / (divisor as int),
                    divisor >= 2,
                    m <= 0xFFFF_FFFF_FFFF_FFFF,
            ;
        }
        kept + 1
    } else {
        kept
    }
}

/// Narrows a double to the nearest single; see [`narrowed`].
#[verifier::rlimit(40)]
pub fn narrow(bits: u64) -> (single: u32)
    ensures
        single == narrowed(bits),
{
    let sign: u32 = if bits >= DOUBLE_SIGN { SINGLE_SIGN } else { 0 };
    let e = (bits / DOUBLE_EXPONENT_UNIT) % 2048;
    let f = bits % DOUBLE_EXPONENT_UNIT;
    if e == 2047 {
        return if f == 0 { sign + 0x7F80_0000 } else { sign + 0x7FC0_0000 };
    }
    if e == 0 {
        return sign;
    }
    if e >= 1023 + 128 {
        return sign + 0x7F80_0000;
    }
    let m: u64 = DOUBLE_EXPONENT_UNIT + f;
    let (field, drop): (u32, u64) = if e >= 897 { ((e - 896) as u32, 29) } else { (1, 926 - e) };
    let q: u64 = if drop > 54 {
        proof {
            lemma2_to64();
            vstd::arithmetic::power2::lemma2_to64_rest();
            lemma_pow2_strictly_increases(53, drop as nat);
            lemma_pow2_strictly_increases(53, (drop - 1) as nat);
            lemma_pow2_unfold(drop as nat);
            assert((m as int) / pow2(drop as nat) as int == 0) by (nonlinear_arith)
                requires
                    0 <= m < pow2(drop as nat),
            ;
            assert((m as int) % pow2(drop as nat) as int == m) by (nonlinear_arith)
                requires
                    0 <= m < pow2(drop as nat),
            ;
        }
        0
    } else {
        proof {
            lemma2_to64();
            vstd::arithmetic::power2::lemma2_to64_rest();
            lemma_pow2_adds(drop as nat, 24);
            if drop + 24 > 53 {
                lemma_pow2_strictly_increases(53, (drop + 24) as nat);
            }
            lemma_pow2_pos(drop as nat);
            assert((m as int) / pow2(drop as nat) as int <= 0xFF_FFFF) by (nonlinear_arith)
                requires
                    0 <= m < 0x20_0000_0000_0000,
                    0x20_0000_0000_0000 <= pow2(drop as nat) * 0x100_0000,
                    pow2(drop as nat) > 0,
            ;
            if drop > 29 {
                if drop + 23 > 53 {
                    lemma_pow2_strictly_increases(53, (drop + 23) as nat);
                }
                lemma_pow2_adds(drop as nat, 23);
                assert((m as int) / pow2(drop as nat) as int <= 0x7F_FFFF) by (nonlinear_arith)
                    requires
                        0 <= m < 0x20_0000_0000_0000,
                        0x20_0000_0000_0000 <= pow2(drop as nat) * 0x80_0000,
                        pow2(drop as nat) > 0,
                ;
            }
        }
        round_shift(m, drop)
    };
    assert(q == rounded_shift(m as nat, drop as nat));
    proof {
        if drop == 29 {
            lemma_pow2_adds(29, 23);
            vstd::arithmetic::power2::lemma2_to64_rest();
            assert((m as int) / pow2(29) as int >= 0x80_0000) by (nonlinear_arith)
                requires
                    m >= 0x10_0000_0000_0000,
                    pow2(29) == 0x2000_0000,
            ;
        }
    }
    sign + (field * 0x80_0000 + q as u32 - 0x80_0000)
}


/// Widens a single to the double equal to it; see [`widened`].
#[verifier::rlimit(40)]
pub fn widen(bits: u32) -> (double: u64)
    ensures
        double == widened(bits),
{
    let sign: u64 = if bits >= SINGLE_SIGN { DOUBLE_SIGN } else { 0 };
    let e = ((bits / SINGLE_EXPONENT_UNIT) % 256) as u64;
    let f = (bits % SINGLE_EXPONENT_UNIT) as u64;
    if e == 255 {
        return sign + 0x7FF0_0000_0000_0000 + f * 0x2000_0000;
    }
    if e == 0 {
        if f == 0 {
            return sign;
        }
        proof {
            lemma2_to64();
        }
        let mut p: u64 = 1;
        let mut log: u64 = 0;
        while p <= f / 2
            invariant
                1 <= p <= f < 0x80_0000,
                p == pow2(log as nat),
                log < 23,
            decreases f - p,
        {
            proof {
                lemma_pow2_unfold((log + 1) as nat);
                lemma2_to64();
                if log + 1 >= 23 {
                    if log + 1 > 23 {
                        lemma_pow2_strictly_increases(23, (log + 1) as nat);
                    }
                }
            }
            p = p * 2;
            log = log + 1;
        }
        proof {
            lemma_pow2_unfold((log + 1) as nat);
            lemma_floor_log2_unique(f as nat, log as nat);
        }
        let scale = power_of_two(52 - log) as u64;
        proof {
            lemma_pow2_adds(log as nat, (52 - log) as nat);
            vstd::arithmetic::power2::lemma2_to64_rest();
            lemma_pow2_pos((52 - log) as nat);
            assert((f - p) * scale < 0x10_0000_0000_0000) by (nonlinear_arith)
                requires
                    0 <= f - p < p,
                    p * scale == 0x10_0000_0000_0000,
                    scale > 0,
            ;
        }
        return sign + (log + 874) * 0x10_0000_0000_0000 + (f - p) * scale;
    }
    sign + (e + 896) * 0x10_0000_0000_0000 + f * 0x2000_0000
}

} // verus!
