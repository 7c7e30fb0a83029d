//! Single-precision numbers, read through their IEEE 754 bit patterns.
//!
//! A pattern is a `u32`: the top bit is the sign, the next eight bits the
//! exponent, the low twenty-three the fraction. Patterns whose exponent is all
//! ones and whose fraction is not zero are NaN; the two with a fraction of
//! zero are the infinities; every other pattern is a finite number, a whole
//! multiple of two to the power of -149. Everything here is integer
//! arithmetic on patterns; no pattern is ever turned into a number.

use vstd::prelude::*;
use vstd::arithmetic::power2::{
    lemma2_to64, lemma_pow2_pos, lemma_pow2_strictly_increases, lemma_pow2_unfold, pow2,
};

verus! {

/// The pattern that holds the sign bit alone (negative zero).
pub const SIGN_BIT: u32 = 0x8000_0000;

/// The pattern of positive infinity, the largest magnitude that is not a NaN.
pub const INFINITY: u32 = 0x7F80_0000;

/// Two to the power of 23, the number of fractions under one exponent.
pub const FRACTIONS: u32 = 0x80_0000;

/// The pattern without its sign bit.
pub open spec fn magnitude(bits: u32) -> int {
    if bits >= SIGN_BIT {
        bits - SIGN_BIT
    } else {
        bits as int
    }
}

/// Whether the pattern is a NaN.
pub open spec fn nan(bits: u32) -> bool {
    magnitude(bits) > INFINITY
}

/// Whether the pattern is a finite number.
pub open spec fn finite(bits: u32) -> bool {
    magnitude(bits) < INFINITY
}

/// Whether the pattern is positive or negative zero.
pub open spec fn zero(bits: u32) -> bool {
    magnitude(bits) == 0
}

/// How many of the smallest steps of the format make up one: two to the
/// power of 149.
pub open spec fn unit() -> int {
    pow2(149) as int
}

/// The size of the number with magnitude `m`, in steps of 1/`unit()`. With
/// an exponent field of zero the fraction counts steps directly; above that,
/// the fraction extends a leading one and every exponent doubles the result.
pub open spec fn size(m: int) -> int {
    let exponent = m / (FRACTIONS as int);
    let fraction = m % (FRACTIONS as int);
    if exponent == 0 {
        fraction
    } else {
        (FRACTIONS + fraction) * pow2((exponent - 1) as nat)
    }
}

/// The finite number that the pattern holds, as the numerator of a fraction
/// whose denominator is `unit()`.
pub open spec fn numerator(bits: u32) -> int {
    if bits >= SIGN_BIT {
        -size(magnitude(bits))
    } else {
        size(magnitude(bits))
    }
}

/// The place of a pattern in the order of the numbers: the magnitude, taken
/// negative under a sign bit. Both zeros have rank `0`, the infinities
/// stand at the two ends, and between finite patterns the rank grows as the
/// number does (`lemma_rank_follows_number`).
pub open spec fn rank(bits: u32) -> int {
    if bits >= SIGN_BIT {
        -magnitude(bits)
    } else {
        magnitude(bits)
    }
}

/// The comparison `a < b` of the two numbers; false when either is a NaN.
pub open spec fn less(a: u32, b: u32) -> bool {
    !nan(a) && !nan(b) && rank(a) < rank(b)
}

/// The comparison `lo <= hi` of the two numbers; false when either is a NaN.
pub open spec fn ordered(lo: u32, hi: u32) -> bool {
    !nan(lo) && !nan(hi) && rank(lo) <= rank(hi)
}

/// Whether `x` is a number in the closed interval from `lo` to `hi`.
pub open spec fn within(x: u32, lo: u32, hi: u32) -> bool {
    ordered(lo, x) && ordered(x, hi)
}

/// Whether the pattern is a finite number between the whole numbers `lo`
/// and `hi`, both included.
pub open spec fn between(bits: u32, lo: int, hi: int) -> bool {
    finite(bits) && lo * unit() <= numerator(bits) <= hi * unit()
}

/// `x` restricted to the interval from `lo` to `hi`: `lo` when `x` is below
/// it, `hi` when `x` is above it, and otherwise `x` itself, NaN included.
pub open spec fn clamped(x: u32, lo: u32, hi: u32) -> u32 {
    if less(x, lo) {
        lo
    } else if less(hi, x) {
        hi
    } else {
        x
    }
}

fn magnitude_of(bits: u32) -> (m: u32)
    ensures
        m == magnitude(bits),
{
    if bits >= SIGN_BIT {
        bits - SIGN_BIT
    } else {
        bits
    }
}

fn rank_of(bits: u32) -> (r: i64)
    ensures
        r == rank(bits),
{
    let m: i64 = magnitude_of(bits) as i64;
    if bits >= SIGN_BIT {
        -m
    } else {
        m
    }
}

/// Tells whether the pattern is a NaN.
pub fn is_nan(bits: u32) -> (r: bool)
    ensures
        r == nan(bits),
{
    magnitude_of(bits) > INFINITY
}

/// Tells whether the pattern is a zero of either sign, as `x == 0.0` does.
pub fn is_zero(bits: u32) -> (r: bool)
    ensures
        r == zero(bits),
{
    magnitude_of(bits) == 0
}

/// Compares two patterns as `a < b` compares the numbers.
pub fn lt(a: u32, b: u32) -> (r: bool)
    ensures
        r == less(a, b),
{
    !is_nan(a) && !is_nan(b) && rank_of(a) < rank_of(b)
}

/// Restricts `x` to the interval from `lo` to `hi`. A NaN is returned as it
/// came. The bounds must be numbers with `lo <= hi`.
pub fn clamp(x: u32, lo: u32, hi: u32) -> (r: u32)
    requires
        ordered(lo, hi),
    ensures
        r == clamped(x, lo, hi),
        !nan(x) ==> within(r, lo, hi),
        nan(x) ==> r == x,
{
    if lt(x, lo) {
        lo
    } else if lt(hi, x) {
        hi
    } else {
        x
    }
}

/// A magnitude with exponent field `e` has a size below the smallest size
/// of the next exponent, which is `FRACTIONS * pow2(e)`.
proof fn lemma_size_below_next_exponent(m: int)
    requires
        0 <= m,
    ensures
        0 <= size(m) < FRACTIONS * pow2((m / (FRACTIONS as int)) as nat),
{
    let e = m / (FRACTIONS as int);
    let f = m % (FRACTIONS as int);
    if e == 0 {
        lemma2_to64();
    } else {
        let half = pow2((e - 1) as nat) as int;
        lemma_pow2_pos((e - 1) as nat);
        lemma_pow2_unfold(e as nat);
        assert(0 <= (FRACTIONS + f) * half < FRACTIONS * (2 * half)) by (nonlinear_arith)
            requires
                0 <= f < FRACTIONS,
                0 < half,
        ;
    }
}

/// A magnitude with exponent field `e >= 1` has a size of at least
/// `FRACTIONS * pow2(e - 1)`.
proof fn lemma_size_from_exponent(m: int)
    requires
        FRACTIONS <= m,
    ensures
        FRACTIONS * pow2((m / (FRACTIONS as int) - 1) as nat) <= size(m),
{
    let e = m / (FRACTIONS as int);
    let f = m % (FRACTIONS as int);
    let half = pow2((e - 1) as nat) as int;
    lemma_pow2_pos((e - 1) as nat);
    assert(FRACTIONS * half <= (FRACTIONS + f) * half) by (nonlinear_arith)
        requires
            0 <= f,
            0 < half,
    ;
}

/// The size grows strictly with the magnitude.
proof fn lemma_size_increases(m1: int, m2: int)
    requires
        0 <= m1 < m2,
    ensures
        0 <= size(m1) < size(m2),
{
    let e1 = m1 / (FRACTIONS as int);
    let f1 = m1 % (FRACTIONS as int);
    let e2 = m2 / (FRACTIONS as int);
    let f2 = m2 % (FRACTIONS as int);
    lemma_size_below_next_exponent(m1);
    if e1 == e2 {
        if e1 > 0 {
            let half = pow2((e1 - 1) as nat) as int;
            lemma_pow2_pos((e1 - 1) as nat);
            assert((FRACTIONS + f1) * half < (FRACTIONS + f2) * half) by (nonlinear_arith)
                requires
                    f1 < f2,
                    0 < half,
            ;
        }
    } else {
        lemma_size_from_exponent(m2);
        if e1 < e2 - 1 {
            lemma_pow2_strictly_increases(e1 as nat, (e2 - 1) as nat);
        }
        let low = pow2(e1 as nat) as int;
        let high = pow2((e2 - 1) as nat) as int;
        assert(FRACTIONS * low <= FRACTIONS * high) by (nonlinear_arith)
            requires
                low <= high,
        ;
    }
}

/// Between finite patterns the rank orders as the numbers do: one rank is
/// below another exactly when its number is smaller, and two ranks are equal
/// exactly when the numbers are.
pub proof fn lemma_rank_follows_number(a: u32, b: u32)
    requires
        finite(a),
        finite(b),
    ensures
        rank(a) < rank(b) <==> numerator(a) < numerator(b),
        rank(a) == rank(b) <==> numerator(a) == numerator(b),
{
    let ma = magnitude(a);
    let mb = magnitude(b);
    if ma < mb {
        lemma_size_increases(ma, mb);
    } else if mb < ma {
        lemma_size_increases(mb, ma);
    }
    if 0 < ma {
        lemma_size_increases(0, ma);
    }
    if 0 < mb {
        lemma_size_increases(0, mb);
    }
}

/// The two zeros, and no other finite pattern, hold the number zero.
pub proof fn lemma_zero_holds_zero(bits: u32)
    requires
        finite(bits),
    ensures
        zero(bits) <==> numerator(bits) == 0,
{
    if 0 < magnitude(bits) {
        lemma_size_increases(0, magnitude(bits));
    }
}

/// A pattern within finite bounds is finite, and its number lies between
/// the numbers of the bounds.
pub proof fn lemma_within_finite_bounds(x: u32, lo: u32, hi: u32)
    requires
        within(x, lo, hi),
        finite(lo),
        finite(hi),
    ensures
        finite(x),
        numerator(lo) <= numerator(x) <= numerator(hi),
{
    lemma_rank_follows_number(lo, x);
    lemma_rank_follows_number(x, hi);
}

} // verus!
