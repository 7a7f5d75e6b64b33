//! Fixed-point arithmetic: scalars are `i64` values counting millionths.
//!
//! Every executable operation here returns exactly the value of its spec
//! mirror. Sums and scaled products saturate at the `i64` bounds, so the
//! operations are total; within the ranges the simulation actually visits the
//! saturation never engages.

use vstd::prelude::*;

verus! {

/// One, in fixed-point millionths.
pub const FP_ONE: i64 = 1_000_000;

/// The half circle (pi), in fixed-point radians.
pub const PI_FX: i64 = 3_141_593;

/// The full circle (two pi), in fixed-point radians.
pub const TAU_FX: i64 = 2 * PI_FX;

/// A quarter circle (pi / 2), in fixed-point radians.
pub const HALF_PI_FX: i64 = 1_570_796;

/// Clamps a mathematical integer into the `i64` range.
pub open spec fn sat64(v: int) -> int {
    if v > i64::MAX as int {
        i64::MAX as int
    } else if v < i64::MIN as int {
        i64::MIN as int
    } else {
        v
    }
}

/// Division truncating toward zero (for a positive divisor).
pub open spec fn div_trunc(p: int, d: int) -> int {
    if p >= 0 {
        p / d
    } else {
        -((-p) / d)
    }
}

/// The saturating fixed-point sum.
pub open spec fn sat_add_spec(a: int, b: int) -> int {
    sat64(a + b)
}

/// The saturating fixed-point product: multiply, scale back down by
/// `FP_ONE` truncating toward zero, and clamp into `i64`.
pub open spec fn fx_mul_spec(a: int, b: int) -> int {
    sat64(div_trunc(a * b, FP_ONE as int))
}

/// Clamping into a closed interval.
pub open spec fn clamp_spec(v: int, lo: int, hi: int) -> int {
    if v < lo {
        lo
    } else if v > hi {
        hi
    } else {
        v
    }
}

/// Saturating sum of two fixed-point scalars.
pub fn sat_add(a: i64, b: i64) -> (r: i64)
    ensures
        r as int == sat_add_spec(a as int, b as int),
{
    let s: i128 = a as i128 + b as i128;
    if s > i64::MAX as i128 {
        i64::MAX
    } else if s < i64::MIN as i128 {
        i64::MIN
    } else {
        s as i64
    }
}

/// Saturating product of two fixed-point scalars, scaled back by `FP_ONE`.
pub fn fx_mul(a: i64, b: i64) -> (r: i64)
    ensures
        r as int == fx_mul_spec(a as int, b as int),
{
    let aa: i128 = a as i128;
    let bb: i128 = b as i128;
    let abs_a: u128 = if aa < 0 {
        (-aa) as u128
    } else {
        aa as u128
    };
    let abs_b: u128 = if bb < 0 {
        (-bb) as u128
    } else {
        bb as u128
    };
    assert(abs_a as int * abs_b as int <= 0x8000_0000_0000_0000i128 as int * 0x8000_0000_0000_0000i128 as int) by (nonlinear_arith)
        requires
            abs_a as int <= 0x8000_0000_0000_0000i128 as int,
            abs_b as int <= 0x8000_0000_0000_0000i128 as int,
    ;
    let prod: u128 = abs_a * abs_b;
    assert(prod as int == if (a as int * b as int) >= 0 {
        a as int * b as int
    } else {
        -(a as int * b as int)
    }) by (nonlinear_arith)
        requires
            prod as int == abs_a as int * abs_b as int,
            abs_a as int == if a < 0 { -(a as int) } else { a as int },
            abs_b as int == if b < 0 { -(b as int) } else { b as int },
    ;
    let q: u128 = prod / (FP_ONE as u128);
    let neg: bool = (a < 0) != (b < 0);
    proof {
        assert(((a < 0) == (b < 0)) ==> (a as int) * (b as int) >= 0) by (nonlinear_arith);
        assert(((a < 0) != (b < 0)) ==> (a as int) * (b as int) <= 0) by (nonlinear_arith);
        let p = a as int * b as int;
        let f = FP_ONE as int;
        if neg {
            assert(prod as int == -p);
            assert(div_trunc(p, f) == -(q as int));
        } else {
            assert(prod as int == p);
            assert(div_trunc(p, f) == q as int);
        }
    }
    if neg {
        if q >= 0x8000_0000_0000_0000u128 {
            i64::MIN
        } else {
            -(q as i64)
        }
    } else {
        if q > i64::MAX as u128 {
            i64::MAX
        } else {
            q as i64
        }
    }
}

/// Wraps a scalar that overshoots the interval `[0, m)` by less than one
/// whole period back into the interval; the result is the overshooting value
/// modulo `m`.
pub fn wrap(s: i64, m: i64) -> (r: i64)
    requires
        0 < m,
        -(m as int) <= s as int,
        (s as int) < 2 * (m as int),
    ensures
        0 <= r < m,
        r as int == (s as int) % (m as int),
{
    proof {
        if 0 <= s < m {
            vstd::arithmetic::div_mod::lemma_small_mod(s as nat, m as nat);
        } else if s >= m {
            vstd::arithmetic::div_mod::lemma_mod_add_multiples_vanish(s as int - m as int, m as int);
            vstd::arithmetic::div_mod::lemma_small_mod((s - m) as nat, m as nat);
        } else {
            vstd::arithmetic::div_mod::lemma_mod_add_multiples_vanish(s as int, m as int);
            vstd::arithmetic::div_mod::lemma_small_mod((s + m) as nat, m as nat);
        }
    }
    if s < 0 {
        s + m
    } else if s >= m {
        s - m
    } else {
        s
    }
}

/// The integer square root: the greatest `r` with `r * r <= n`.
pub fn isqrt(n: u64) -> (r: u64)
    ensures
        r * r <= n,
        n < (r + 1) * (r + 1),
{
    if n == 0 {
        return 0;
    }
    let mut lo: u64 = 0;
    let mut hi: u64 = 0x1_0000_0000;
    assert((n as int) < (0x1_0000_0000u64 as int) * (0x1_0000_0000u64 as int)) by (nonlinear_arith)
        requires
            n <= u64::MAX,
    ;
    while lo + 1 < hi
        invariant
            lo < hi <= 0x1_0000_0000u64,
            lo * lo <= n,
            (n as int) < (hi as int) * (hi as int),
        decreases hi - lo,
    {
        let mid: u64 = lo + (hi - lo) / 2;
        assert((mid as int) * (mid as int) < (0x1_0000_0000u64 as int) * (0x1_0000_0000u64 as int)) by (nonlinear_arith)
            requires
                mid < 0x1_0000_0000u64,
        ;
        if mid * mid <= n {
            lo = mid;
        } else {
            hi = mid;
        }
    }
    lo
}

/// Rational approximation of the sine on the first half circle, scaled by
/// `FP_ONE`; for `a` in `[0, PI_FX]` the value is
/// `16 a (PI_FX - a) FP_ONE / (5 PI_FX^2 - 4 a (PI_FX - a))`.
pub open spec fn sin_half_spec(a: int) -> int {
    (16 * a * (PI_FX as int - a) * (FP_ONE as int)) / (5 * (PI_FX as int) * (PI_FX as int)
        - 4 * a * (PI_FX as int - a))
}

/// The fixed-point sine over a full circle: the first-half approximation,
/// negated on the second half.
pub open spec fn sin_fx_spec(a: int) -> int {
    if a < PI_FX as int {
        sin_half_spec(a)
    } else {
        -sin_half_spec(a - PI_FX as int)
    }
}

/// The fixed-point cosine: the sine a quarter circle ahead.
pub open spec fn cos_fx_spec(a: int) -> int {
    if a + HALF_PI_FX as int >= TAU_FX as int {
        sin_fx_spec(a + HALF_PI_FX as int - TAU_FX as int)
    } else {
        sin_fx_spec(a + HALF_PI_FX as int)
    }
}

proof fn lemma_sin_half_spec_bounds(a: int)
    requires
        0 <= a <= PI_FX as int,
    ensures
        0 <= sin_half_spec(a) <= FP_ONE as int,
{
    let p = PI_FX as int;
    let f = FP_ONE as int;
    let t = a * (p - a);
    let num = 16 * a * (p - a) * f;
    let den = 5 * p * p - 4 * a * (p - a);
    assert(0 <= t && 4 * t <= p * p) by (nonlinear_arith)
        requires
            0 <= a <= p,
            t == a * (p - a),
            p == PI_FX as int,
    ;
    assert(num == 16 * t * f && den == 5 * p * p - 4 * t) by (nonlinear_arith)
        requires
            t == a * (p - a),
            num == 16 * a * (p - a) * f,
            den == 5 * p * p - 4 * a * (p - a),
    ;
    assert(num <= f * den) by (nonlinear_arith)
        requires
            num == 16 * t * f,
            den == 5 * p * p - 4 * t,
            4 * t <= p * p,
            0 <= t,
            p == PI_FX as int,
            f == FP_ONE as int,
    ;
    vstd::arithmetic::div_mod::lemma_div_basics_4(num, den);
    lemma_div_le(num, f, den);
}

/// The sine approximation stays within `[-FP_ONE, FP_ONE]`.
pub proof fn lemma_sin_fx_spec_bounds(a: int)
    requires
        0 <= a < TAU_FX as int,
    ensures
        -(FP_ONE as int) <= sin_fx_spec(a) <= FP_ONE as int,
{
    if a < PI_FX as int {
        lemma_sin_half_spec_bounds(a);
    } else {
        lemma_sin_half_spec_bounds(a - PI_FX as int);
    }
}

/// The cosine approximation stays within `[-FP_ONE, FP_ONE]`.
pub proof fn lemma_cos_fx_spec_bounds(a: int)
    requires
        0 <= a < TAU_FX as int,
    ensures
        -(FP_ONE as int) <= cos_fx_spec(a) <= FP_ONE as int,
{
    if a + HALF_PI_FX as int >= TAU_FX as int {
        lemma_sin_fx_spec_bounds(a + HALF_PI_FX as int - TAU_FX as int);
    } else {
        lemma_sin_fx_spec_bounds(a + HALF_PI_FX as int);
    }
}

fn sin_half(a: i64) -> (r: i64)
    requires
        0 <= a <= PI_FX,
    ensures
        r as int == sin_half_spec(a as int),
        0 <= r <= FP_ONE,
{
    let au: u128 = a as u128;
    let p: u128 = PI_FX as u128;
    assert((au as int) * (p as int - au as int) <= (PI_FX as int) * (PI_FX as int)) by (nonlinear_arith)
        requires
            0 <= au as int,
            au as int <= PI_FX as int,
            p as int == PI_FX as int,
    ;
    let t: u128 = au * (p - au);
    assert(4 * (t as int) <= (PI_FX as int) * (PI_FX as int)) by (nonlinear_arith)
        requires
            t as int == (au as int) * (PI_FX as int - au as int),
            0 <= au as int,
            au as int <= PI_FX as int,
    ;
    let num: u128 = 16u128 * t * (FP_ONE as u128);
    let den: u128 = 5u128 * p * p - 4u128 * t;
    let r: u128 = num / den;
    proof {
        assert(num as int == 16 * (a as int) * (PI_FX as int - a as int) * (FP_ONE as int)) by (nonlinear_arith)
            requires
                num as int == 16 * (t as int) * (FP_ONE as int),
                t as int == (a as int) * (PI_FX as int - a as int),
        ;
        assert(den as int == 5 * (PI_FX as int) * (PI_FX as int) - 4 * (a as int) * (PI_FX as int
            - a as int)) by (nonlinear_arith)
            requires
                den as int == 5 * (PI_FX as int) * (PI_FX as int) - 4 * (t as int),
                t as int == (a as int) * (PI_FX as int - a as int),
        ;
        assert(num as int <= (den as int) * (FP_ONE as int)) by (nonlinear_arith)
            requires
                num as int == 16 * (t as int) * (FP_ONE as int),
                den as int == 5 * (PI_FX as int) * (PI_FX as int) - 4 * (t as int),
                4 * (t as int) <= (PI_FX as int) * (PI_FX as int),
                0 <= t as int,
        ;
        assert(r as int <= FP_ONE as int) by (nonlinear_arith)
            requires
                r as int == (num as int) / (den as int),
                num as int <= (den as int) * (FP_ONE as int),
                den as int > 0,
        ;
    }
    r as i64
}

/// The fixed-point sine of an angle in `[0, TAU_FX)`; the value lies in
/// `[-FP_ONE, FP_ONE]`.
pub fn sin_fx(a: i64) -> (r: i64)
    requires
        0 <= a < TAU_FX,
    ensures
        r as int == sin_fx_spec(a as int),
        -FP_ONE <= r <= FP_ONE,
{
    if a < PI_FX {
        sin_half(a)
    } else {
        let s = sin_half(a - PI_FX);
        -s
    }
}

/// The fixed-point cosine of an angle in `[0, TAU_FX)`; the value lies in
/// `[-FP_ONE, FP_ONE]`.
pub fn cos_fx(a: i64) -> (r: i64)
    requires
        0 <= a < TAU_FX,
    ensures
        r as int == cos_fx_spec(a as int),
        -FP_ONE <= r <= FP_ONE,
{
    let b: i64 = a + HALF_PI_FX;
    if b >= TAU_FX {
        sin_fx(b - TAU_FX)
    } else {
        sin_fx(b)
    }
}

/// A nonnegative value at most `bound * d` divides by `d` to at most
/// `bound`.
pub proof fn lemma_div_le(num: int, bound: int, d: int)
    requires
        0 < d,
        0 <= num,
        0 <= bound,
        num <= bound * d,
    ensures
        num / d <= bound,
{
    vstd::arithmetic::div_mod::lemma_div_is_ordered(num, bound * d, d);
    vstd::arithmetic::div_mod::lemma_div_multiples_vanish(bound, d);
    assert(bound * d == d * bound) by (nonlinear_arith);
}

/// Scaling by a factor of magnitude at most `FP_ONE` does not grow a
/// scalar's magnitude.
pub proof fn lemma_fx_mul_bounded(a: int, b: int, m: int)
    requires
        0 <= m,
        -m <= a <= m,
        -(FP_ONE as int) <= b <= FP_ONE as int,
    ensures
        -m <= fx_mul_spec(a, b) <= m,
{
    let p = a * b;
    assert(-(m * (FP_ONE as int)) <= a * b <= m * (FP_ONE as int)) by (nonlinear_arith)
        requires
            -m <= a <= m,
            -(FP_ONE as int) <= b <= FP_ONE as int,
            0 <= m,
    ;
    if p >= 0 {
        lemma_div_le(p, m, FP_ONE as int);
    } else {
        lemma_div_le(-p, m, FP_ONE as int);
    }
}

/// Clamps a scalar into `[lo, hi]`.
pub fn clamp(v: i64, lo: i64, hi: i64) -> (r: i64)
    requires
        lo <= hi,
    ensures
        r as int == clamp_spec(v as int, lo as int, hi as int),
{
    if v < lo {
        lo
    } else if v > hi {
        hi
    } else {
        v
    }
}

} // verus!
