//! Saturating fixed-point arithmetic on `i64` with six decimal places.
//!
//! All filter state lives in these units: the value `v` stands for the
//! real number `v / 1_000_000`. Every operation is total: results are
//! clamped to `[-i64::MAX, i64::MAX]` and quotients truncate toward
//! zero, and each executable operation returns exactly the value of its
//! spec-level mirror, so the numerical behaviour of the whole filter
//! suite is pinned down bit for bit.

use vstd::prelude::*;

verus! {

/// Number of fixed-point units per whole unit.
pub const FP_ONE: i64 = 1_000_000;

/// Greatest magnitude a fixed-point value can take.
pub open spec fn fp_limit() -> int {
    i64::MAX as int
}

/// Clamp to the symmetric representable range.
pub open spec fn sat64(x: int) -> int {
    if x > fp_limit() {
        fp_limit()
    } else if x < -fp_limit() {
        -fp_limit()
    } else {
        x
    }
}

/// Magnitude of an integer.
pub open spec fn mag_spec(a: int) -> int {
    if a >= 0 {
        a
    } else {
        -a
    }
}

/// Division truncating toward zero (for positive divisors).
pub open spec fn tdiv(a: int, b: int) -> int {
    if a >= 0 {
        a / b
    } else {
        -((-a) / b)
    }
}

/// Saturating sum.
pub open spec fn fp_add_spec(a: int, b: int) -> int {
    sat64(a + b)
}

/// Saturating difference.
pub open spec fn fp_sub_spec(a: int, b: int) -> int {
    sat64(a - b)
}

/// Saturating fixed-point product: `a * b` rescaled by one unit,
/// truncating toward zero.
pub open spec fn fp_mul_spec(a: int, b: int) -> int {
    sat64(tdiv(a * b, FP_ONE as int))
}

/// Saturating fixed-point quotient for a positive divisor.
pub open spec fn fp_div_spec(a: int, b: int) -> int {
    sat64(tdiv(a * (FP_ONE as int), b))
}

/// Exact midpoint, truncating toward zero; symmetric in its arguments.
pub open spec fn fp_avg_spec(a: int, b: int) -> int {
    tdiv(a + b, 2)
}

/// `i64`-valued mirrors of the operations. Every saturated result lies
/// in `[-i64::MAX, i64::MAX]`, so the conversion is exact; these forms
/// let whole vectors and matrices be described element by element.
pub open spec fn fadd64(a: i64, b: i64) -> i64 {
    fp_add_spec(a as int, b as int) as i64
}

pub open spec fn fsub64(a: i64, b: i64) -> i64 {
    fp_sub_spec(a as int, b as int) as i64
}

pub open spec fn fmul64(a: i64, b: i64) -> i64 {
    fp_mul_spec(a as int, b as int) as i64
}

pub open spec fn fdiv64(a: i64, b: i64) -> i64 {
    fp_div_spec(a as int, b as int) as i64
}

pub open spec fn favg64(a: i64, b: i64) -> i64 {
    fp_avg_spec(a as int, b as int) as i64
}

fn mag(a: i64) -> (r: u64)
    ensures
        r == mag_spec(a as int),
{
    if a >= 0 {
        a as u64
    } else if a == i64::MIN {
        9_223_372_036_854_775_808u64
    } else {
        (-a) as u64
    }
}

/// Rebuild a signed value from a magnitude, clamping to the symmetric
/// range.
fn apply_sign(m: u128, negative: bool) -> (r: i64)
    ensures
        r as int == if negative {
            sat64(-(m as int))
        } else {
            sat64(m as int)
        },
{
    if m > i64::MAX as u128 {
        if negative {
            -i64::MAX
        } else {
            i64::MAX
        }
    } else {
        if negative {
            -(m as i64)
        } else {
            m as i64
        }
    }
}

/// Saturating addition.
pub fn fp_add(a: i64, b: i64) -> (r: i64)
    ensures
        r as int == fp_add_spec(a as int, b as int),
        r == fadd64(a, b),
{
    match a.checked_add(b) {
        Some(v) => {
            if v == i64::MIN {
                -i64::MAX
            } else {
                v
            }
        },
        None => {
            if a > 0 {
                i64::MAX
            } else {
                -i64::MAX
            }
        },
    }
}

/// Saturating subtraction.
pub fn fp_sub(a: i64, b: i64) -> (r: i64)
    ensures
        r as int == fp_sub_spec(a as int, b as int),
        r == fsub64(a, b),
{
    match a.checked_sub(b) {
        Some(v) => {
            if v == i64::MIN {
                -i64::MAX
            } else {
                v
            }
        },
        None => {
            if a >= 0 {
                i64::MAX
            } else {
                -i64::MAX
            }
        },
    }
}

proof fn lemma_mag_product(a: int, b: int)
    by (nonlinear_arith)
    ensures
        mag_spec(a) * mag_spec(b) == mag_spec(a * b),
        (a * b >= 0) == (a >= 0 && b >= 0 || a <= 0 && b <= 0),
{
}

proof fn lemma_div_mono(x: int, y: int, d: int)
    by (nonlinear_arith)
    requires
        0 <= x <= y,
        d > 0,
    ensures
        x / d <= y / d,
        x / d >= 0,
{
}

/// Saturating fixed-point multiplication.
pub fn fp_mul(a: i64, b: i64) -> (r: i64)
    ensures
        r as int == fp_mul_spec(a as int, b as int),
        r == fmul64(a, b),
{
    let negative = (a < 0) != (b < 0) && a != 0 && b != 0;
    let ma: u128 = mag(a) as u128;
    let mb: u128 = mag(b) as u128;
    proof {
        assert(ma * mb <= 0x8000_0000_0000_0000u128 * 0x8000_0000_0000_0000u128)
            by (nonlinear_arith)
            requires
                ma <= 0x8000_0000_0000_0000u128,
                mb <= 0x8000_0000_0000_0000u128,
        ;
    }
    let m: u128 = ma * mb / (FP_ONE as u128);
    proof {
        lemma_mag_product(a as int, b as int);
        lemma_div_mono(0, mag_spec((a as int) * (b as int)), FP_ONE as int);
        let p = (a as int) * (b as int);
        if p >= 0 {
            assert(tdiv(p, FP_ONE as int) == mag_spec(p) / (FP_ONE as int));
        } else {
            assert(tdiv(p, FP_ONE as int) == -(mag_spec(p) / (FP_ONE as int)));
        }
    }
    apply_sign(m, negative)
}

/// Saturating fixed-point division by a positive divisor.
pub fn fp_div(a: i64, b: i64) -> (r: i64)
    requires
        b > 0,
    ensures
        r as int == fp_div_spec(a as int, b as int),
        r == fdiv64(a, b),
{
    let negative = a < 0;
    let m: u128 = (mag(a) as u128) * (FP_ONE as u128) / (mag(b) as u128);
    proof {
        lemma_mag_product(a as int, FP_ONE as int);
        lemma_div_scaled(a as int, b as int);
    }
    apply_sign(m, negative)
}

proof fn lemma_div_scaled(a: int, b: int)
    by (nonlinear_arith)
    requires
        b > 0,
    ensures
        tdiv(a * 1_000_000, b) == if a >= 0 {
            (a * 1_000_000) / b
        } else {
            -((mag_spec(a) * 1_000_000) / b)
        },
        a >= 0 ==> (a * 1_000_000) / b >= 0,
        mag_spec(a * 1_000_000) == mag_spec(a) * 1_000_000,
{
}

/// Midpoint of two values, truncating toward zero.
pub fn fp_avg(a: i64, b: i64) -> (r: i64)
    ensures
        r as int == fp_avg_spec(a as int, b as int),
        r == favg64(a, b),
{
    let s: i128 = a as i128 + b as i128;
    let negative = s < 0;
    let m: u128 = if s >= 0 {
        (s as u128) / 2
    } else {
        ((-s) as u128) / 2
    };
    proof {
        let t = (a as int) + (b as int);
        if t >= 0 {
            assert(tdiv(t, 2) == t / 2);
            assert(t / 2 <= t) by (nonlinear_arith)
                requires t >= 0;
        } else {
            assert(tdiv(t, 2) == -((-t) / 2));
            assert((-t) / 2 <= (-t)) by (nonlinear_arith)
                requires -t >= 0;
        }
    }
    if negative {
        if m >= 9_223_372_036_854_775_808u128 {
            i64::MIN
        } else {
            -(m as i64)
        }
    } else {
        m as i64
    }
}

/// Plain truncating division by a positive divisor (no rescaling).
pub open spec fn tdiv64(a: i64, b: i64) -> i64 {
    tdiv(a as int, b as int) as i64
}

/// Truncating integer division, e.g. for window averages.
pub fn div_trunc(a: i64, b: i64) -> (r: i64)
    requires
        b > 0,
    ensures
        r == tdiv64(a, b),
{
    let m: u128 = (mag(a) as u128) / (mag(b) as u128);
    proof {
        let aa = a as int;
        let bb = b as int;
        if aa >= 0 {
            assert(aa / bb <= aa && aa / bb >= 0) by (nonlinear_arith)
                requires aa >= 0, bb > 0;
        } else {
            assert((-aa) / bb <= (-aa) && (-aa) / bb >= 0) by (nonlinear_arith)
                requires -aa >= 0, bb > 0;
        }
    }
    if a < 0 {
        if m >= 9_223_372_036_854_775_808u128 {
            i64::MIN
        } else {
            -(m as i64)
        }
    } else {
        m as i64
    }
}

/// Negation, clamped to the symmetric range.
pub open spec fn fneg64(a: i64) -> i64 {
    sat64(-(a as int)) as i64
}

pub fn fp_neg(a: i64) -> (r: i64)
    ensures
        r == fneg64(a),
{
    if a == i64::MIN {
        i64::MAX
    } else {
        -a
    }
}

/// Normalisation for the logarithm: double the mantissa until it
/// reaches one unit, counting halvings in `e`.
pub open spec fn ln_norm_up(m: int, e: int) -> (int, int)
    decreases e + 80,
{
    if m >= 1_000_000 || e <= -80 {
        (m, e)
    } else {
        ln_norm_up(2 * m, e - 1)
    }
}

/// Halve the mantissa until it is below two units, counting doublings.
pub open spec fn ln_norm_down(m: int, e: int) -> (int, int)
    decreases 80 - e,
{
    if m < 2_000_000 || e >= 80 {
        (m, e)
    } else {
        ln_norm_down(tdiv(m, 2), e + 1)
    }
}

/// Series part of the logarithm for a mantissa in `[1, 2)`:
/// `ln m = 2 (t + t³/3 + t⁵/5 + t⁷/7)` with `t = (m - 1) / (m + 1)`.
pub open spec fn ln_series(m: i64) -> i64 {
    let t = fdiv64(fsub64(m, 1_000_000i64), fadd64(m, 1_000_000i64));
    let t2 = fmul64(t, t);
    let t3 = fmul64(t, t2);
    let t5 = fmul64(t3, t2);
    let t7 = fmul64(t5, t2);
    let s = fadd64(fadd64(fadd64(t, tdiv64(t3, 3)), tdiv64(t5, 5)), tdiv64(t7, 7));
    fadd64(s, s)
}

/// Fixed-point natural logarithm of a positive value:
/// the mantissa's series plus the exponent times `ln 2`.
pub open spec fn fp_ln_spec(x: i64) -> i64 {
    let norm = ln_norm_down(ln_norm_up(x as int, 0).0, ln_norm_up(x as int, 0).1);
    fadd64(ln_series(norm.0 as i64), (norm.1 * 693_147) as i64)
}

/// Natural logarithm in fixed point.
pub fn fp_ln(x: i64) -> (r: i64)
    requires
        x > 0,
    ensures
        r == fp_ln_spec(x),
{
    let mut m: i64 = x;
    let mut e: i64 = 0;
    while m < 1_000_000 && e > -80
        invariant
            m >= 1,
            -80 <= e <= 0,
            ln_norm_up(x as int, 0) == ln_norm_up(m as int, e as int),
        decreases e + 80,
    {
        m = m * 2;
        e = e - 1;
    }
    proof {
        assert(ln_norm_up(m as int, e as int) == (m as int, e as int));
    }
    while m >= 2_000_000 && e < 80
        invariant
            m >= 1,
            -80 <= e <= 80,
            ln_norm_down(ln_norm_up(x as int, 0).0, ln_norm_up(x as int, 0).1)
                == ln_norm_down(m as int, e as int),
        decreases 80 - e,
    {
        m = div_trunc(m, 2);
        e = e + 1;
    }
    proof {
        assert(ln_norm_down(m as int, e as int) == (m as int, e as int));
    }
    let t = fp_div(fp_sub(m, 1_000_000), fp_add(m, 1_000_000));
    let t2 = fp_mul(t, t);
    let t3 = fp_mul(t, t2);
    let t5 = fp_mul(t3, t2);
    let t7 = fp_mul(t5, t2);
    let s = fp_add(fp_add(fp_add(t, div_trunc(t3, 3)), div_trunc(t5, 5)), div_trunc(t7, 7));
    let series = fp_add(s, s);
    fp_add(series, e * 693_147)
}

/// The fixed-point square root as a value: the unique non-negative
/// `r` with `r² ≤ x` and `(r+1)² > x` in raw units.
pub open spec fn sqrt64(x: i64) -> int {
    choose|r: int|
        0 <= r && #[trigger] (r * r) <= (x as int) * 1_000_000
            && (r + 1) * (r + 1) > (x as int) * 1_000_000
}

proof fn lemma_sqrt_unique(x: i64, r1: int, r2: int)
    by (nonlinear_arith)
    requires
        0 <= r1,
        0 <= r2,
        r1 * r1 <= (x as int) * 1_000_000,
        (r1 + 1) * (r1 + 1) > (x as int) * 1_000_000,
        r2 * r2 <= (x as int) * 1_000_000,
        (r2 + 1) * (r2 + 1) > (x as int) * 1_000_000,
    ensures
        r1 == r2,
{
}

/// Fixed-point square root of a non-negative value: the greatest `r`
/// with `r² ≤ x` in real terms, i.e. `r * r <= x * 1_000_000` in raw
/// units.
pub fn fp_sqrt(x: i64) -> (r: i64)
    requires
        x >= 0,
    ensures
        r >= 0,
        (r as int) * (r as int) <= (x as int) * 1_000_000,
        ((r as int) + 1) * ((r as int) + 1) > (x as int) * 1_000_000,
        r == sqrt64(x),
{
    let v: u128 = (x as u128) * 1_000_000u128;
    let mut lo: u128 = 0;
    let mut hi: u128 = 4_000_000_000_000u128;
    proof {
        assert((4_000_000_000_000u128 as int) * (4_000_000_000_000u128 as int)
            > (i64::MAX as int) * 1_000_000) by (nonlinear_arith);
        assert(v < hi * hi) by (nonlinear_arith)
            requires
                v <= (i64::MAX as u128) * 1_000_000u128,
                hi == 4_000_000_000_000u128,
        ;
    }
    while lo + 1 < hi
        invariant
            lo < hi,
            hi <= 4_000_000_000_000u128,
            lo * lo <= v,
            v < hi * hi,
        decreases hi - lo,
    {
        let mid: u128 = lo + (hi - lo) / 2;
        proof {
            assert(mid * mid <= 4_000_000_000_000u128 * 4_000_000_000_000u128)
                by (nonlinear_arith)
                requires mid <= 4_000_000_000_000u128;
        }
        if mid * mid <= v {
            lo = mid;
        } else {
            hi = mid;
        }
    }
    proof {
        assert(lo <= 4_000_000_000_000u128);
        assert((lo + 1) * (lo + 1) > v);
        let w = lo as int;
        assert(0 <= w && w * w <= (x as int) * 1_000_000
            && (w + 1) * (w + 1) > (x as int) * 1_000_000);
        lemma_sqrt_unique(x, w, sqrt64(x));
    }
    lo as i64
}

/// Series part of the exponential for an argument in `[0, ln 2)`:
/// `1 + r + r²/2 + r³/6 + r⁴/24 + r⁵/120`.
pub open spec fn exp_series(r: i64) -> i64 {
    let r2 = fmul64(r, r);
    let r3 = fmul64(r2, r);
    let r4 = fmul64(r3, r);
    let r5 = fmul64(r4, r);
    fadd64(
        fadd64(
            fadd64(fadd64(fadd64(1_000_000i64, r), tdiv64(r2, 2i64)), tdiv64(r3, 6i64)),
            tdiv64(r4, 24i64),
        ),
        tdiv64(r5, 120i64),
    )
}

/// `exp(-x)` in fixed point for `x >= 0`: the reciprocal of the
/// series on the fractional part, halved once per whole multiple of
/// `ln 2` (to nothing after sixty-four).
pub open spec fn fp_exp_neg_spec(x: i64) -> i64 {
    let k = tdiv64(x, 693_147i64);
    let r = (x - k * 693_147) as i64;
    let base = fdiv64(1_000_000i64, exp_series(r));
    if k >= 64 {
        0i64
    } else {
        halve_k(base, k as int)
    }
}

/// `m` halved `k` times.
pub open spec fn halve_k(m: i64, k: int) -> i64
    decreases k,
{
    if k <= 0 {
        m
    } else {
        tdiv64(halve_k(m, k - 1), 2i64)
    }
}

/// Decaying exponential in fixed point.
pub fn fp_exp_neg(x: i64) -> (r: i64)
    requires
        x >= 0,
    ensures
        r == fp_exp_neg_spec(x),
{
    let k = div_trunc(x, 693_147);
    proof {
        assert(tdiv(x as int, 693_147) * 693_147 <= x as int
            && tdiv(x as int, 693_147) >= 0) by (nonlinear_arith)
            requires x >= 0;
    }
    let rem = x - k * 693_147;
    let r2 = fp_mul(rem, rem);
    let r3 = fp_mul(r2, rem);
    let r4 = fp_mul(r3, rem);
    let r5 = fp_mul(r4, rem);
    let series = fp_add(
        fp_add(
            fp_add(fp_add(fp_add(1_000_000, rem), div_trunc(r2, 2)), div_trunc(r3, 6)),
            div_trunc(r4, 24),
        ),
        div_trunc(r5, 120),
    );
    proof {
        assert(exp_series(rem) >= 1_000_000) by {
            assert(fp_mul_spec(rem as int, rem as int) >= 0) by (nonlinear_arith)
                requires rem >= 0;
        }
    }
    let base = fp_div(1_000_000, series);
    if k >= 64 {
        return 0;
    }
    let mut out: i64 = base;
    let mut steps: i64 = 0;
    while steps < k
        invariant
            0 <= steps <= k,
            k < 64,
            out == halve_k(base, steps as int),
        decreases k - steps,
    {
        out = div_trunc(out, 2);
        steps = steps + 1;
    }
    out
}

/// Magnitude, clamped to the symmetric range.
pub fn fp_abs(a: i64) -> (r: i64)
    ensures
        r as int == sat64(mag_spec(a as int)),
{
    if a == i64::MIN {
        i64::MAX
    } else if a < 0 {
        -a
    } else {
        a
    }
}

} // verus!
