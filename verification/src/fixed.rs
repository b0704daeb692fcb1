//! Saturating fixed-point scalars.
//!
//! A scalar is an `i64` holding a real value scaled by `FX_ONE` (2^24).
//! Every operation is total: where the ideal integer result would leave the
//! `i64` range the operation saturates, and division by zero saturates in the
//! direction of the dividend's sign. Quotients truncate toward zero. The
//! `*_spec` functions mirror each operation exactly, so contracts built on
//! them pin the result down to the bit.

use vstd::prelude::*;

verus! {

/// Number of fractional bits of a fixed-point scalar.
pub const FX_SHIFT: u32 = 24;

/// The fixed-point representation of the real value one: 2^24.
pub const FX_ONE: i64 = 0x100_0000;

/// The fixed-point representation of the real value one half.
pub const FX_HALF: i64 = 0x80_0000;

/// Clamps a mathematical integer into the `i64` range.
pub open spec fn sat64(x: int) -> int {
    if x > i64::MAX as int {
        i64::MAX as int
    } else if x < i64::MIN as int {
        i64::MIN as int
    } else {
        x
    }
}

/// Integer division truncating toward zero (the machine division of the
/// two's-complement signed types), total: division by zero gives zero.
pub open spec fn tdiv(x: int, d: int) -> int {
    if d == 0 {
        0
    } else if x == 0 {
        0
    } else if x > 0 && d > 0 {
        x / d
    } else if x < 0 && d < 0 {
        (x * -1) / (d * -1)
    } else if x < 0 {
        ((x * -1) / d) * -1
    } else {
        (x / (d * -1)) * -1
    }
}

/// Remainder matching `tdiv`: same sign as the dividend, total.
pub open spec fn trem(x: int, d: int) -> int {
    if d == 0 {
        0
    } else if x == 0 {
        0
    } else if x > 0 && d > 0 {
        x % d
    } else if x < 0 && d < 0 {
        ((x * -1) % (d * -1)) * -1
    } else if x < 0 {
        ((x * -1) % d) * -1
    } else {
        x % (d * -1)
    }
}

/// Saturating sum of two scalars.
pub open spec fn fx_add_spec(a: int, b: int) -> int {
    sat64(a + b)
}

/// Saturating difference of two scalars.
pub open spec fn fx_sub_spec(a: int, b: int) -> int {
    sat64(a - b)
}

/// Saturating negation of a scalar.
pub open spec fn fx_neg_spec(a: int) -> int {
    sat64(-a)
}

/// Saturating fixed-point product: `a * b / FX_ONE`, truncated toward zero.
pub open spec fn fx_mul_spec(a: int, b: int) -> int {
    sat64(tdiv(a * b, FX_ONE as int))
}

/// Saturating fixed-point quotient: `a * FX_ONE / b`, truncated toward zero.
/// A zero divisor saturates in the direction of the dividend's sign.
pub open spec fn fx_div_spec(a: int, b: int) -> int {
    if b == 0 {
        if a > 0 {
            i64::MAX as int
        } else if a < 0 {
            i64::MIN as int
        } else {
            0
        }
    } else {
        sat64(tdiv(a * (FX_ONE as int), b))
    }
}

/// Saturating division of a scalar by a plain integer count.
pub open spec fn fx_divi_spec(a: int, k: int) -> int {
    sat64(tdiv(a, k))
}

fn clamp_i128(q: i128) -> (r: i64)
    ensures
        r as int == sat64(q as int),
{
    if q > i64::MAX as i128 {
        i64::MAX
    } else if q < i64::MIN as i128 {
        i64::MIN
    } else {
        q as i64
    }
}

pub proof fn lemma_abs_mul_le(a: int, b: int, ba: int, bb: int)
    requires
        -ba <= a <= ba,
        -bb <= b <= bb,
        0 <= ba,
        0 <= bb,
    ensures
        -(ba * bb) <= a * b <= ba * bb,
{
    assert(-(ba * bb) <= a * b <= ba * bb) by (nonlinear_arith)
        requires
            -ba <= a <= ba,
            -bb <= b <= bb,
            0 <= ba,
            0 <= bb,
    ;
}

/// The magnitude of a truncated quotient never exceeds the dividend's.
pub proof fn lemma_tdiv_shrinks(x: int, d: int)
    requires
        d != 0,
    ensures
        x >= 0 ==> -x <= tdiv(x, d) <= x,
        x < 0 ==> x <= tdiv(x, d) <= x * -1,
{
    if x != 0 {
        let m = if x > 0 { x } else { x * -1 };
        let dm = if d > 0 { d } else { d * -1 };
        assert(0 <= m / dm <= m) by (nonlinear_arith)
            requires
                m > 0,
                dm >= 1,
        ;
        if x > 0 && d > 0 {
            assert(tdiv(x, d) == m / dm);
        } else if x < 0 && d < 0 {
            assert(tdiv(x, d) == m / dm);
        } else if x < 0 {
            assert(tdiv(x, d) == (m / dm) * -1);
        } else {
            assert(tdiv(x, d) == (m / dm) * -1);
        }
    }
}

/// Saturating sum.
pub fn fx_add(a: i64, b: i64) -> (r: i64)
    ensures
        r as int == fx_add_spec(a as int, b as int),
{
    clamp_i128(a as i128 + b as i128)
}

/// Saturating difference.
pub fn fx_sub(a: i64, b: i64) -> (r: i64)
    ensures
        r as int == fx_sub_spec(a as int, b as int),
{
    clamp_i128(a as i128 - b as i128)
}

/// Saturating negation.
pub fn fx_neg(a: i64) -> (r: i64)
    ensures
        r as int == fx_neg_spec(a as int),
{
    if a == i64::MIN {
        i64::MAX
    } else {
        -a
    }
}

/// Saturating fixed-point product.
pub fn fx_mul(a: i64, b: i64) -> (r: i64)
    ensures
        r as int == fx_mul_spec(a as int, b as int),
{
    proof {
        lemma_abs_mul_le(a as int, b as int, 0x8000_0000_0000_0000, 0x8000_0000_0000_0000);
    }
    let p: i128 = (a as i128) * (b as i128);
    proof {
        lemma_tdiv_shrinks(p as int, FX_ONE as int);
    }
    let q: i128 = p.checked_div(FX_ONE as i128).unwrap();
    clamp_i128(q)
}

/// Saturating fixed-point quotient.
pub fn fx_div(a: i64, b: i64) -> (r: i64)
    ensures
        r as int == fx_div_spec(a as int, b as int),
{
    if b == 0 {
        if a > 0 {
            i64::MAX
        } else if a < 0 {
            i64::MIN
        } else {
            0
        }
    } else {
        proof {
            lemma_abs_mul_le(a as int, FX_ONE as int, 0x8000_0000_0000_0000, FX_ONE as int);
        }
        let p: i128 = (a as i128) * (FX_ONE as i128);
        proof {
            lemma_tdiv_shrinks(p as int, b as int);
        }
        let q: i128 = p.checked_div(b as i128).unwrap();
        clamp_i128(q)
    }
}

/// Saturating division of a scalar by a plain integer count.
pub fn fx_divi(a: i64, k: i64) -> (r: i64)
    ensures
        r as int == fx_divi_spec(a as int, k as int),
{
    if k == 0 {
        assert(tdiv(a as int, 0) == 0);
        0
    } else {
        proof {
            lemma_tdiv_shrinks(a as int, k as int);
        }
        let q: i128 = (a as i128).checked_div(k as i128).unwrap();
        clamp_i128(q)
    }
}

/// The floor of the square root of a nonnegative integer.
pub open spec fn sqrt_floor(n: int) -> int
    decreases n,
{
    if n <= 0 {
        0
    } else {
        let p = sqrt_floor(n - 1);
        if (p + 1) * (p + 1) <= n {
            p + 1
        } else {
            p
        }
    }
}

/// `sqrt_floor` is the unique value bracketing its argument between
/// consecutive squares.
pub proof fn lemma_sqrt_floor_bounds(n: int)
    requires
        n >= 0,
    ensures
        0 <= sqrt_floor(n),
        sqrt_floor(n) * sqrt_floor(n) <= n,
        n < (sqrt_floor(n) + 1) * (sqrt_floor(n) + 1),
    decreases n,
{
    if n > 0 {
        lemma_sqrt_floor_bounds(n - 1);
        let p = sqrt_floor(n - 1);
        if (p + 1) * (p + 1) <= n {
            assert(n - 1 < (p + 1) * (p + 1));
            assert(n < (p + 2) * (p + 2)) by (nonlinear_arith)
                requires
                    n <= (p + 1) * (p + 1),
                    p >= 0,
            ;
        }
    }
}

proof fn lemma_sqrt_unique(n: int, r: int)
    requires
        n >= 0,
        r >= 0,
        r * r <= n,
        n < (r + 1) * (r + 1),
    ensures
        r == sqrt_floor(n),
{
    lemma_sqrt_floor_bounds(n);
    let s = sqrt_floor(n);
    if r < s {
        assert((r + 1) * (r + 1) <= s * s) by (nonlinear_arith)
            requires
                0 <= r,
                r + 1 <= s,
        ;
    }
    if s < r {
        assert((s + 1) * (s + 1) <= r * r) by (nonlinear_arith)
            requires
                0 <= s,
                s + 1 <= r,
        ;
    }
}

/// Floor square root by bisection over the answer.
fn isqrt_u128(n: u128) -> (r: u128)
    ensures
        r as int == sqrt_floor(n as int),
        r * r <= n,
{
    let mut lo: u128 = 0;
    let mut hi: u128 = 1u128 << 64;
    proof {
        assert((1u128 << 64) == 0x1_0000_0000_0000_0000u128) by (bit_vector);
    }
    while lo + 1 < hi
        invariant
            lo < hi,
            hi <= 0x1_0000_0000_0000_0000u128,
            lo * lo <= n,
            n < hi * hi || hi == 0x1_0000_0000_0000_0000u128,
        decreases hi - lo,
    {
        let mid = lo + (hi - lo) / 2;
        assert(mid * mid <= 0xffff_ffff_ffff_ffffu128 * 0xffff_ffff_ffff_ffffu128)
            by (nonlinear_arith)
            requires
                mid <= 0xffff_ffff_ffff_ffffu128,
        ;
        if mid * mid <= n {
            lo = mid;
        } else {
            hi = mid;
        }
    }
    proof {
        if hi == 0x1_0000_0000_0000_0000u128 && !(n < hi * hi) {
            assert(false) by (nonlinear_arith)
                requires
                    n <= 0xffff_ffff_ffff_ffff_ffff_ffff_ffff_ffffu128,
                    hi == 0x1_0000_0000_0000_0000u128,
                    !((n as int) < hi as int * hi as int),
            ;
        }
        lemma_sqrt_unique(n as int, lo as int);
    }
    lo
}

/// The fixed-point square root: `sqrt_floor(x * FX_ONE)` on nonnegative
/// input, zero on negative input (the real-valued square root is undefined
/// there).
pub open spec fn fx_sqrt_spec(x: int) -> int {
    if x <= 0 {
        0
    } else {
        sqrt_floor(x * (FX_ONE as int))
    }
}

/// Fixed-point square root, total: negative input gives zero.
pub fn fx_sqrt(x: i64) -> (r: i64)
    ensures
        r as int == fx_sqrt_spec(x as int),
        r >= 0,
{
    if x <= 0 {
        0
    } else {
        assert(x as int * FX_ONE as int <= 0x7fff_ffff_ffff_ffff * 0x100_0000)
            by (nonlinear_arith)
            requires
                0 < x as int <= 0x7fff_ffff_ffff_ffff,
        ;
        let n: u128 = (x as u128) * (FX_ONE as u128);
        let r = isqrt_u128(n);
        proof {
            lemma_sqrt_floor_bounds(n as int);
            assert(r as int <= 0x7fff_ffff_ffff_ffff) by (nonlinear_arith)
                requires
                    r as int * r as int <= n as int,
                    n as int <= 0x7fff_ffff_ffff_ffff * 0x100_0000,
                    r as int >= 0,
            ;
        }
        r as i64
    }
}

/// One half turn (pi) in fixed-point representation.
pub const FX_PI: i64 = 52707179;

/// One full turn (two pi) in fixed-point representation.
pub const FX_TWO_PI: i64 = 105414357;

/// A quarter turn (pi over two) in fixed-point representation.
pub const FX_HALF_PI: i64 = 26353589;

/// Reduces an angle to the interval `[-FX_PI, FX_PI]` (up to the rounding of
/// the fixed-point half turn).
pub open spec fn angle_fold(x: int) -> int {
    let r = trem(x, FX_TWO_PI as int);
    if r > FX_PI as int {
        r - FX_TWO_PI as int
    } else if r < -(FX_PI as int) {
        r + FX_TWO_PI as int
    } else {
        r
    }
}

/// Odd polynomial approximating the sine on `[-FX_HALF_PI, FX_HALF_PI]`:
/// the Taylor sum `t - t^3/6 + t^5/120 - t^7/5040` over fixed-point scalars.
pub open spec fn sin_poly(t: int) -> int {
    let t2 = fx_mul_spec(t, t);
    let t3 = fx_mul_spec(t2, t);
    let t5 = fx_mul_spec(t3, t2);
    let t7 = fx_mul_spec(t5, t2);
    fx_sub_spec(
        fx_add_spec(fx_sub_spec(t, fx_divi_spec(t3, 6)), fx_divi_spec(t5, 120)),
        fx_divi_spec(t7, 5040),
    )
}

/// Even polynomial approximating the cosine on `[0, FX_HALF_PI]`:
/// the Taylor sum `1 - t^2/2 + t^4/24 - t^6/720` over fixed-point scalars.
pub open spec fn cos_poly(t: int) -> int {
    let t2 = fx_mul_spec(t, t);
    let t4 = fx_mul_spec(t2, t2);
    let t6 = fx_mul_spec(t4, t2);
    fx_sub_spec(
        fx_add_spec(fx_sub_spec(FX_ONE as int, fx_divi_spec(t2, 2)), fx_divi_spec(t4, 24)),
        fx_divi_spec(t6, 720),
    )
}

/// Clamps a scalar into `[-FX_ONE, FX_ONE]`, the range of a sine or cosine.
pub open spec fn clamp_one(v: int) -> int {
    if v > FX_ONE as int {
        FX_ONE as int
    } else if v < -(FX_ONE as int) {
        -(FX_ONE as int)
    } else {
        v
    }
}

/// The fixed-point sine: the angle is folded into one turn, mapped into the
/// polynomial's domain by the symmetry `sin(pi - t) == sin(t)`, and the
/// polynomial's value is clamped into `[-FX_ONE, FX_ONE]`.
pub open spec fn fx_sin_spec(x: int) -> int {
    let r = angle_fold(x);
    let t = if r > FX_HALF_PI as int {
        FX_PI as int - r
    } else if r < -(FX_HALF_PI as int) {
        -(FX_PI as int) - r
    } else {
        r
    };
    clamp_one(sin_poly(t))
}

/// The fixed-point cosine, by the evenness of the cosine and the symmetry
/// `cos(pi - t) == -cos(t)`.
pub open spec fn fx_cos_spec(x: int) -> int {
    let r = angle_fold(x);
    let t = if r < 0 {
        -r
    } else {
        r
    };
    if t > FX_HALF_PI as int {
        clamp_one(-cos_poly(FX_PI as int - t))
    } else {
        clamp_one(cos_poly(t))
    }
}

fn clamp_one_exec(v: i64) -> (r: i64)
    ensures
        r as int == clamp_one(v as int),
{
    if v > FX_ONE {
        FX_ONE
    } else if v < -FX_ONE {
        -FX_ONE
    } else {
        v
    }
}

fn angle_fold_exec(x: i64) -> (r: i64)
    ensures
        r as int == angle_fold(x as int),
        -(FX_PI as int) <= r as int <= FX_PI as int,
{
    let m = x.checked_rem(FX_TWO_PI).unwrap();
    proof {
        lemma_trem_small(x as int, FX_TWO_PI as int);
    }
    if m > FX_PI {
        m - FX_TWO_PI
    } else if m < -FX_PI {
        m + FX_TWO_PI
    } else {
        m
    }
}

/// The remainder's magnitude stays under the divisor's.
proof fn lemma_trem_small(x: int, d: int)
    requires
        d > 0,
    ensures
        -d < trem(x, d) < d,
{
    if x != 0 {
        let m = if x > 0 { x } else { x * -1 };
        assert(0 <= m % d < d) by (nonlinear_arith)
            requires
                m > 0,
                d > 0,
        ;
    }
}

fn sin_poly_exec(t: i64) -> (r: i64)
    ensures
        r as int == sin_poly(t as int),
{
    let t2 = fx_mul(t, t);
    let t3 = fx_mul(t2, t);
    let t5 = fx_mul(t3, t2);
    let t7 = fx_mul(t5, t2);
    fx_sub(fx_add(fx_sub(t, fx_divi(t3, 6)), fx_divi(t5, 120)), fx_divi(t7, 5040))
}

fn cos_poly_exec(t: i64) -> (r: i64)
    ensures
        r as int == cos_poly(t as int),
{
    let t2 = fx_mul(t, t);
    let t4 = fx_mul(t2, t2);
    let t6 = fx_mul(t4, t2);
    fx_sub(fx_add(fx_sub(FX_ONE, fx_divi(t2, 2)), fx_divi(t4, 24)), fx_divi(t6, 720))
}

/// Fixed-point sine, total over the whole scalar range.
pub fn fx_sin(x: i64) -> (r: i64)
    ensures
        r as int == fx_sin_spec(x as int),
        -(FX_ONE as int) <= r as int <= FX_ONE as int,
{
    let m = angle_fold_exec(x);
    let t = if m > FX_HALF_PI {
        FX_PI - m
    } else if m < -FX_HALF_PI {
        -FX_PI - m
    } else {
        m
    };
    clamp_one_exec(sin_poly_exec(t))
}

/// Fixed-point cosine, total over the whole scalar range.
pub fn fx_cos(x: i64) -> (r: i64)
    ensures
        r as int == fx_cos_spec(x as int),
        -(FX_ONE as int) <= r as int <= FX_ONE as int,
{
    let m = angle_fold_exec(x);
    let t = if m < 0 {
        -m
    } else {
        m
    };
    if t > FX_HALF_PI {
        let c = cos_poly_exec(FX_PI - t);
        clamp_one_exec(if c == i64::MIN {
            i64::MAX
        } else {
            -c
        })
    } else {
        clamp_one_exec(cos_poly_exec(t))
    }
}

/// The fixed-point tangent: the quotient of the sine and the cosine.
pub open spec fn fx_tan_spec(x: int) -> int {
    fx_div_spec(fx_sin_spec(x), fx_cos_spec(x))
}

/// Fixed-point tangent, total: where the cosine's approximation reaches
/// zero the quotient saturates.
pub fn fx_tan(x: i64) -> (r: i64)
    ensures
        r as int == fx_tan_spec(x as int),
{
    fx_div(fx_sin(x), fx_cos(x))
}

/// Multiplying by the fixed-point one is exact: one is the multiplicative
/// unit of the scalars.
pub proof fn lemma_fx_mul_one(v: int)
    requires
        i64::MIN as int <= v <= i64::MAX as int,
    ensures
        fx_mul_spec(FX_ONE as int, v) == v,
        fx_mul_spec(v, FX_ONE as int) == v,
{
    let s = FX_ONE as int;
    if v == 0 {
        assert(s * v == 0) by (nonlinear_arith)
            requires
                v == 0,
        ;
        assert(v * s == 0) by (nonlinear_arith)
            requires
                v == 0,
        ;
    } else if v > 0 {
        assert(s * v == v * s && s * v > 0 && (v * s) / s == v) by (nonlinear_arith)
            requires
                v > 0,
                s == 0x100_0000,
        ;
        assert(tdiv(s * v, s) == v);
        assert(tdiv(v * s, s) == v);
    } else {
        let m = v * -1;
        assert(s * v == v * s && s * v < 0 && ((s * v) * -1) == m * s && (m * s) / s == m)
            by (nonlinear_arith)
            requires
                v < 0,
                m == v * -1,
                s == 0x100_0000,
        ;
        assert(tdiv(s * v, s) == ((m * s) / s) * -1);
        assert(tdiv(v * s, s) == ((m * s) / s) * -1);
    }
}

/// Multiplying by zero gives zero.
pub proof fn lemma_fx_mul_zero(v: int)
    ensures
        fx_mul_spec(v, 0) == 0,
        fx_mul_spec(0, v) == 0,
{
    assert(v * 0 == 0 && 0 * v == 0) by (nonlinear_arith);
    assert(tdiv(0, FX_ONE as int) == 0);
}

/// The sine of the zero angle is exactly zero, and the cosine exactly one.
pub proof fn lemma_trig_zero()
    ensures
        fx_sin_spec(0) == 0,
        fx_cos_spec(0) == FX_ONE as int,
{
    assert(angle_fold(0) == 0);
    assert(fx_mul_spec(0, 0) == 0);
    assert(fx_divi_spec(0, 6) == 0);
    assert(fx_divi_spec(0, 120) == 0);
    assert(fx_divi_spec(0, 5040) == 0);
    assert(sin_poly(0) == 0);
    assert(fx_divi_spec(0, 2) == 0);
    assert(fx_divi_spec(0, 24) == 0);
    assert(fx_divi_spec(0, 720) == 0);
    assert(cos_poly(0) == FX_ONE as int);
}

} // verus!
