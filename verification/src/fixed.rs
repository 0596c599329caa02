//! Fixed-point scalar arithmetic: the numeric ground the pipeline stands on.
//!
//! A scalar is an `i64` holding `value * FX_ONE`, i.e. 16 fractional bits.
//! Division and scale-reducing multiplication round toward zero, like Rust's
//! integer division; `tdiv` is the specification-level image of that rounding.

use vstd::prelude::*;

verus! {

/// Number of fractional bits of a fixed-point scalar.
pub const FX_BITS: u32 = 16;

/// The fixed-point representation of one: 2^16.
pub const FX_ONE: i64 = 65536;

/// Truncating (round-toward-zero) division, the rounding Rust's `/` uses.
/// Spec-level `/` on `int` is Euclidean, so truncation is spelled out here.
pub open spec fn tdiv(a: int, b: int) -> int {
    if (a < 0) == (b < 0) {
        abs_s(a) / abs_s(b)
    } else {
        -(abs_s(a) / abs_s(b))
    }
}

/// Absolute value of a mathematical integer.
pub open spec fn abs_s(a: int) -> int {
    if a < 0 {
        -a
    } else {
        a
    }
}

/// The product of two fixed-point scalars, brought back to scale.
pub open spec fn fxmul_s(a: int, b: int) -> int {
    tdiv(a * b, FX_ONE as int)
}

/// The quotient of two fixed-point scalars, at scale.
pub open spec fn fxdiv_s(a: int, b: int) -> int {
    tdiv(a * FX_ONE, b)
}

/// An integer representable as an `i64`.
pub open spec fn fits_i64(a: int) -> bool {
    i64::MIN <= a <= i64::MAX
}

/// |a| as an unsigned 64-bit integer; total, unlike `i64::abs`.
pub fn abs_u64(a: i64) -> (r: u64)
    ensures
        r == abs_s(a as int),
{
    if a < 0 {
        (-(a as i128)) as u64
    } else {
        a as u64
    }
}

/// Truncating division of 128-bit magnitudes with reattached sign.
/// Helper for the fixed-point operations; `num` and `den` are magnitudes.
fn udiv_signed(num: u128, den: u128, neg: bool) -> (r: i64)
    requires
        den > 0,
        neg ==> num / den <= i64::MAX as u128 + 1,
        !neg ==> num / den <= i64::MAX as u128,
    ensures
        neg ==> r as int == -((num / den) as int),
        !neg ==> r as int == (num / den) as int,
{
    let q = num / den;
    if neg {
        (-(q as i128)) as i64
    } else {
        q as i64
    }
}

/// |a * b| is at most the product of bounds on |a| and |b|.
pub proof fn lemma_abs_mul_le(a: int, b: int, la: int, lb: int)
    by (nonlinear_arith)
    requires
        0 <= la,
        0 <= lb,
        abs_s(a) <= la,
        abs_s(b) <= lb,
    ensures
        abs_s(a * b) <= la * lb,
{
}

/// |a tdiv b| equals |a| / |b|, hence never exceeds |a|.
pub proof fn lemma_tdiv_abs(a: int, b: int)
    by (nonlinear_arith)
    requires
        b != 0,
    ensures
        abs_s(tdiv(a, b)) == abs_s(a) / abs_s(b),
        abs_s(tdiv(a, b)) <= abs_s(a),
{
}

/// |a tdiv b| is at most `la / |b|` whenever |a| is at most `la`.
pub proof fn lemma_tdiv_div_bound(a: int, b: int, la: int)
    by (nonlinear_arith)
    requires
        b != 0,
        0 <= la,
        abs_s(a) <= la,
    ensures
        abs_s(tdiv(a, b)) <= la / abs_s(b),
{
}

proof fn lemma_abs_mul(a: int, b: int)
    by (nonlinear_arith)
    ensures
        abs_s(a * b) == abs_s(a) * abs_s(b),
        (a * b < 0) <==> ((a < 0) != (b < 0) && a != 0 && b != 0),
{
}

/// Fixed-point multiplication: `(a * b) / FX_ONE`, rounded toward zero.
pub fn fxmul(a: i64, b: i64) -> (r: i64)
    requires
        fits_i64(fxmul_s(a as int, b as int)),
    ensures
        r == fxmul_s(a as int, b as int),
{
    let neg = (a < 0) != (b < 0);
    let pa = abs_u64(a) as u128;
    let pb = abs_u64(b) as u128;
    proof {
        assert(pa * pb < 0x1_0000_0000_0000_0000_0000_0000_0000_0000) by (nonlinear_arith)
            requires
                pa <= 0x8000_0000_0000_0000,
                pb <= 0x8000_0000_0000_0000,
        ;
    }
    let num = pa * pb;
    proof {
        lemma_abs_mul(a as int, b as int);
        assert(num == abs_s((a as int) * (b as int))) by (nonlinear_arith)
            requires
                pa == abs_s(a as int),
                pb == abs_s(b as int),
                num == pa * pb,
                abs_s((a as int) * (b as int)) == abs_s(a as int) * abs_s(b as int),
        ;
    }
    udiv_signed(num, FX_ONE as u128, neg && num != 0)
}

/// Fixed-point division: `(a * FX_ONE) / b`, rounded toward zero.
pub fn fxdiv(a: i64, b: i64) -> (r: i64)
    requires
        b != 0,
        fits_i64(fxdiv_s(a as int, b as int)),
    ensures
        r == fxdiv_s(a as int, b as int),
{
    let neg = (a < 0) != (b < 0);
    let pa = abs_u64(a) as u128;
    let pb = abs_u64(b) as u128;
    proof {
        assert(pa * (FX_ONE as u128) < 0x1_0000_0000_0000_0000_0000_0000_0000_0000)
            by (nonlinear_arith)
            requires
                pa <= 0x8000_0000_0000_0000,
        ;
    }
    let num = pa * (FX_ONE as u128);
    proof {
        lemma_abs_mul(a as int, FX_ONE as int);
        assert(num == abs_s((a as int) * (FX_ONE as int))) by (nonlinear_arith)
            requires
                pa == abs_s(a as int),
                num == pa * (FX_ONE as u128),
                abs_s((a as int) * (FX_ONE as int)) == abs_s(a as int) * abs_s(FX_ONE as int),
        ;
    }
    udiv_signed(num, pb, neg && num != 0)
}

/// Truncating division of an `i128` numerator by a positive divisor,
/// landing back in `i64`.
pub fn tdiv128(a: i128, b: u64) -> (r: i64)
    requires
        b > 0,
        a > i128::MIN,
        fits_i64(tdiv(a as int, b as int)),
    ensures
        r == tdiv(a as int, b as int),
{
    let neg = a < 0;
    let mag: u128 = if a < 0 {
        (-a) as u128
    } else {
        a as u128
    };
    let q = mag / (b as u128);
    if neg && q != 0 {
        (-(q as i128)) as i64
    } else {
        q as i64
    }
}

/// The exact product of three small scalars, kept wide.
pub fn mul3(a: i64, b: i64, c: i64) -> (r: i128)
    requires
        abs_s(a as int) <= 0x2_0000,
        abs_s(b as int) <= 0x2_0000,
        abs_s(c as int) <= 0x2_0000,
    ensures
        r == a as int * b as int * c as int,
        abs_s(r as int) <= 0x8_0000_0000_0000,
{
    proof {
        lemma_abs_mul_le(a as int, b as int, 0x2_0000, 0x2_0000);
        lemma_abs_mul_le(a as int * b as int, c as int, 0x4_0000_0000, 0x2_0000);
    }
    (a as i128) * (b as i128) * (c as i128)
}

/// The integer square root: the unique `r >= 0` with
/// `r * r <= n < (r + 1) * (r + 1)`.
pub open spec fn sqrt_s(n: int) -> int {
    choose|r: int| r >= 0 && #[trigger] (r * r) <= n && n < (r + 1) * (r + 1)
}

/// The square-root characterization has exactly one solution, so any
/// witness equals `sqrt_s`.
pub proof fn lemma_sqrt_unique(n: int, r: int)
    requires
        r >= 0,
        r * r <= n,
        n < (r + 1) * (r + 1),
    ensures
        r == sqrt_s(n),
{
    assert(exists|q: int| q >= 0 && #[trigger] (q * q) <= n && n < (q + 1) * (q + 1)) by {
        assert(r >= 0 && r * r <= n && n < (r + 1) * (r + 1));
    }
    let c = sqrt_s(n);
    assert(c >= 0 && c * c <= n && n < (c + 1) * (c + 1));
    assert(c == r) by (nonlinear_arith)
        requires
            r >= 0,
            r * r <= n,
            n < (r + 1) * (r + 1),
            c >= 0,
            c * c <= n,
            n < (c + 1) * (c + 1),
    ;
}

/// The integer square root, by bisection.
pub fn isqrt_u64(a: u64) -> (r: u64)
    ensures
        r as int == sqrt_s(a as int),
        r * r <= a,
        a < (r + 1) * (r + 1),
{
    let mut lo: u64 = 0;
    let mut hi: u64 = 0x1_0000_0000;
    proof {
        assert((0x1_0000_0000 as int) * (0x1_0000_0000 as int) > a as int) by (nonlinear_arith)
            requires
                a <= 0xffff_ffff_ffff_ffff,
        ;
    }
    while hi - lo > 1
        invariant
            lo < hi,
            hi <= 0x1_0000_0000,
            lo as int * lo as int <= a as int,
            (a as int) < (hi as int) * (hi as int),
        decreases hi - lo,
    {
        let mid = lo + (hi - lo) / 2;
        proof {
            assert((mid as int) * (mid as int) < 0x1_0000_0000_0000_0000) by (nonlinear_arith)
                requires
                    mid <= 0xffff_ffff,
            ;
        }
        if mid * mid <= a {
            lo = mid;
        } else {
            hi = mid;
        }
    }
    proof {
        lemma_sqrt_unique(a as int, lo as int);
    }
    lo
}

/// Fixed-point integer power by repeated multiplication: the
/// specification image of the specular-exponent loop.
pub open spec fn pow_fx_s(b: int, e: nat) -> int
    decreases e,
{
    if e == 0 {
        FX_ONE as int
    } else {
        fxmul_s(pow_fx_s(b, (e - 1) as nat), b)
    }
}

/// `b` to the `e`, for a base in the unit interval at scale.
pub fn pow_fx(b: i64, e: u32) -> (r: i64)
    requires
        0 <= b <= FX_ONE,
    ensures
        r == pow_fx_s(b as int, e as nat),
        0 <= r <= FX_ONE,
{
    let mut acc: i64 = FX_ONE;
    let mut i: u32 = 0;
    while i < e
        invariant
            i <= e,
            0 <= b <= FX_ONE,
            0 <= acc <= FX_ONE,
            acc == pow_fx_s(b as int, i as nat),
        decreases e - i,
    {
        proof {
            lemma_abs_mul_le(acc as int, b as int, FX_ONE as int, FX_ONE as int);
            lemma_tdiv_abs(acc as int * b as int, FX_ONE as int);
            lemma_tdiv_div_bound(acc as int * b as int, FX_ONE as int, FX_ONE as int * FX_ONE as int);
            assert(FX_ONE as int * FX_ONE as int / (FX_ONE as int) == FX_ONE as int)
                by (nonlinear_arith);
            assert(acc as int * b as int >= 0) by (nonlinear_arith)
                requires
                    acc >= 0,
                    b >= 0,
            ;
        }
        acc = fxmul(acc, b);
        i = i + 1;
    }
    acc
}

/// The truncated mean of four scalars.
pub fn avg4(a: i64, b: i64, c: i64, d: i64) -> (r: i64)
    ensures
        r as int == tdiv(a as int + b as int + c as int + d as int, 4),
{
    let s: i128 = a as i128 + b as i128 + c as i128 + d as i128;
    proof {
        lemma_tdiv_abs(s as int, 4);
        assert(abs_s(s as int) / 4 <= 0x8000_0000_0000_0000) by (nonlinear_arith)
            requires
                abs_s(s as int) <= 0x2_0000_0000_0000_0000,
        ;
        if s >= 0 {
            assert(abs_s(s as int) / 4 <= 0x7fff_ffff_ffff_ffff) by (nonlinear_arith)
                requires
                    abs_s(s as int) <= 0x1_ffff_ffff_ffff_fffc,
            ;
        }
    }
    tdiv128(s, 4)
}

/// The smaller of two scalars; mirrors the pipeline's float helper.
pub fn min(x1: i64, x2: i64) -> (r: i64)
    ensures
        r == if x1 < x2 { x1 } else { x2 },
{
    if x1 < x2 {
        return x1;
    }
    x2
}

/// The larger of two scalars; mirrors the pipeline's float helper.
pub fn max(x1: i64, x2: i64) -> (r: i64)
    ensures
        r == if x1 < x2 { x2 } else { x1 },
{
    if x1 < x2 {
        return x2;
    }
    x1
}

} // verus!
