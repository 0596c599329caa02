//! Dense 2/3/4-component vectors and 4x4 matrices over fixed-point scalars,
//! with the handful of operations the pipeline needs: products, transpose,
//! identity, and componentwise helpers.
//!
//! A product entry is the exact integer dot product of a row and a column,
//! divided once by `FX_ONE` (rounded toward zero); `mm_e_s` and `mv_e_s`
//! are the specification images of those entries.

use vstd::prelude::*;
use crate::fixed::{tdiv, abs_s, fits_i64, FX_ONE};

verus! {

/// A 2-component fixed-point vector.
#[derive(Clone, Copy, PartialEq, Eq, Structural, Debug)]
pub struct V2 {
    pub x: i64,
    pub y: i64,
}

/// A 3-component fixed-point vector.
#[derive(Clone, Copy, PartialEq, Eq, Structural, Debug)]
pub struct V3 {
    pub x: i64,
    pub y: i64,
    pub z: i64,
}

/// A 4-component (homogeneous) fixed-point vector.
#[derive(Clone, Copy, PartialEq, Eq, Structural, Debug)]
pub struct V4 {
    pub x: i64,
    pub y: i64,
    pub z: i64,
    pub w: i64,
}

/// A 4x4 fixed-point matrix, stored as four rows.
#[derive(Clone, Copy, PartialEq, Eq, Structural, Debug)]
pub struct M4 {
    pub r0: V4,
    pub r1: V4,
    pub r2: V4,
    pub r3: V4,
}

impl V2 {
    pub fn new(x: i64, y: i64) -> (r: V2)
        ensures
            r == (V2 { x, y }),
    {
        V2 { x, y }
    }
}

impl V3 {
    pub fn new(x: i64, y: i64, z: i64) -> (r: V3)
        ensures
            r == (V3 { x, y, z }),
    {
        V3 { x, y, z }
    }

    pub fn zeros() -> (r: V3)
        ensures
            r == (V3 { x: 0, y: 0, z: 0 }),
    {
        V3 { x: 0, y: 0, z: 0 }
    }
}

impl V4 {
    pub fn new(x: i64, y: i64, z: i64, w: i64) -> (r: V4)
        ensures
            r == (V4 { x, y, z, w }),
    {
        V4 { x, y, z, w }
    }

    /// The first three components.
    pub fn xyz(&self) -> (r: V3)
        ensures
            r == (V3 { x: self.x, y: self.y, z: self.z }),
    {
        V3 { x: self.x, y: self.y, z: self.z }
    }
}

/// Extends a 3-vector to homogeneous coordinates with the given `w`.
pub fn to_vec4(v3: V3, w: i64) -> (r: V4)
    ensures
        r == (V4 { x: v3.x, y: v3.y, z: v3.z, w }),
{
    V4 { x: v3.x, y: v3.y, z: v3.z, w }
}

/// Entry `j` of a row (or column) vector.
pub open spec fn v4_e(v: V4, j: int) -> int {
    if j == 0 {
        v.x as int
    } else if j == 1 {
        v.y as int
    } else if j == 2 {
        v.z as int
    } else {
        v.w as int
    }
}

/// Entry `(i, j)` of a matrix.
pub open spec fn m4_e(m: M4, i: int, j: int) -> int {
    if i == 0 {
        v4_e(m.r0, j)
    } else if i == 1 {
        v4_e(m.r1, j)
    } else if i == 2 {
        v4_e(m.r2, j)
    } else {
        v4_e(m.r3, j)
    }
}

/// The raw (scale `FX_ONE` squared) dot product of two 4-vectors.
pub open spec fn dot4_raw(a: V4, b: V4) -> int {
    a.x * b.x + a.y * b.y + a.z * b.z + a.w * b.w
}

/// A matrix-vector product entry: the raw dot of row `i` with `v`,
/// brought back to scale.
pub open spec fn mv_e_s(m: M4, v: V4, i: int) -> int {
    tdiv(dot4_raw(m4_row(m, i), v), FX_ONE as int)
}

/// Row `i` of a matrix, as a vector.
pub open spec fn m4_row(m: M4, i: int) -> V4 {
    if i == 0 {
        m.r0
    } else if i == 1 {
        m.r1
    } else if i == 2 {
        m.r2
    } else {
        m.r3
    }
}

/// A matrix-matrix product entry: row `i` of `m` against column `j` of `n`.
pub open spec fn mm_e_s(m: M4, n: M4, i: int, j: int) -> int {
    tdiv(
        m4_e(m, i, 0) * m4_e(n, 0, j) + m4_e(m, i, 1) * m4_e(n, 1, j) + m4_e(m, i, 2) * m4_e(
            n,
            2,
            j,
        ) + m4_e(m, i, 3) * m4_e(n, 3, j),
        FX_ONE as int,
    )
}

/// Every component of `v` is bounded by `l` in magnitude.
pub open spec fn bounded4(v: V4, l: int) -> bool {
    abs_s(v.x as int) <= l && abs_s(v.y as int) <= l && abs_s(v.z as int) <= l && abs_s(
        v.w as int,
    ) <= l
}

/// Every entry of `m` is bounded by `l` in magnitude.
pub open spec fn bounded_m4(m: M4, l: int) -> bool {
    bounded4(m.r0, l) && bounded4(m.r1, l) && bounded4(m.r2, l) && bounded4(m.r3, l)
}

/// Magnitude cap on matrix and vector entries accepted by the products:
/// 2^38, i.e. about four million in real terms. Four products of two such
/// entries stay below 2^78, within what an `i64` result at scale can hold.
pub const M4_LIMIT: i64 = 0x40_0000_0000;

use crate::fixed::lemma_abs_mul_le;

proof fn lemma_dot4_raw_bound(a: V4, b: V4, la: int, lb: int)
    requires
        0 <= la,
        0 <= lb,
        bounded4(a, la),
        bounded4(b, lb),
    ensures
        abs_s(a.x * b.x) <= la * lb,
        abs_s(a.y * b.y) <= la * lb,
        abs_s(a.z * b.z) <= la * lb,
        abs_s(a.w * b.w) <= la * lb,
        abs_s(dot4_raw(a, b)) <= 4 * (la * lb),
{
    lemma_abs_mul_le(a.x as int, b.x as int, la, lb);
    lemma_abs_mul_le(a.y as int, b.y as int, la, lb);
    lemma_abs_mul_le(a.z as int, b.z as int, la, lb);
    lemma_abs_mul_le(a.w as int, b.w as int, la, lb);
}

/// The scaled dot product of two entry-bounded vectors; the work is done
/// exactly in 128-bit arithmetic and divided once at the end.
pub fn dot4_div(a: V4, b: V4) -> (r: i64)
    requires
        bounded4(a, M4_LIMIT as int),
        bounded4(b, M4_LIMIT as int),
    ensures
        r == tdiv(dot4_raw(a, b), FX_ONE as int),
        abs_s(r as int) <= 0x4000_0000_0000_0000,
{
    proof {
        lemma_dot4_raw_bound(a, b, M4_LIMIT as int, M4_LIMIT as int);
    }
    let s: i128 = (a.x as i128) * (b.x as i128) + (a.y as i128) * (b.y as i128) + (a.z as i128) * (
        b.z as i128
    ) + (a.w as i128) * (b.w as i128);
    let neg = s < 0;
    let mag: u128 = if s < 0 {
        (-s) as u128
    } else {
        s as u128
    };
    let q = mag / (FX_ONE as u128);
    proof {
        assert(q <= 0x4000_0000_0000_0000) by {
            assert(mag <= 4 * ((M4_LIMIT as int) * (M4_LIMIT as int)));
            assert(4 * ((M4_LIMIT as int) * (M4_LIMIT as int)) / (FX_ONE as int)
                == 0x4000_0000_0000_0000) by (nonlinear_arith);
            assert(mag as int / (FX_ONE as int) <= 4 * ((M4_LIMIT as int) * (M4_LIMIT as int)) / (
            FX_ONE as int)) by (nonlinear_arith)
                requires
                    mag as int <= 4 * ((M4_LIMIT as int) * (M4_LIMIT as int)),
            ;
        }
    }
    if neg {
        -(q as i64)
    } else {
        q as i64
    }
}

/// The identity matrix.
pub fn m4_identity() -> (r: M4)
    ensures
        r == m4_identity_s(),
{
    M4 {
        r0: V4 { x: FX_ONE, y: 0, z: 0, w: 0 },
        r1: V4 { x: 0, y: FX_ONE, z: 0, w: 0 },
        r2: V4 { x: 0, y: 0, z: FX_ONE, w: 0 },
        r3: V4 { x: 0, y: 0, z: 0, w: FX_ONE },
    }
}

/// The identity matrix, at scale.
pub open spec fn m4_identity_s() -> M4 {
    M4 {
        r0: V4 { x: FX_ONE, y: 0, z: 0, w: 0 },
        r1: V4 { x: 0, y: FX_ONE, z: 0, w: 0 },
        r2: V4 { x: 0, y: 0, z: FX_ONE, w: 0 },
        r3: V4 { x: 0, y: 0, z: 0, w: FX_ONE },
    }
}

/// Matrix-vector product; entries per `mv_e_s`.
pub fn mat_vec_mul(m: &M4, v: &V4) -> (r: V4)
    requires
        bounded_m4(*m, M4_LIMIT as int),
        bounded4(*v, M4_LIMIT as int),
    ensures
        r.x == mv_e_s(*m, *v, 0),
        r.y == mv_e_s(*m, *v, 1),
        r.z == mv_e_s(*m, *v, 2),
        r.w == mv_e_s(*m, *v, 3),
        bounded4(r, 0x4000_0000_0000_0000),
{
    V4 {
        x: dot4_div(m.r0, *v),
        y: dot4_div(m.r1, *v),
        z: dot4_div(m.r2, *v),
        w: dot4_div(m.r3, *v),
    }
}

/// Matrix-matrix product; entries per `mm_e_s`.
pub fn mat_mul(m: &M4, n: &M4) -> (r: M4)
    requires
        bounded_m4(*m, M4_LIMIT as int),
        bounded_m4(*n, M4_LIMIT as int),
    ensures
        forall|i: int, j: int|
            0 <= i < 4 && 0 <= j < 4 ==> m4_e(r, i, j) == mm_e_s(*m, *n, i, j),
        bounded_m4(r, 0x4000_0000_0000_0000),
{
    let c0 = V4 { x: n.r0.x, y: n.r1.x, z: n.r2.x, w: n.r3.x };
    let c1 = V4 { x: n.r0.y, y: n.r1.y, z: n.r2.y, w: n.r3.y };
    let c2 = V4 { x: n.r0.z, y: n.r1.z, z: n.r2.z, w: n.r3.z };
    let c3 = V4 { x: n.r0.w, y: n.r1.w, z: n.r2.w, w: n.r3.w };
    let r = M4 {
        r0: V4 {
            x: dot4_div(m.r0, c0),
            y: dot4_div(m.r0, c1),
            z: dot4_div(m.r0, c2),
            w: dot4_div(m.r0, c3),
        },
        r1: V4 {
            x: dot4_div(m.r1, c0),
            y: dot4_div(m.r1, c1),
            z: dot4_div(m.r1, c2),
            w: dot4_div(m.r1, c3),
        },
        r2: V4 {
            x: dot4_div(m.r2, c0),
            y: dot4_div(m.r2, c1),
            z: dot4_div(m.r2, c2),
            w: dot4_div(m.r2, c3),
        },
        r3: V4 {
            x: dot4_div(m.r3, c0),
            y: dot4_div(m.r3, c1),
            z: dot4_div(m.r3, c2),
            w: dot4_div(m.r3, c3),
        },
    };
    proof {
        assert forall|i: int, j: int| 0 <= i < 4 && 0 <= j < 4 implies m4_e(r, i, j) == mm_e_s(
            *m,
            *n,
            i,
            j,
        ) by {
            assert(m4_e(r, i, j) == mm_e_s(*m, *n, i, j)) by {
                if i == 0 {
                } else if i == 1 {
                } else if i == 2 {
                } else {
                }
            }
        }
    }
    r
}

/// A matrix product as a value: each entry is `mm_e_s` of the factors.
pub open spec fn mm_s(a: M4, b: M4) -> M4 {
    M4 {
        r0: V4 {
            x: mm_e_s(a, b, 0, 0) as i64,
            y: mm_e_s(a, b, 0, 1) as i64,
            z: mm_e_s(a, b, 0, 2) as i64,
            w: mm_e_s(a, b, 0, 3) as i64,
        },
        r1: V4 {
            x: mm_e_s(a, b, 1, 0) as i64,
            y: mm_e_s(a, b, 1, 1) as i64,
            z: mm_e_s(a, b, 1, 2) as i64,
            w: mm_e_s(a, b, 1, 3) as i64,
        },
        r2: V4 {
            x: mm_e_s(a, b, 2, 0) as i64,
            y: mm_e_s(a, b, 2, 1) as i64,
            z: mm_e_s(a, b, 2, 2) as i64,
            w: mm_e_s(a, b, 2, 3) as i64,
        },
        r3: V4 {
            x: mm_e_s(a, b, 3, 0) as i64,
            y: mm_e_s(a, b, 3, 1) as i64,
            z: mm_e_s(a, b, 3, 2) as i64,
            w: mm_e_s(a, b, 3, 3) as i64,
        },
    }
}

/// A matrix whose entries all satisfy `mm_e_s` is the product value.
pub proof fn lemma_mm_is(a: M4, b: M4, r: M4)
    requires
        forall|i: int, j: int| 0 <= i < 4 && 0 <= j < 4 ==> m4_e(r, i, j) == mm_e_s(a, b, i, j),
    ensures
        r == mm_s(a, b),
{
    assert(m4_e(r, 0, 0) == mm_e_s(a, b, 0, 0));
    assert(m4_e(r, 0, 1) == mm_e_s(a, b, 0, 1));
    assert(m4_e(r, 0, 2) == mm_e_s(a, b, 0, 2));
    assert(m4_e(r, 0, 3) == mm_e_s(a, b, 0, 3));
    assert(m4_e(r, 1, 0) == mm_e_s(a, b, 1, 0));
    assert(m4_e(r, 1, 1) == mm_e_s(a, b, 1, 1));
    assert(m4_e(r, 1, 2) == mm_e_s(a, b, 1, 2));
    assert(m4_e(r, 1, 3) == mm_e_s(a, b, 1, 3));
    assert(m4_e(r, 2, 0) == mm_e_s(a, b, 2, 0));
    assert(m4_e(r, 2, 1) == mm_e_s(a, b, 2, 1));
    assert(m4_e(r, 2, 2) == mm_e_s(a, b, 2, 2));
    assert(m4_e(r, 2, 3) == mm_e_s(a, b, 2, 3));
    assert(m4_e(r, 3, 0) == mm_e_s(a, b, 3, 0));
    assert(m4_e(r, 3, 1) == mm_e_s(a, b, 3, 1));
    assert(m4_e(r, 3, 2) == mm_e_s(a, b, 3, 2));
    assert(m4_e(r, 3, 3) == mm_e_s(a, b, 3, 3));
}

/// The transpose.
pub fn transpose(m: &M4) -> (r: M4)
    ensures
        forall|i: int, j: int| 0 <= i < 4 && 0 <= j < 4 ==> m4_e(r, i, j) == m4_e(*m, j, i),
{
    M4 {
        r0: V4 { x: m.r0.x, y: m.r1.x, z: m.r2.x, w: m.r3.x },
        r1: V4 { x: m.r0.y, y: m.r1.y, z: m.r2.y, w: m.r3.y },
        r2: V4 { x: m.r0.z, y: m.r1.z, z: m.r2.z, w: m.r3.z },
        r3: V4 { x: m.r0.w, y: m.r1.w, z: m.r2.w, w: m.r3.w },
    }
}

/// Componentwise product of two 3-vectors, at scale.
pub fn elemul(v1: V3, v2: V3) -> (r: V3)
    requires
        fits_i64(crate::fixed::fxmul_s(v1.x as int, v2.x as int)),
        fits_i64(crate::fixed::fxmul_s(v1.y as int, v2.y as int)),
        fits_i64(crate::fixed::fxmul_s(v1.z as int, v2.z as int)),
    ensures
        r.x == crate::fixed::fxmul_s(v1.x as int, v2.x as int),
        r.y == crate::fixed::fxmul_s(v1.y as int, v2.y as int),
        r.z == crate::fixed::fxmul_s(v1.z as int, v2.z as int),
{
    V3 {
        x: crate::fixed::fxmul(v1.x, v2.x),
        y: crate::fixed::fxmul(v1.y, v2.y),
        z: crate::fixed::fxmul(v1.z, v2.z),
    }
}

} // verus!
