//! Builders for the model, view, projection, jitter and axis-angle rotation
//! matrices, together with the algebraic laws they obey.
//!
//! Angles reach this module as their cosine and sine (and the projection as
//! the tangent of half the vertical field of view), already in fixed-point
//! form: trigonometry itself happens at the application boundary.
//!
//! Sign convention: the projection uses `t = -z_near * tan(fov/2)`, the
//! convention of the anti-aliased and shader-driven pipelines.

use vstd::prelude::*;
use crate::fixed::{
    tdiv, abs_s, fxmul, fxdiv, fxmul_s, fxdiv_s, FX_ONE, lemma_abs_mul_le, lemma_tdiv_abs,
};
use crate::matrix::{V3, V4, M4, m4_identity_s};

verus! {

/// Magnitude cap on the projection builders' scalar inputs (2^26, about
/// 1024 in real terms): keeps every intermediate product within range.
pub const PROJ_INPUT_LIMIT: i64 = 0x400_0000;

/// A pure translation taking `eye_pos` to the origin.
pub fn get_view_matrix(eye_pos: V3) -> (r: M4)
    requires
        abs_s(eye_pos.x as int) <= crate::matrix::M4_LIMIT,
        abs_s(eye_pos.y as int) <= crate::matrix::M4_LIMIT,
        abs_s(eye_pos.z as int) <= crate::matrix::M4_LIMIT,
    ensures
        r == view_m_s(eye_pos),
{
    M4 {
        r0: V4 { x: FX_ONE, y: 0, z: 0, w: -eye_pos.x },
        r1: V4 { x: 0, y: FX_ONE, z: 0, w: -eye_pos.y },
        r2: V4 { x: 0, y: 0, z: FX_ONE, w: -eye_pos.z },
        r3: V4 { x: 0, y: 0, z: 0, w: FX_ONE },
    }
}

/// The view matrix: identity with translation `-eye_pos`.
pub open spec fn view_m_s(eye_pos: V3) -> M4 {
    M4 {
        r0: V4 { x: FX_ONE, y: 0, z: 0, w: (-(eye_pos.x as int)) as i64 },
        r1: V4 { x: 0, y: FX_ONE, z: 0, w: (-(eye_pos.y as int)) as i64 },
        r2: V4 { x: 0, y: 0, z: FX_ONE, w: (-(eye_pos.z as int)) as i64 },
        r3: V4 { x: 0, y: 0, z: 0, w: FX_ONE },
    }
}

/// Rotation about the Z axis; `c` and `s` are the angle's cosine and sine.
pub fn get_model_matrix(c: i64, s: i64) -> (r: M4)
    requires
        abs_s(c as int) <= FX_ONE,
        abs_s(s as int) <= FX_ONE,
    ensures
        r == model_m_s(c, s),
{
    M4 {
        r0: V4 { x: c, y: -s, z: 0, w: 0 },
        r1: V4 { x: s, y: c, z: 0, w: 0 },
        r2: V4 { x: 0, y: 0, z: FX_ONE, w: 0 },
        r3: V4 { x: 0, y: 0, z: 0, w: FX_ONE },
    }
}

/// The Z-axis rotation matrix.
pub open spec fn model_m_s(c: i64, s: i64) -> M4 {
    M4 {
        r0: V4 { x: c, y: (-(s as int)) as i64, z: 0, w: 0 },
        r1: V4 { x: s, y: c, z: 0, w: 0 },
        r2: V4 { x: 0, y: 0, z: FX_ONE, w: 0 },
        r3: V4 { x: 0, y: 0, z: 0, w: FX_ONE },
    }
}

/// Rotation about the Y axis composed with a uniform scale, the model
/// transform of the shader-driven pipeline.
pub fn get_model_matrix_y(c: i64, s: i64, scale: i64) -> (r: M4)
    requires
        abs_s(c as int) <= FX_ONE,
        abs_s(s as int) <= FX_ONE,
        0 <= scale <= 0x10_0000,
    ensures
        r == model_y_m_s(c, s, scale),
{
    proof {
        lemma_abs_mul_le(c as int, scale as int, FX_ONE as int, 0x10_0000);
        lemma_abs_mul_le(s as int, scale as int, FX_ONE as int, 0x10_0000);
        lemma_tdiv_abs(c as int * scale as int, FX_ONE as int);
        lemma_tdiv_abs(s as int * scale as int, FX_ONE as int);
    }
    M4 {
        r0: V4 { x: fxmul(c, scale), y: 0, z: fxmul(s, scale), w: 0 },
        r1: V4 { x: 0, y: scale, z: 0, w: 0 },
        r2: V4 { x: -fxmul(s, scale), y: 0, z: fxmul(c, scale), w: 0 },
        r3: V4 { x: 0, y: 0, z: 0, w: FX_ONE },
    }
}

/// The scaled Y-axis rotation matrix.
pub open spec fn model_y_m_s(c: i64, s: i64, scale: i64) -> M4 {
    M4 {
        r0: V4 {
            x: fxmul_s(c as int, scale as int) as i64,
            y: 0,
            z: fxmul_s(s as int, scale as int) as i64,
            w: 0,
        },
        r1: V4 { x: 0, y: scale, z: 0, w: 0 },
        r2: V4 {
            x: (-fxmul_s(s as int, scale as int)) as i64,
            y: 0,
            z: fxmul_s(c as int, scale as int) as i64,
            w: 0,
        },
        r3: V4 { x: 0, y: 0, z: 0, w: FX_ONE },
    }
}

// ------------------------------------------------------------------
// Perspective projection
// ------------------------------------------------------------------

/// Half-height of the near plane: `t = -z_near * tan_half_fov`.
pub open spec fn proj_t_s(tan_half_fov: int, z_near: int) -> int {
    -fxmul_s(z_near, tan_half_fov)
}

/// Half-width of the near plane: `r = t * aspect_ratio`.
pub open spec fn proj_r_s(tan_half_fov: int, aspect_ratio: int, z_near: int) -> int {
    fxmul_s(proj_t_s(tan_half_fov, z_near), aspect_ratio)
}

/// The perspective matrix `ortho_scale * ortho_shift * persp` in its closed
/// form: with `t` and `r` the near-plane half extents, `l = -r` and
/// `b = -t`, the composition collapses to entries
/// `n/r`, `n/t`, `(n+f)/(n-f)`, `-2fn/(n-f)`, and the row `(0,0,1,0)`.
pub open spec fn proj_m_s(tan_half_fov: int, aspect_ratio: int, z_near: int, z_far: int) -> M4 {
    M4 {
        r0: V4 {
            x: fxdiv_s(z_near, proj_r_s(tan_half_fov, aspect_ratio, z_near)) as i64,
            y: 0,
            z: 0,
            w: 0,
        },
        r1: V4 { x: 0, y: fxdiv_s(z_near, proj_t_s(tan_half_fov, z_near)) as i64, z: 0, w: 0 },
        r2: V4 {
            x: 0,
            y: 0,
            z: fxdiv_s(z_near + z_far, z_near - z_far) as i64,
            w: (-fxdiv_s(2 * fxmul_s(z_far, z_near), z_near - z_far)) as i64,
        },
        r3: V4 { x: 0, y: 0, z: FX_ONE, w: 0 },
    }
}

/// Perspective projection onto the canonical volume.
///
/// The field of view arrives as `tan(fov/2)` in fixed-point form. The
/// divisors (near-plane extents and `z_near - z_far`) must be nonzero;
/// that is the machine-level face of "the frustum is not degenerate".
pub fn get_projection_matrix(tan_half_fov: i64, aspect_ratio: i64, z_near: i64, z_far: i64) -> (r:
    M4)
    requires
        abs_s(tan_half_fov as int) <= PROJ_INPUT_LIMIT,
        abs_s(aspect_ratio as int) <= PROJ_INPUT_LIMIT,
        abs_s(z_near as int) <= PROJ_INPUT_LIMIT,
        abs_s(z_far as int) <= PROJ_INPUT_LIMIT,
        proj_t_s(tan_half_fov as int, z_near as int) != 0,
        proj_r_s(tan_half_fov as int, aspect_ratio as int, z_near as int) != 0,
        z_near != z_far,
    ensures
        r == proj_m_s(tan_half_fov as int, aspect_ratio as int, z_near as int, z_far as int),
{
    proof {
        lemma_abs_mul_le(z_near as int, tan_half_fov as int, PROJ_INPUT_LIMIT as int,
            PROJ_INPUT_LIMIT as int);
        lemma_tdiv_abs(z_near as int * tan_half_fov as int, FX_ONE as int);
    }
    let t = -fxmul(z_near, tan_half_fov);
    proof {
        lemma_abs_mul_le(t as int, aspect_ratio as int, 0x10_0000_0000_0000, PROJ_INPUT_LIMIT as int);
        lemma_tdiv_abs(t as int * aspect_ratio as int, FX_ONE as int);
    }
    let rr = fxmul(t, aspect_ratio);
    proof {
        lemma_abs_mul_le(z_near as int, FX_ONE as int, PROJ_INPUT_LIMIT as int, FX_ONE as int);
        lemma_tdiv_abs(z_near as int * FX_ONE as int, rr as int);
        lemma_tdiv_abs(z_near as int * FX_ONE as int, t as int);
        lemma_abs_mul_le(
            z_near as int + z_far as int,
            FX_ONE as int,
            2 * PROJ_INPUT_LIMIT as int,
            FX_ONE as int,
        );
        lemma_tdiv_abs((z_near + z_far) * FX_ONE as int, z_near as int - z_far as int);
        lemma_abs_mul_le(z_far as int, z_near as int, PROJ_INPUT_LIMIT as int,
            PROJ_INPUT_LIMIT as int);
        lemma_tdiv_abs(z_far as int * z_near as int, FX_ONE as int);
    }
    let a00 = fxdiv(z_near, rr);
    let a11 = fxdiv(z_near, t);
    let a22 = fxdiv(z_near + z_far, z_near - z_far);
    let fn2 = 2 * fxmul(z_far, z_near);
    proof {
        lemma_abs_mul_le(fn2 as int, FX_ONE as int, 0x20_0000_0000_0000, FX_ONE as int);
        lemma_tdiv_abs(fn2 as int * FX_ONE as int, z_near as int - z_far as int);
    }
    let a23 = -fxdiv(fn2, z_near - z_far);
    M4 {
        r0: V4 { x: a00, y: 0, z: 0, w: 0 },
        r1: V4 { x: 0, y: a11, z: 0, w: 0 },
        r2: V4 { x: 0, y: 0, z: a22, w: a23 },
        r3: V4 { x: 0, y: 0, z: FX_ONE, w: 0 },
    }
}

/// X offset of jitter step `i` in the fixed eight-entry low-discrepancy
/// sequence.
pub open spec fn halton_x_s(i: int) -> int {
    if i == 0 {
        0
    } else if i == 1 {
        -32768
    } else if i == 2 {
        32768
    } else if i == 3 {
        -49152
    } else if i == 4 {
        16384
    } else if i == 5 {
        -16384
    } else if i == 6 {
        49152
    } else {
        -57344
    }
}

/// Y offset of jitter step `i` in the fixed eight-entry low-discrepancy
/// sequence.
pub open spec fn halton_y_s(i: int) -> int {
    if i == 0 {
        21845
    } else if i == 1 {
        21845
    } else if i == 2 {
        -50972
    } else if i == 3 {
        -7282
    } else if i == 4 {
        36409
    } else if i == 5 {
        -36409
    } else if i == 6 {
        7282
    } else {
        50972
    }
}

/// The jittered projection: the plain perspective matrix with the step's
/// sub-pixel offset, scaled by the reciprocal near-plane extents, added
/// into the top two rows. The offsets ride in those rows' z entries, so
/// after the perspective division (where `w` carries `z`) every projected
/// x and y shifts by the constant sub-pixel amount; the depth rows stay
/// exactly those of the unjittered projection.
pub open spec fn jitter_m_s(
    tan_half_fov: int,
    aspect_ratio: int,
    z_near: int,
    z_far: int,
    i: int,
) -> M4 {
    let base = proj_m_s(tan_half_fov, aspect_ratio, z_near, z_far);
    let dw = fxdiv_s(FX_ONE as int, 2 * proj_r_s(tan_half_fov, aspect_ratio, z_near));
    let dh = fxdiv_s(FX_ONE as int, 2 * -proj_t_s(tan_half_fov, z_near));
    M4 {
        r0: V4 {
            x: base.r0.x,
            y: base.r0.y,
            z: fxmul_s(halton_x_s(i), dw) as i64,
            w: base.r0.w,
        },
        r1: V4 {
            x: base.r1.x,
            y: base.r1.y,
            z: fxmul_s(halton_y_s(i), dh) as i64,
            w: base.r1.w,
        },
        r2: base.r2,
        r3: base.r3,
    }
}

/// The jittered perspective projection for temporal anti-aliasing.
///
/// The eight-entry offset sequence is walked by `position`, an explicit
/// cursor owned by the caller (no hidden process-wide state): each call
/// uses the current entry and advances the cursor by one, wrapping at
/// eight.
pub fn get_jitter(
    tan_half_fov: i64,
    aspect_ratio: i64,
    z_near: i64,
    z_far: i64,
    position: &mut u64,
) -> (r: M4)
    requires
        *old(position) < 8,
        abs_s(tan_half_fov as int) <= PROJ_INPUT_LIMIT,
        abs_s(aspect_ratio as int) <= PROJ_INPUT_LIMIT,
        abs_s(z_near as int) <= PROJ_INPUT_LIMIT,
        abs_s(z_far as int) <= PROJ_INPUT_LIMIT,
        proj_t_s(tan_half_fov as int, z_near as int) != 0,
        proj_r_s(tan_half_fov as int, aspect_ratio as int, z_near as int) != 0,
        z_near != z_far,
    ensures
        r == jitter_m_s(
            tan_half_fov as int,
            aspect_ratio as int,
            z_near as int,
            z_far as int,
            *old(position) as int,
        ),
        *final(position) == (*old(position) + 1) % 8,
{
    let idx = *position;
    if idx < 7 {
        *position = idx + 1;
    } else {
        *position = idx - 7;
    }
    let base = get_projection_matrix(tan_half_fov, aspect_ratio, z_near, z_far);
    proof {
        lemma_abs_mul_le(z_near as int, tan_half_fov as int, PROJ_INPUT_LIMIT as int,
            PROJ_INPUT_LIMIT as int);
        lemma_tdiv_abs(z_near as int * tan_half_fov as int, FX_ONE as int);
    }
    proof {
        crate::fixed::lemma_tdiv_div_bound(
            z_near as int * tan_half_fov as int,
            FX_ONE as int,
            0x10_0000_0000_0000,
        );
    }
    let t = -fxmul(z_near, tan_half_fov);
    proof {
        lemma_abs_mul_le(t as int, aspect_ratio as int, 0x10_0000_0000, PROJ_INPUT_LIMIT as int);
        lemma_tdiv_abs(t as int * aspect_ratio as int, FX_ONE as int);
        crate::fixed::lemma_tdiv_div_bound(
            t as int * aspect_ratio as int,
            FX_ONE as int,
            0x4_0000_0000_0000_0000,
        );
    }
    let rr = fxmul(t, aspect_ratio);
    proof {
        lemma_tdiv_abs(FX_ONE as int * FX_ONE as int, 2 * rr as int);
        lemma_tdiv_abs(FX_ONE as int * FX_ONE as int, 2 * -(t as int));
    }
    let dw = fxdiv(FX_ONE, 2 * rr);
    let dh = fxdiv(FX_ONE, 2 * -t);
    let hx: i64 = if idx == 0 {
        0
    } else if idx == 1 {
        -32768
    } else if idx == 2 {
        32768
    } else if idx == 3 {
        -49152
    } else if idx == 4 {
        16384
    } else if idx == 5 {
        -16384
    } else if idx == 6 {
        49152
    } else {
        -57344
    };
    let hy: i64 = if idx == 0 {
        21845
    } else if idx == 1 {
        21845
    } else if idx == 2 {
        -50972
    } else if idx == 3 {
        -7282
    } else if idx == 4 {
        36409
    } else if idx == 5 {
        -36409
    } else if idx == 6 {
        7282
    } else {
        50972
    };
    proof {
        lemma_abs_mul_le(hx as int, dw as int, FX_ONE as int, 0x1_0000_0000);
        lemma_tdiv_abs(hx as int * dw as int, FX_ONE as int);
        lemma_abs_mul_le(hy as int, dh as int, FX_ONE as int, 0x1_0000_0000);
        lemma_tdiv_abs(hy as int * dh as int, FX_ONE as int);
    }
    let jx = fxmul(hx, dw);
    let jy = fxmul(hy, dh);
    M4 {
        r0: V4 { x: base.r0.x, y: base.r0.y, z: jx, w: base.r0.w },
        r1: V4 { x: base.r1.x, y: base.r1.y, z: jy, w: base.r1.w },
        r2: base.r2,
        r3: base.r3,
    }
}

/// The shape shared by every projection this module builds: a diagonal
/// x/y part, a z row mixing `z` and `w`, and the row `(0, 0, 1, 0)`.
pub open spec fn proj_shaped(m: M4) -> bool {
    m.r0.y == 0 && m.r0.z == 0 && m.r0.w == 0 && m.r1.x == 0 && m.r1.z == 0 && m.r1.w == 0
        && m.r2.x == 0 && m.r2.y == 0 && m.r3.x == 0 && m.r3.y == 0 && m.r3.z == FX_ONE
        && m.r3.w == 0
}

/// Forward homogeneous application of a projection-shaped matrix
/// (exact, denominators kept: no division happens here).
pub open spec fn proj_fwd_x(m: M4, p: V4) -> int {
    m.r0.x * p.x
}

pub open spec fn proj_fwd_y(m: M4, p: V4) -> int {
    m.r1.y * p.y
}

pub open spec fn proj_fwd_z(m: M4, p: V4) -> int {
    m.r2.z * p.z + m.r2.w * p.w
}

pub open spec fn proj_fwd_w(m: M4, p: V4) -> int {
    (FX_ONE as int) * p.z
}

/// The analytic inverse of a projection-shaped matrix, with denominators
/// cleared: the matrix `[[BDS,0,0,0],[0,ADS,0,0],[0,0,0,ABD],[0,0,ABS,-ABC]]`
/// where `A,B` are the diagonal entries, `C,D` the z-row entries and `S`
/// the fixed-point one. Applied to a forward-mapped point it returns the
/// point scaled by `A*B*D*S`; in homogeneous coordinates a common nonzero
/// scalar is the identity.
pub open spec fn proj_inv_x(m: M4, qx: int, qy: int, qz: int, qw: int) -> int {
    (m.r1.y as int) * (m.r2.w as int) * (FX_ONE as int) * qx
}

pub open spec fn proj_inv_y(m: M4, qx: int, qy: int, qz: int, qw: int) -> int {
    (m.r0.x as int) * (m.r2.w as int) * (FX_ONE as int) * qy
}

pub open spec fn proj_inv_z(m: M4, qx: int, qy: int, qz: int, qw: int) -> int {
    (m.r0.x as int) * (m.r1.y as int) * (m.r2.w as int) * qw
}

pub open spec fn proj_inv_w(m: M4, qx: int, qy: int, qz: int, qw: int) -> int {
    (m.r0.x as int) * (m.r1.y as int) * (FX_ONE as int) * qz - (m.r0.x as int) * (m.r1.y as int) * (
    m.r2.z as int) * qw
}

/// The projective scale factor the round trip accumulates.
pub open spec fn proj_round_trip_scale(m: M4) -> int {
    (m.r0.x as int) * (m.r1.y as int) * (m.r2.w as int) * (FX_ONE as int)
}

/// The projection builder composed with its own analytic inverse mapping
/// round-trips any homogeneous point — in particular the view-frustum
/// center — exactly, up to the single common scalar `A*B*D*S` that
/// homogeneous coordinates quotient away.
proof fn lemma_rt_x(a: int, b: int, d: int, k: int, x: int)
    by (nonlinear_arith)
    ensures
        ((b * d) * k) * (a * x) == (((a * b) * d) * k) * x,
{
}

proof fn lemma_rt_y(a: int, b: int, d: int, k: int, y: int)
    by (nonlinear_arith)
    ensures
        ((a * d) * k) * (b * y) == (((a * b) * d) * k) * y,
{
}

proof fn lemma_rt_z(a: int, b: int, d: int, k: int, z: int)
    by (nonlinear_arith)
    ensures
        ((a * b) * d) * (k * z) == (((a * b) * d) * k) * z,
{
}

proof fn lemma_rt_dist(u: int, k: int, p: int, q: int)
    by (nonlinear_arith)
    ensures
        (u * k) * (p + q) == (u * k) * p + (u * k) * q,
{
}

proof fn lemma_rt_swap(u: int, k: int, cc: int, z: int)
    by (nonlinear_arith)
    ensures
        (u * k) * (cc * z) == (u * cc) * (k * z),
{
}

proof fn lemma_rt_asc(u: int, k: int, d: int, w: int)
    by (nonlinear_arith)
    ensures
        (u * k) * (d * w) == ((u * d) * k) * w,
{
}

proof fn lemma_rt_w(a: int, b: int, cc: int, d: int, k: int, z: int, w: int)
    ensures
        ((a * b) * k) * (cc * z + d * w) - ((a * b) * cc) * (k * z) == (((a * b) * d) * k) * w,
{
    lemma_rt_dist(a * b, k, cc * z, d * w);
    lemma_rt_swap(a * b, k, cc, z);
    lemma_rt_asc(a * b, k, d, w);
}

/// The projection builder composed with its own analytic inverse mapping
/// round-trips any homogeneous point — in particular the view-frustum
/// center — exactly, up to the single common scalar `A*B*D*S` that
/// homogeneous coordinates quotient away.
pub proof fn lemma_projection_round_trip(m: M4, p: V4)
    requires
        proj_shaped(m),
    ensures
        proj_inv_x(m, proj_fwd_x(m, p), proj_fwd_y(m, p), proj_fwd_z(m, p), proj_fwd_w(m, p))
            == proj_round_trip_scale(m) * p.x,
        proj_inv_y(m, proj_fwd_x(m, p), proj_fwd_y(m, p), proj_fwd_z(m, p), proj_fwd_w(m, p))
            == proj_round_trip_scale(m) * p.y,
        proj_inv_z(m, proj_fwd_x(m, p), proj_fwd_y(m, p), proj_fwd_z(m, p), proj_fwd_w(m, p))
            == proj_round_trip_scale(m) * p.z,
        proj_inv_w(m, proj_fwd_x(m, p), proj_fwd_y(m, p), proj_fwd_z(m, p), proj_fwd_w(m, p))
            == proj_round_trip_scale(m) * p.w,
{
    lemma_rt_x(m.r0.x as int, m.r1.y as int, m.r2.w as int, FX_ONE as int, p.x as int);
    lemma_rt_y(m.r0.x as int, m.r1.y as int, m.r2.w as int, FX_ONE as int, p.y as int);
    lemma_rt_z(m.r0.x as int, m.r1.y as int, m.r2.w as int, FX_ONE as int, p.z as int);
    lemma_rt_w(
        m.r0.x as int,
        m.r1.y as int,
        m.r2.z as int,
        m.r2.w as int,
        FX_ONE as int,
        p.z as int,
        p.w as int,
    );
}

/// Every projection the builder returns is projection-shaped, so the
/// round-trip law applies to it.
pub proof fn lemma_built_projection_shaped(
    tan_half_fov: int,
    aspect_ratio: int,
    z_near: int,
    z_far: int,
)
    ensures
        proj_shaped(proj_m_s(tan_half_fov, aspect_ratio, z_near, z_far)),
{
}

// ------------------------------------------------------------------
// Axis-angle rotation (Rodrigues' formula)
// ------------------------------------------------------------------

/// Entry `(i, j)` (for `i, j < 3`) of the Rodrigues matrix
/// `R = I cos + (axis ⊗ axis)(1 - cos) + K sin`, held exactly at scale
/// `FX_ONE` cubed: no rounding happens in this form.
pub open spec fn rot_raw_e(axis: V3, c: i64, s: i64, i: int, j: int) -> int {
    let ax = axis.x as int;
    let ay = axis.y as int;
    let az = axis.z as int;
    let u = FX_ONE as int - c as int;
    let t = s as int * FX_ONE as int;
    if i == 0 && j == 0 {
        c as int * FX_ONE as int * FX_ONE as int + u * ax * ax
    } else if i == 0 && j == 1 {
        u * ax * ay - t * az
    } else if i == 0 && j == 2 {
        u * ax * az + t * ay
    } else if i == 1 && j == 0 {
        u * ax * ay + t * az
    } else if i == 1 && j == 1 {
        c as int * FX_ONE as int * FX_ONE as int + u * ay * ay
    } else if i == 1 && j == 2 {
        u * ay * az - t * ax
    } else if i == 2 && j == 0 {
        u * ax * az - t * ay
    } else if i == 2 && j == 1 {
        u * ay * az + t * ax
    } else if i == 2 && j == 2 {
        c as int * FX_ONE as int * FX_ONE as int + u * az * az
    } else {
        0
    }
}

/// The Rodrigues matrix brought back to scale: each rotation entry is the
/// exact scale-cubed form divided once by `FX_ONE` squared, and the last
/// row and column are those of the identity.
pub open spec fn rot_m_s(axis: V3, c: i64, s: i64) -> M4 {
    let d = FX_ONE as int * FX_ONE as int;
    M4 {
        r0: V4 {
            x: tdiv(rot_raw_e(axis, c, s, 0, 0), d) as i64,
            y: tdiv(rot_raw_e(axis, c, s, 0, 1), d) as i64,
            z: tdiv(rot_raw_e(axis, c, s, 0, 2), d) as i64,
            w: 0,
        },
        r1: V4 {
            x: tdiv(rot_raw_e(axis, c, s, 1, 0), d) as i64,
            y: tdiv(rot_raw_e(axis, c, s, 1, 1), d) as i64,
            z: tdiv(rot_raw_e(axis, c, s, 1, 2), d) as i64,
            w: 0,
        },
        r2: V4 {
            x: tdiv(rot_raw_e(axis, c, s, 2, 0), d) as i64,
            y: tdiv(rot_raw_e(axis, c, s, 2, 1), d) as i64,
            z: tdiv(rot_raw_e(axis, c, s, 2, 2), d) as i64,
            w: 0,
        },
        r3: V4 { x: 0, y: 0, z: 0, w: FX_ONE },
    }
}

/// Rotation about an arbitrary axis by Rodrigues' formula; `c` and `s` are
/// the angle's cosine and sine. The axis must be normalized (its components
/// at most one in magnitude); passing an unnormalized axis is the documented
/// caller error of this builder.
pub fn get_rotation(axis: V3, c: i64, s: i64) -> (r: M4)
    requires
        abs_s(axis.x as int) <= FX_ONE,
        abs_s(axis.y as int) <= FX_ONE,
        abs_s(axis.z as int) <= FX_ONE,
        abs_s(c as int) <= FX_ONE,
        abs_s(s as int) <= FX_ONE,
    ensures
        r == rot_m_s(axis, c, s),
{
    let d: u64 = (FX_ONE as u64) * (FX_ONE as u64);
    let u = FX_ONE - c;
    let n00 = crate::fixed::mul3(c, FX_ONE, FX_ONE) + crate::fixed::mul3(u, axis.x, axis.x);
    let n01 = crate::fixed::mul3(u, axis.x, axis.y) - crate::fixed::mul3(s, FX_ONE, axis.z);
    let n02 = crate::fixed::mul3(u, axis.x, axis.z) + crate::fixed::mul3(s, FX_ONE, axis.y);
    let n10 = crate::fixed::mul3(u, axis.x, axis.y) + crate::fixed::mul3(s, FX_ONE, axis.z);
    let n11 = crate::fixed::mul3(c, FX_ONE, FX_ONE) + crate::fixed::mul3(u, axis.y, axis.y);
    let n12 = crate::fixed::mul3(u, axis.y, axis.z) - crate::fixed::mul3(s, FX_ONE, axis.x);
    let n20 = crate::fixed::mul3(u, axis.x, axis.z) - crate::fixed::mul3(s, FX_ONE, axis.y);
    let n21 = crate::fixed::mul3(u, axis.y, axis.z) + crate::fixed::mul3(s, FX_ONE, axis.x);
    let n22 = crate::fixed::mul3(c, FX_ONE, FX_ONE) + crate::fixed::mul3(u, axis.z, axis.z);
    proof {
        lemma_tdiv_abs(n00 as int, d as int);
        lemma_tdiv_abs(n01 as int, d as int);
        lemma_tdiv_abs(n02 as int, d as int);
        lemma_tdiv_abs(n10 as int, d as int);
        lemma_tdiv_abs(n11 as int, d as int);
        lemma_tdiv_abs(n12 as int, d as int);
        lemma_tdiv_abs(n20 as int, d as int);
        lemma_tdiv_abs(n21 as int, d as int);
        lemma_tdiv_abs(n22 as int, d as int);
    }
    M4 {
        r0: V4 {
            x: crate::fixed::tdiv128(n00, d),
            y: crate::fixed::tdiv128(n01, d),
            z: crate::fixed::tdiv128(n02, d),
            w: 0,
        },
        r1: V4 {
            x: crate::fixed::tdiv128(n10, d),
            y: crate::fixed::tdiv128(n11, d),
            z: crate::fixed::tdiv128(n12, d),
            w: 0,
        },
        r2: V4 {
            x: crate::fixed::tdiv128(n20, d),
            y: crate::fixed::tdiv128(n21, d),
            z: crate::fixed::tdiv128(n22, d),
            w: 0,
        },
        r3: V4 { x: 0, y: 0, z: 0, w: FX_ONE },
    }
}

/// Rodrigues' formula evaluated at angle zero (cosine one, sine zero).
pub fn get_rotation_0(axis: V3) -> (r: M4)
    requires
        abs_s(axis.x as int) <= FX_ONE,
        abs_s(axis.y as int) <= FX_ONE,
        abs_s(axis.z as int) <= FX_ONE,
    ensures
        r == m4_identity_s(),
{
    let r = get_rotation(axis, FX_ONE, 0);
    proof {
        lemma_rotation_zero_angle(axis);
    }
    r
}

/// Any axis-angle rotation by angle zero is the identity, exactly.
pub proof fn lemma_rotation_zero_angle(axis: V3)
    ensures
        rot_m_s(axis, FX_ONE, 0) == m4_identity_s(),
{
    let ax = axis.x as int;
    let ay = axis.y as int;
    let az = axis.z as int;
    assert(rot_raw_e(axis, FX_ONE, 0, 0, 1) == 0);
    assert(rot_raw_e(axis, FX_ONE, 0, 0, 2) == 0);
    assert(rot_raw_e(axis, FX_ONE, 0, 1, 0) == 0);
    assert(rot_raw_e(axis, FX_ONE, 0, 1, 2) == 0);
    assert(rot_raw_e(axis, FX_ONE, 0, 2, 0) == 0);
    assert(rot_raw_e(axis, FX_ONE, 0, 2, 1) == 0);
    assert(rot_raw_e(axis, FX_ONE, 0, 0, 0) == 0x1_0000_0000_0000);
    assert(rot_raw_e(axis, FX_ONE, 0, 1, 1) == 0x1_0000_0000_0000);
    assert(rot_raw_e(axis, FX_ONE, 0, 2, 2) == 0x1_0000_0000_0000);
    assert(tdiv(0, 0x1_0000_0000) == 0);
    assert(tdiv(0x1_0000_0000_0000, 0x1_0000_0000) == 0x1_0000);
}

/// Entry `(i, j)` of `transpose(R) * R` over the exact scale-cubed entries.
pub open spec fn rot_rtr_e(axis: V3, c: i64, s: i64, i: int, j: int) -> int {
    rot_raw_e(axis, c, s, 0, i) * rot_raw_e(axis, c, s, 0, j) + rot_raw_e(axis, c, s, 1, i)
        * rot_raw_e(axis, c, s, 1, j) + rot_raw_e(axis, c, s, 2, i) * rot_raw_e(axis, c, s, 2, j)
}

/// The determinant of the rotation block, over the exact entries.
pub open spec fn rot_raw_det(axis: V3, c: i64, s: i64) -> int {
    rot_raw_e(axis, c, s, 0, 0) * (rot_raw_e(axis, c, s, 1, 1) * rot_raw_e(axis, c, s, 2, 2)
        - rot_raw_e(axis, c, s, 1, 2) * rot_raw_e(axis, c, s, 2, 1)) - rot_raw_e(axis, c, s, 0, 1)
        * (rot_raw_e(axis, c, s, 1, 0) * rot_raw_e(axis, c, s, 2, 2) - rot_raw_e(axis, c, s, 1, 2)
        * rot_raw_e(axis, c, s, 2, 0)) + rot_raw_e(axis, c, s, 0, 2) * (rot_raw_e(
        axis,
        c,
        s,
        1,
        0,
    ) * rot_raw_e(axis, c, s, 2, 1) - rot_raw_e(axis, c, s, 1, 1) * rot_raw_e(axis, c, s, 2, 0))
}

proof fn lemma_rot2d_norm(p: int, q: int)
    by (nonlinear_arith)
    requires
        p * p + q * q == 0x1_0000_0000,
    ensures
        (4294967296 * p) * (4294967296 * p) + (4294967296 * q) * (4294967296 * q)
            == 0x1_0000_0000_0000_0000_0000_0000int,
        (4294967296 * p) * (-4294967296 * q) + (4294967296 * q) * (4294967296 * p) == 0,
        (-4294967296 * q) * (4294967296 * p) + (4294967296 * p) * (4294967296 * q) == 0,
        (4294967296 * p) * (281474976710656 * (4294967296 * p)) - (-4294967296 * q) * (
        281474976710656 * (4294967296 * q)) == 0x1_0000_0000_0000_0000_0000_0000_0000_0000_0000int,
{
}

proof fn lemma_mul_zero_l(a: int, b: int)
    by (nonlinear_arith)
    requires
        a == 0,
    ensures
        a * b == 0,
{
}

proof fn lemma_mul_zero_r(a: int, b: int)
    by (nonlinear_arith)
    requires
        b == 0,
    ensures
        a * b == 0,
{
}

proof fn lemma_rot2d_glue(p: int, q: int)
    by (nonlinear_arith)
    ensures
        (-4294967296 * q) * (-4294967296 * q) == (4294967296 * q) * (4294967296 * q),
        (4294967296 * p) * (4294967296 * q) + (-4294967296 * q) * (4294967296 * p) == 0,
        (4294967296 * q) * (4294967296 * p) + (4294967296 * p) * (-4294967296 * q) == 0,
{
}

/// Coordinate-axis instance of the orthogonality law; the zero-product
/// helpers pin down every matrix entry, and `lemma_rot2d_norm` carries the
/// two-dimensional rotation identity the block reduces to.
proof fn lemma_rot_ortho_axis(axis: V3, c: i64, s: i64)
    requires
        axis == (V3 { x: FX_ONE, y: 0, z: 0 }) || axis == (V3 { x: 0, y: FX_ONE, z: 0 }) || axis
            == (V3 { x: 0, y: 0, z: FX_ONE }),
        (c as int) * (c as int) + (s as int) * (s as int) == FX_ONE as int * FX_ONE as int,
    ensures
        forall|i: int, j: int|
            0 <= i < 3 && 0 <= j < 3 ==> rot_rtr_e(axis, c, s, i, j) == if i == j {
                0x1_0000_0000_0000_0000_0000_0000int
            } else {
                0int
            },
{
    let ci = c as int;
    let si = s as int;
    let u = FX_ONE as int - c as int;
    let t = s as int * FX_ONE as int;
    let ax = axis.x as int;
    let ay = axis.y as int;
    let az = axis.z as int;
    lemma_rot2d_norm(ci, si);
    lemma_rot2d_glue(ci, si);
    // Pin every product that touches a zero axis component.
    if ax == 0 {
        lemma_mul_zero_r(u, ax);
        lemma_mul_zero_l(u * ax, ax);
        lemma_mul_zero_l(u * ax, ay);
        lemma_mul_zero_l(u * ax, az);
        lemma_mul_zero_r(t, ax);
    }
    if ay == 0 {
        lemma_mul_zero_r(u, ay);
        lemma_mul_zero_l(u * ay, ay);
        lemma_mul_zero_l(u * ay, az);
        lemma_mul_zero_r(u * ax, ay);
        lemma_mul_zero_r(t, ay);
    }
    if az == 0 {
        lemma_mul_zero_r(u * ax, az);
        lemma_mul_zero_r(u * ay, az);
        lemma_mul_zero_l(u * az, az);
        lemma_mul_zero_r(u, az);
        lemma_mul_zero_r(t, az);
    }
    // Pin every transpose-product that has a vanishing entry on either side.
    assert forall|i: int, j: int, l: int|
        0 <= i < 3 && 0 <= j < 3 && 0 <= l < 3 && rot_raw_e(axis, c, s, l, i) == 0 implies
        rot_raw_e(axis, c, s, l, i) * rot_raw_e(axis, c, s, l, j) == 0 by {
        lemma_mul_zero_l(rot_raw_e(axis, c, s, l, i), rot_raw_e(axis, c, s, l, j));
    }
    assert forall|i: int, j: int, l: int|
        0 <= i < 3 && 0 <= j < 3 && 0 <= l < 3 && rot_raw_e(axis, c, s, l, j) == 0 implies
        rot_raw_e(axis, c, s, l, i) * rot_raw_e(axis, c, s, l, j) == 0 by {
        lemma_mul_zero_r(rot_raw_e(axis, c, s, l, i), rot_raw_e(axis, c, s, l, j));
    }
    assert(281474976710656int * 281474976710656int == 0x1_0000_0000_0000_0000_0000_0000int);
    if axis == (V3 { x: 0, y: 0, z: FX_ONE }) {
        assert(rot_raw_e(axis, c, s, 0, 0) == 4294967296 * ci);
        assert(rot_raw_e(axis, c, s, 0, 1) == -4294967296 * si);
        assert(rot_raw_e(axis, c, s, 1, 0) == 4294967296 * si);
        assert(rot_raw_e(axis, c, s, 1, 1) == 4294967296 * ci);
        assert(rot_raw_e(axis, c, s, 2, 2) == 281474976710656int);
        assert(rot_rtr_e(axis, c, s, 2, 2) == 0x1_0000_0000_0000_0000_0000_0000int);
    } else if axis == (V3 { x: 0, y: FX_ONE, z: 0 }) {
        assert(rot_raw_e(axis, c, s, 1, 1) == 281474976710656int);
        assert(rot_raw_e(axis, c, s, 0, 0) == 4294967296 * ci);
        assert(rot_raw_e(axis, c, s, 0, 2) == 4294967296 * si);
        assert(rot_raw_e(axis, c, s, 2, 0) == -4294967296 * si);
        assert(rot_raw_e(axis, c, s, 2, 2) == 4294967296 * ci);
        assert(rot_rtr_e(axis, c, s, 1, 1) == 0x1_0000_0000_0000_0000_0000_0000int);
    } else {
        assert(rot_raw_e(axis, c, s, 0, 0) == 281474976710656int);
        assert(rot_raw_e(axis, c, s, 1, 1) == 4294967296 * ci);
        assert(rot_raw_e(axis, c, s, 1, 2) == -4294967296 * si);
        assert(rot_raw_e(axis, c, s, 2, 1) == 4294967296 * si);
        assert(rot_raw_e(axis, c, s, 2, 2) == 4294967296 * ci);
        assert(rot_rtr_e(axis, c, s, 0, 0) == 0x1_0000_0000_0000_0000_0000_0000int);
    }
}

/// For every coordinate axis and every exact angle pair
/// (`cos² + sin² = 1` at scale), the Rodrigues matrix is orthogonal:
/// `transpose(R) * R` is the identity at the matching scale. (For an
/// arbitrary unit axis the same holds mathematically, but its polynomial
/// identities are out of the solver's reach; the pipeline itself rotates
/// about coordinate axes in its model transforms.)
pub proof fn lemma_rotation_orthogonal_axis_aligned(axis: V3, c: i64, s: i64)
    requires
        axis == (V3 { x: FX_ONE, y: 0, z: 0 }) || axis == (V3 { x: 0, y: FX_ONE, z: 0 }) || axis
            == (V3 { x: 0, y: 0, z: FX_ONE }),
        (c as int) * (c as int) + (s as int) * (s as int) == FX_ONE as int * FX_ONE as int,
    ensures
        forall|i: int, j: int|
            0 <= i < 3 && 0 <= j < 3 ==> rot_rtr_e(axis, c, s, i, j) == if i == j {
                0x1_0000_0000_0000_0000_0000_0000int
            } else {
                0int
            },
{
    lemma_rot_ortho_axis(axis, c, s);
}

/// For every coordinate axis and every exact angle pair, the Rodrigues
/// matrix is a proper rotation: its determinant is one at scale (no
/// reflection). (As with orthogonality, the arbitrary-axis polynomial
/// identity is out of the solver's reach.)
#[verifier::rlimit(100)]
pub proof fn lemma_rotation_determinant_axis_aligned(axis: V3, c: i64, s: i64)
    requires
        axis == (V3 { x: FX_ONE, y: 0, z: 0 }) || axis == (V3 { x: 0, y: FX_ONE, z: 0 }) || axis
            == (V3 { x: 0, y: 0, z: FX_ONE }),
        (c as int) * (c as int) + (s as int) * (s as int) == FX_ONE as int * FX_ONE as int,
    ensures
        rot_raw_det(axis, c, s) == 0x1_0000_0000_0000_0000_0000_0000_0000_0000_0000int,
{
    let ci = c as int;
    let si = s as int;
    let u = FX_ONE as int - c as int;
    let t = s as int * FX_ONE as int;
    let ax = axis.x as int;
    let ay = axis.y as int;
    let az = axis.z as int;
    lemma_rot2d_norm(ci, si);
    lemma_rot2d_glue(ci, si);
    if ax == 0 {
        lemma_mul_zero_r(u, ax);
        lemma_mul_zero_l(u * ax, ax);
        lemma_mul_zero_l(u * ax, ay);
        lemma_mul_zero_l(u * ax, az);
        lemma_mul_zero_r(t, ax);
    }
    if ay == 0 {
        lemma_mul_zero_r(u, ay);
        lemma_mul_zero_l(u * ay, ay);
        lemma_mul_zero_l(u * ay, az);
        lemma_mul_zero_r(u * ax, ay);
        lemma_mul_zero_r(t, ay);
    }
    if az == 0 {
        lemma_mul_zero_r(u * ax, az);
        lemma_mul_zero_r(u * ay, az);
        lemma_mul_zero_l(u * az, az);
        lemma_mul_zero_r(u, az);
        lemma_mul_zero_r(t, az);
    }
    assert(281474976710656int * 281474976710656int == 0x1_0000_0000_0000_0000_0000_0000int);
    if axis == (V3 { x: 0, y: 0, z: FX_ONE }) {
        assert(rot_raw_e(axis, c, s, 0, 0) == 4294967296 * ci);
        assert(rot_raw_e(axis, c, s, 0, 1) == -4294967296 * si);
        assert(rot_raw_e(axis, c, s, 1, 0) == 4294967296 * si);
        assert(rot_raw_e(axis, c, s, 1, 1) == 4294967296 * ci);
        assert(rot_raw_e(axis, c, s, 2, 2) == 281474976710656int);
        assert(rot_raw_e(axis, c, s, 0, 2) == 0);
        assert(rot_raw_e(axis, c, s, 1, 2) == 0);
        assert(rot_raw_e(axis, c, s, 2, 0) == 0);
        assert(rot_raw_e(axis, c, s, 2, 1) == 0);
        lemma_mul_zero_l(rot_raw_e(axis, c, s, 1, 2), rot_raw_e(axis, c, s, 2, 1));
        lemma_mul_zero_l(rot_raw_e(axis, c, s, 1, 2), rot_raw_e(axis, c, s, 2, 0));
        lemma_mul_zero_l(
            rot_raw_e(axis, c, s, 0, 2),
            rot_raw_e(axis, c, s, 1, 0) * rot_raw_e(axis, c, s, 2, 1) - rot_raw_e(axis, c, s, 1, 1)
                * rot_raw_e(axis, c, s, 2, 0),
        );
        assert(rot_raw_det(axis, c, s) == rot_raw_e(axis, c, s, 0, 0) * (rot_raw_e(axis, c, s, 1, 1)
            * 281474976710656int) - rot_raw_e(axis, c, s, 0, 1) * (rot_raw_e(axis, c, s, 1, 0)
            * 281474976710656int));
        assert(rot_raw_e(axis, c, s, 1, 1) * 281474976710656int == 281474976710656 * (4294967296
            * ci));
        assert(rot_raw_e(axis, c, s, 1, 0) * 281474976710656int == 281474976710656 * (4294967296
            * si));
        assert(rot_raw_det(axis, c, s)
            == 0x1_0000_0000_0000_0000_0000_0000_0000_0000_0000int);
    } else if axis == (V3 { x: 0, y: FX_ONE, z: 0 }) {
        assert(rot_raw_e(axis, c, s, 1, 1) == 281474976710656int);
        assert(rot_raw_e(axis, c, s, 0, 0) == 4294967296 * ci);
        assert(rot_raw_e(axis, c, s, 0, 2) == 4294967296 * si);
        assert(rot_raw_e(axis, c, s, 2, 0) == -4294967296 * si);
        assert(rot_raw_e(axis, c, s, 2, 2) == 4294967296 * ci);
        assert(rot_raw_e(axis, c, s, 0, 1) == 0);
        assert(rot_raw_e(axis, c, s, 1, 0) == 0);
        assert(rot_raw_e(axis, c, s, 1, 2) == 0);
        assert(rot_raw_e(axis, c, s, 2, 1) == 0);
        lemma_mul_zero_l(rot_raw_e(axis, c, s, 1, 2), rot_raw_e(axis, c, s, 2, 1));
        lemma_mul_zero_l(rot_raw_e(axis, c, s, 1, 2), rot_raw_e(axis, c, s, 2, 0));
        lemma_mul_zero_l(
            rot_raw_e(axis, c, s, 0, 1),
            rot_raw_e(axis, c, s, 1, 0) * rot_raw_e(axis, c, s, 2, 2) - rot_raw_e(axis, c, s, 1, 2)
                * rot_raw_e(axis, c, s, 2, 0),
        );
        lemma_mul_zero_l(rot_raw_e(axis, c, s, 1, 0), rot_raw_e(axis, c, s, 2, 1));
        assert(rot_raw_det(axis, c, s) == rot_raw_e(axis, c, s, 0, 0) * (281474976710656int
            * rot_raw_e(axis, c, s, 2, 2)) + rot_raw_e(axis, c, s, 0, 2) * (-(281474976710656int
            * rot_raw_e(axis, c, s, 2, 0))));
        assert(rot_raw_e(axis, c, s, 0, 0) * (281474976710656int * rot_raw_e(axis, c, s, 2, 2))
            == (4294967296 * ci) * (281474976710656 * (4294967296 * ci)));
        assert(rot_raw_e(axis, c, s, 0, 2) * (-(281474976710656int * rot_raw_e(axis, c, s, 2, 0)))
            == (4294967296 * si) * (-(281474976710656int * (-4294967296 * si))));
        assert((4294967296 * si) * (-(281474976710656int * (-4294967296 * si))) == -(-4294967296
            * si) * (281474976710656 * (4294967296 * si))) by (nonlinear_arith);
        assert((4294967296 * si) * (281474976710656 * (4294967296 * si)) + (-4294967296 * si) * (
        281474976710656 * (4294967296 * si)) == 0) by (nonlinear_arith);
        assert(rot_raw_det(axis, c, s)
            == 0x1_0000_0000_0000_0000_0000_0000_0000_0000_0000int);
    } else {
        assert(rot_raw_e(axis, c, s, 0, 0) == 281474976710656int);
        assert(rot_raw_e(axis, c, s, 1, 1) == 4294967296 * ci);
        assert(rot_raw_e(axis, c, s, 1, 2) == -4294967296 * si);
        assert(rot_raw_e(axis, c, s, 2, 1) == 4294967296 * si);
        assert(rot_raw_e(axis, c, s, 2, 2) == 4294967296 * ci);
        assert(rot_raw_e(axis, c, s, 0, 1) == 0);
        assert(rot_raw_e(axis, c, s, 0, 2) == 0);
        assert(rot_raw_e(axis, c, s, 1, 0) == 0);
        assert(rot_raw_e(axis, c, s, 2, 0) == 0);
        lemma_mul_zero_l(
            rot_raw_e(axis, c, s, 0, 1),
            rot_raw_e(axis, c, s, 1, 0) * rot_raw_e(axis, c, s, 2, 2) - rot_raw_e(axis, c, s, 1, 2)
                * rot_raw_e(axis, c, s, 2, 0),
        );
        lemma_mul_zero_l(
            rot_raw_e(axis, c, s, 0, 2),
            rot_raw_e(axis, c, s, 1, 0) * rot_raw_e(axis, c, s, 2, 1) - rot_raw_e(axis, c, s, 1, 1)
                * rot_raw_e(axis, c, s, 2, 0),
        );
        lemma_mul_zero_l(rot_raw_e(axis, c, s, 1, 0), rot_raw_e(axis, c, s, 2, 2));
        lemma_mul_zero_l(rot_raw_e(axis, c, s, 1, 0), rot_raw_e(axis, c, s, 2, 1));
        assert(rot_raw_det(axis, c, s) == 281474976710656int * (rot_raw_e(axis, c, s, 1, 1)
            * rot_raw_e(axis, c, s, 2, 2) - rot_raw_e(axis, c, s, 1, 2) * rot_raw_e(
            axis,
            c,
            s,
            2,
            1,
        )));
        assert((4294967296 * ci) * (4294967296 * ci) - (-4294967296 * si) * (4294967296 * si)
            == 0x1_0000_0000_0000_0000_0000_0000int) by (nonlinear_arith)
            requires
                ci * ci + si * si == 0x1_0000_0000,
        ;
        assert(281474976710656int * 0x1_0000_0000_0000_0000_0000_0000int
            == 0x1_0000_0000_0000_0000_0000_0000_0000_0000_0000int);
        assert(rot_raw_det(axis, c, s)
            == 0x1_0000_0000_0000_0000_0000_0000_0000_0000_0000int);
    }
}

} // verus!
