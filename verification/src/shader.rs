//! The programmable shading stage: vertex pass-through and the closed
//! family of fragment shaders (normal visualization, two-light Phong,
//! textured Phong, and the bump/displacement stubs), dispatched by a
//! tagged union rather than function pointers.
//!
//! Division by a vector's length is guarded: a zero-length normal, view
//! or light direction contributes nothing instead of poisoning the
//! fragment. Accumulated light is saturated into the scalar range.

use vstd::prelude::*;
use vstd::string::StringSliceAdditionalSpecFns;
use crate::fixed::{
    tdiv, abs_s, FX_ONE, fxmul_s, fxdiv_s, sqrt_s, pow_fx_s, pow_fx, fxdiv, isqrt_u64,
    lemma_abs_mul_le, lemma_tdiv_abs, lemma_tdiv_div_bound,
};
use crate::matrix::{V2, V3};
use crate::texture::Texture;

verus! {

/// The vertex stage's payload: a position.
pub struct VertexShaderPayload {
    pub position: V3,
}

/// The per-fragment payload: interpolated color, normal, view-space
/// position and texture coordinate. A texture, when one is bound, reaches
/// the shader as a separate read-only borrow.
pub struct FragmentShaderPayload {
    pub color: V3,
    pub normal: V3,
    pub view_pos: V3,
    pub tex_coords: V2,
}

impl FragmentShaderPayload {
    pub fn new(color: V3, normal: V3, view_pos: V3, tex_coords: V2) -> (r: FragmentShaderPayload)
        ensures
            r.color == color,
            r.normal == normal,
            r.view_pos == view_pos,
            r.tex_coords == tex_coords,
    {
        FragmentShaderPayload { color, normal, view_pos, tex_coords }
    }
}

/// The closed set of fragment shaders.
#[derive(Clone, Copy, PartialEq, Eq, Structural, Debug)]
pub enum FragmentShaderKind {
    Normal,
    Phong,
    Texture,
    Bump,
    Displacement,
}

/// The closed set of vertex shaders: only the identity pass exists today;
/// the tagged union is the extension point for richer vertex stages.
#[derive(Clone, Copy, PartialEq, Eq, Structural, Debug)]
pub enum VertexShaderKind {
    Identity,
}

/// The payload ranges the shaders accept: colors in channel range,
/// normals and view positions of moderate magnitude.
pub open spec fn payload_wf(p: FragmentShaderPayload) -> bool {
    0 <= p.color.x <= crate::texture::COLOR_MAX && 0 <= p.color.y <= crate::texture::COLOR_MAX && 0
        <= p.color.z <= crate::texture::COLOR_MAX && abs_s(p.normal.x as int) <= 0x10_0000 && abs_s(
        p.normal.y as int,
    ) <= 0x10_0000 && abs_s(p.normal.z as int) <= 0x10_0000 && abs_s(p.view_pos.x as int)
        <= 0x400_0000 && abs_s(p.view_pos.y as int) <= 0x400_0000 && abs_s(p.view_pos.z as int)
        <= 0x400_0000
}

/// The runtime face of `payload_wf`.
pub fn payload_in_range(p: &FragmentShaderPayload) -> (r: bool)
    ensures
        r == payload_wf(*p),
{
    0 <= p.color.x && p.color.x <= crate::texture::COLOR_MAX && 0 <= p.color.y && p.color.y
        <= crate::texture::COLOR_MAX && 0 <= p.color.z && p.color.z <= crate::texture::COLOR_MAX
        && -0x10_0000 <= p.normal.x && p.normal.x <= 0x10_0000 && -0x10_0000 <= p.normal.y
        && p.normal.y <= 0x10_0000 && -0x10_0000 <= p.normal.z && p.normal.z <= 0x10_0000
        && -0x400_0000 <= p.view_pos.x && p.view_pos.x <= 0x400_0000 && -0x400_0000 <= p.view_pos.y
        && p.view_pos.y <= 0x400_0000 && -0x400_0000 <= p.view_pos.z && p.view_pos.z <= 0x400_0000
}

/// The identity vertex stage: position in, position out.
pub fn vertex_shader(payload: &VertexShaderPayload) -> (r: V3)
    ensures
        r == payload.position,
{
    payload.position
}

// ------------------------------------------------------------------
// Shared vector helpers
// ------------------------------------------------------------------

/// The raw (scale-squared) dot product of two 3-vectors.
pub open spec fn dot3_raw_s(a: V3, b: V3) -> int {
    a.x * b.x + a.y * b.y + a.z * b.z
}

/// The Euclidean length of a fixed-point 3-vector: the integer square
/// root of the raw self-dot, which lands back at scale.
pub open spec fn length_s(v: V3) -> int {
    sqrt_s(dot3_raw_s(v, v))
}

/// The length of a moderate vector; mirrors the pipeline's float helper.
pub fn length(v_0: V3) -> (r: i64)
    requires
        abs_s(v_0.x as int) <= 0x800_0000,
        abs_s(v_0.y as int) <= 0x800_0000,
        abs_s(v_0.z as int) <= 0x800_0000,
    ensures
        r == length_s(v_0),
        0 <= r <= 0x1000_0000,
{
    proof {
        lemma_abs_mul_le(v_0.x as int, v_0.x as int, 0x800_0000, 0x800_0000);
        lemma_abs_mul_le(v_0.y as int, v_0.y as int, 0x800_0000, 0x800_0000);
        lemma_abs_mul_le(v_0.z as int, v_0.z as int, 0x800_0000, 0x800_0000);
        assert((v_0.x as int) * (v_0.x as int) >= 0) by (nonlinear_arith);
        assert((v_0.y as int) * (v_0.y as int) >= 0) by (nonlinear_arith);
        assert((v_0.z as int) * (v_0.z as int) >= 0) by (nonlinear_arith);
    }
    let sum: i128 = (v_0.x as i128) * (v_0.x as i128) + (v_0.y as i128) * (v_0.y as i128) + (
    v_0.z as i128) * (v_0.z as i128);
    let r = isqrt_u64(sum as u64);
    proof {
        assert((0x1000_0000 as int + 1) * (0x1000_0000 as int + 1) > 3 * (0x800_0000 as int
            * 0x800_0000 as int)) by (nonlinear_arith);
        assert(r as int * r as int <= sum as int);
        assert((r as int) <= 0x1000_0000) by (nonlinear_arith)
            requires
                0 <= r as int,
                (r as int) * (r as int) <= sum as int,
                sum as int <= 3 * (0x800_0000 as int * 0x800_0000 as int),
                (0x1000_0000 as int + 1) * (0x1000_0000 as int + 1) > 3 * (0x800_0000 as int
                    * 0x800_0000 as int),
        ;
    }
    r as i64
}

/// The vector scaled to unit length by its own (nonzero) length, each
/// component held within twice the unit range (a true unit vector never
/// touches the cap; it only tames degenerate fixed-point lengths).
pub open spec fn unit_s(v: V3, len: int) -> V3 {
    V3 {
        x: unit_clamp_s(fxdiv_s(v.x as int, len)),
        y: unit_clamp_s(fxdiv_s(v.y as int, len)),
        z: unit_clamp_s(fxdiv_s(v.z as int, len)),
    }
}

/// Twice the unit range, the cap on a normalized component.
pub open spec fn unit_clamp_s(x: int) -> i64 {
    if x > 131072 {
        131072
    } else if x < -131072 {
        (-131072int) as i64
    } else {
        x as i64
    }
}

fn unit3(v: V3, len: i64) -> (r: V3)
    requires
        1 <= len,
        abs_s(v.x as int) <= 0x1000_0000,
        abs_s(v.y as int) <= 0x1000_0000,
        abs_s(v.z as int) <= 0x1000_0000,
    ensures
        r == unit_s(v, len as int),
        abs_s(r.x as int) <= 0x2_0000,
        abs_s(r.y as int) <= 0x2_0000,
        abs_s(r.z as int) <= 0x2_0000,
{
    proof {
        lemma_abs_mul_le(v.x as int, FX_ONE as int, 0x1000_0000, FX_ONE as int);
        lemma_abs_mul_le(v.y as int, FX_ONE as int, 0x1000_0000, FX_ONE as int);
        lemma_abs_mul_le(v.z as int, FX_ONE as int, 0x1000_0000, FX_ONE as int);
        lemma_tdiv_abs(v.x as int * FX_ONE as int, len as int);
        lemma_tdiv_abs(v.y as int * FX_ONE as int, len as int);
        lemma_tdiv_abs(v.z as int * FX_ONE as int, len as int);
    }
    V3 {
        x: unit_clamp(fxdiv(v.x, len)),
        y: unit_clamp(fxdiv(v.y, len)),
        z: unit_clamp(fxdiv(v.z, len)),
    }
}

fn unit_clamp(x: i64) -> (r: i64)
    ensures
        r == unit_clamp_s(x as int),
        abs_s(r as int) <= 0x2_0000,
{
    if x > 131072 {
        131072
    } else if x < -131072 {
        -131072
    } else {
        x
    }
}

/// Saturation of a wide accumulator into the scalar range.
pub open spec fn sat_s(x: int) -> i64 {
    if x > i64::MAX as int {
        i64::MAX
    } else if x < i64::MIN as int {
        i64::MIN
    } else {
        x as i64
    }
}

fn sat128(x: i128) -> (r: i64)
    ensures
        r == sat_s(x as int),
{
    if x > i64::MAX as i128 {
        i64::MAX
    } else if x < i64::MIN as i128 {
        i64::MIN
    } else {
        x as i64
    }
}

/// Truncating division staying wide; total for positive divisors.
fn tdiv_wide(a: i128, b: i128) -> (r: i128)
    requires
        0 < b,
        a > i128::MIN,
    ensures
        r == tdiv(a as int, b as int),
        abs_s(r as int) <= abs_s(a as int),
{
    let neg = a < 0;
    let ma: u128 = if a < 0 {
        (-a) as u128
    } else {
        a as u128
    };
    let q = ma / (b as u128);
    proof {
        lemma_tdiv_abs(a as int, b as int);
    }
    if neg && q != 0 {
        -(q as i128)
    } else {
        q as i128
    }
}

// ------------------------------------------------------------------
// The fragment shaders
// ------------------------------------------------------------------

/// One channel of the normal-visualization shader: a unit-normal
/// component remapped from [-1, 1] to [0, 1] and scaled to 0..255.
pub open spec fn normal_channel_s(c: int) -> int {
    tdiv((c + FX_ONE as int) * 255, 2)
}

/// The normal-visualization shader's result.
pub open spec fn normal_shader_s(p: FragmentShaderPayload) -> V3 {
    let len = length_s(p.normal);
    if len == 0 {
        V3 { x: 0, y: 0, z: 0 }
    } else {
        let u = unit_s(p.normal, len);
        V3 {
            x: normal_channel_s(u.x as int) as i64,
            y: normal_channel_s(u.y as int) as i64,
            z: normal_channel_s(u.z as int) as i64,
        }
    }
}

/// Visualizes the interpolated normal as a color.
pub fn normal_fragment_shader(payload: &FragmentShaderPayload) -> (r: V3)
    requires
        payload_wf(*payload),
    ensures
        r == normal_shader_s(*payload),
{
    let len = length(payload.normal);
    if len == 0 {
        return V3 { x: 0, y: 0, z: 0 };
    }
    let n = unit3(payload.normal, len);
    V3 {
        x: normal_channel(n.x),
        y: normal_channel(n.y),
        z: normal_channel(n.z),
    }
}

fn normal_channel(nd: i64) -> (r: i64)
    requires
        abs_s(nd as int) <= 0x1_0000_0000_0000,
    ensures
        r as int == normal_channel_s(nd as int),
{
    proof {
        lemma_abs_mul_le(nd as int + FX_ONE as int, 255, 0x2_0000_0000_0000, 255);
        lemma_tdiv_abs((nd as int + FX_ONE as int) * 255, 2);
    }
    let v: i128 = (nd as i128 + FX_ONE as i128) * 255;
    crate::fixed::tdiv128(v, 2)
}

/// The ambient reflection coefficient (0.005 at scale).
pub const KA: i64 = 328;

/// The specular reflection coefficient (0.7937 at scale).
pub const KS: i64 = 52020;

/// The shared point-light intensity (500 at scale).
pub const LIGHT_I: i64 = 32768000;

/// The ambient light intensity (10 at scale).
pub const AMB_I: i64 = 655360;

/// The specular exponent.
pub const SPEC_P: u32 = 150;

/// One point light's contribution to one channel, following the Phong
/// terms: `ambient = ka * amb`, `diffuse = kd * I / r^2 * max(0, N.L)`,
/// `specular = ks * I / r^2 * max(0, N.H)^p`; the divisions stay wide and
/// round toward zero.
pub open spec fn phong_channel_s(kd_c: int, diffdot: int, specpow: int, rlen: int) -> int {
    let d1 = fxmul_s(kd_c, LIGHT_I as int);
    let d2 = tdiv(d1 * FX_ONE as int, rlen);
    let d3 = tdiv(d2 * FX_ONE as int, rlen);
    let ld = tdiv(d3 * diffdot, FX_ONE as int);
    let s1 = fxmul_s(KS as int, LIGHT_I as int);
    let s2 = tdiv(s1 * FX_ONE as int, rlen);
    let s3 = tdiv(s2 * FX_ONE as int, rlen);
    let ls = tdiv(s3 * specpow, FX_ONE as int);
    let la = fxmul_s(KA as int, AMB_I as int);
    ld + ls + la
}

/// The clamped diffuse and clamped-and-powered specular dot factors of
/// one light against a unit normal, view and light direction.
pub open spec fn phong_dots_s(nu: V3, lu: V3, vu: V3, hlen: int) -> (int, int) {
    let nl = tdiv(dot3_raw_s(nu, lu), FX_ONE as int);
    let diffdot = if nl > 0 {
        if nl > FX_ONE as int {
            FX_ONE as int
        } else {
            nl
        }
    } else {
        0
    };
    let hv = V3 { x: (vu.x + lu.x) as i64, y: (vu.y + lu.y) as i64, z: (vu.z + lu.z) as i64 };
    let nh = if hlen == 0 {
        0
    } else {
        tdiv(dot3_raw_s(nu, unit_s(hv, hlen)), FX_ONE as int)
    };
    let clamped = if nh < 0 {
        0
    } else if nh > FX_ONE as int {
        FX_ONE as int
    } else {
        nh
    };
    (diffdot, pow_fx_s(clamped, SPEC_P as nat))
}

/// The eye position of the lighting rig.
pub open spec fn eye_pos_s() -> V3 {
    V3 { x: 0, y: 0, z: 655360 }
}

/// The two point lights of the fixed rig.
pub open spec fn light1_pos_s() -> V3 {
    V3 { x: 1310720, y: 1310720, z: 1310720 }
}

pub open spec fn light2_pos_s() -> V3 {
    V3 { x: -1310720int as i64, y: 1310720, z: 0 }
}

/// One light's three channel contributions.
pub open spec fn phong_light_s(kd: V3, nu: V3, vu: V3, point: V3, lp: V3) -> (int, int, int) {
    let la = fxmul_s(KA as int, AMB_I as int);
    let ldiff = V3 {
        x: (lp.x - point.x) as i64,
        y: (lp.y - point.y) as i64,
        z: (lp.z - point.z) as i64,
    };
    let rlen = length_s(ldiff);
    if rlen == 0 {
        (la, la, la)
    } else {
        let lu = unit_s(ldiff, rlen);
        let hv = V3 { x: (vu.x + lu.x) as i64, y: (vu.y + lu.y) as i64, z: (vu.z + lu.z) as i64 };
        let hlen = length_s(hv);
        let dots = phong_dots_s(nu, lu, vu, hlen);
        (
            phong_channel_s(kd.x as int, dots.0, dots.1, rlen),
            phong_channel_s(kd.y as int, dots.0, dots.1, rlen),
            phong_channel_s(kd.z as int, dots.0, dots.1, rlen),
        )
    }
}

/// The full two-light Phong accumulation for a diffuse coefficient `kd`,
/// scaled by 255 and saturated per channel.
pub open spec fn phong_core_s(kd: V3, p: FragmentShaderPayload) -> V3 {
    let nlen = length_s(p.normal);
    if nlen == 0 {
        V3 { x: 0, y: 0, z: 0 }
    } else {
        let nu = unit_s(p.normal, nlen);
        let vdiff = V3 {
            x: (eye_pos_s().x - p.view_pos.x) as i64,
            y: (eye_pos_s().y - p.view_pos.y) as i64,
            z: (eye_pos_s().z - p.view_pos.z) as i64,
        };
        let vlen = length_s(vdiff);
        if vlen == 0 {
            V3 { x: 0, y: 0, z: 0 }
        } else {
            let vu = unit_s(vdiff, vlen);
            let c1 = phong_light_s(kd, nu, vu, p.view_pos, light1_pos_s());
            let c2 = phong_light_s(kd, nu, vu, p.view_pos, light2_pos_s());
            V3 {
                x: sat_s((c1.0 + c2.0) * 255),
                y: sat_s((c1.1 + c2.1) * 255),
                z: sat_s((c1.2 + c2.2) * 255),
            }
        }
    }
}

/// The Phong shader: the interpolated vertex color is the diffuse
/// coefficient.
pub open spec fn phong_shader_s(p: FragmentShaderPayload) -> V3 {
    phong_core_s(p.color, p)
}

/// The textured Phong shader: the diffuse coefficient comes from the
/// texture sample (scaled from channel range back to the unit range);
/// without a bound texture the sample is black.
pub open spec fn texture_shader_s(p: FragmentShaderPayload, tc: V3) -> V3 {
    let kd = V3 {
        x: clamp_kd_s(tdiv(tc.x as int, 255)),
        y: clamp_kd_s(tdiv(tc.y as int, 255)),
        z: clamp_kd_s(tdiv(tc.z as int, 255)),
    };
    phong_core_s(kd, p)
}

/// The diffuse coefficient's accepted range.
pub open spec fn clamp_kd_s(x: int) -> i64 {
    if x > 0x1_0000_0000 {
        0x1_0000_0000
    } else if x < -0x1_0000_0000 {
        (-0x1_0000_0000int) as i64
    } else {
        x as i64
    }
}

/// The bump-mapping stub: passes the interpolated normal through, scaled
/// like a color. Perturbing it through a tangent-bitangent-normal frame is
/// the lab's intended extension point.
pub open spec fn bump_shader_s(p: FragmentShaderPayload) -> V3 {
    V3 {
        x: (p.normal.x as int * 255) as i64,
        y: (p.normal.y as int * 255) as i64,
        z: (p.normal.z as int * 255) as i64,
    }
}

/// One light's contributions, computed wide.
fn phong_light(kd: V3, nu: V3, vu: V3, point: V3, lp: V3) -> (r: (i128, i128, i128))
    requires
        abs_s(kd.x as int) <= 0x1_0000_0000,
        abs_s(kd.y as int) <= 0x1_0000_0000,
        abs_s(kd.z as int) <= 0x1_0000_0000,
        abs_s(nu.x as int) <= 0x2_0000,
        abs_s(nu.y as int) <= 0x2_0000,
        abs_s(nu.z as int) <= 0x2_0000,
        abs_s(vu.x as int) <= 0x2_0000,
        abs_s(vu.y as int) <= 0x2_0000,
        abs_s(vu.z as int) <= 0x2_0000,
        abs_s(point.x as int) <= 0x400_0000,
        abs_s(point.y as int) <= 0x400_0000,
        abs_s(point.z as int) <= 0x400_0000,
        abs_s(lp.x as int) <= 0x400_0000,
        abs_s(lp.y as int) <= 0x400_0000,
        abs_s(lp.z as int) <= 0x400_0000,
    ensures
        r.0 == phong_light_s(kd, nu, vu, point, lp).0,
        r.1 == phong_light_s(kd, nu, vu, point, lp).1,
        r.2 == phong_light_s(kd, nu, vu, point, lp).2,
        abs_s(r.0 as int) <= 0x10_0000_0000_0000_0000_0000_0000,
        abs_s(r.1 as int) <= 0x10_0000_0000_0000_0000_0000_0000,
        abs_s(r.2 as int) <= 0x10_0000_0000_0000_0000_0000_0000,
{
    let la: i128 = fxmul_wide(KA as i128, AMB_I as i128);
    let ldiff = V3 { x: lp.x - point.x, y: lp.y - point.y, z: lp.z - point.z };
    let rlen = length(ldiff);
    if rlen == 0 {
        return (la, la, la);
    }
    let lu = unit3(ldiff, rlen);
    let hv = V3 { x: vu.x + lu.x, y: vu.y + lu.y, z: vu.z + lu.z };
    let hlen = length_wide(hv);
    let dots = phong_dots(nu, lu, vu, hlen);
    (
        phong_channel(kd.x, dots.0, dots.1, rlen),
        phong_channel(kd.y, dots.0, dots.1, rlen),
        phong_channel(kd.z, dots.0, dots.1, rlen),
    )
}

/// The clamped dot factors of one light.
fn phong_dots(nu: V3, lu: V3, vu: V3, hlen: i64) -> (r: (i64, i64))
    requires
        abs_s(nu.x as int) <= 0x2_0000,
        abs_s(nu.y as int) <= 0x2_0000,
        abs_s(nu.z as int) <= 0x2_0000,
        abs_s(lu.x as int) <= 0x2_0000,
        abs_s(lu.y as int) <= 0x2_0000,
        abs_s(lu.z as int) <= 0x2_0000,
        abs_s(vu.x as int) <= 0x2_0000,
        abs_s(vu.y as int) <= 0x2_0000,
        abs_s(vu.z as int) <= 0x2_0000,
        hlen >= 0,
    ensures
        ({
            let d = phong_dots_s(nu, lu, vu, hlen as int);
            r.0 == d.0 && r.1 == d.1
        }),
        0 <= r.0 <= FX_ONE,
        0 <= r.1 <= FX_ONE,
{
    let nlraw = dot3_wide(nu, lu);
    let nl = tdiv_wide(nlraw, FX_ONE as i128);
    let diffdot: i64 = if nl > 0 {
        if nl > FX_ONE as i128 {
            FX_ONE
        } else {
            nl as i64
        }
    } else {
        0
    };
    let nh: i128 = if hlen == 0 {
        0
    } else {
        let hv = V3 { x: vu.x + lu.x, y: vu.y + lu.y, z: vu.z + lu.z };
        let hu = unit3_wide(hv, hlen);
        tdiv_wide(dot3_wide(nu, hu), FX_ONE as i128)
    };
    let clamped: i64 = if nh < 0 {
        0
    } else if nh > FX_ONE as i128 {
        FX_ONE
    } else {
        nh as i64
    };
    (diffdot, pow_fx(clamped, SPEC_P))
}

/// One Phong channel, computed wide.
fn phong_channel(kd_c: i64, diffdot: i64, specpow: i64, rlen: i64) -> (r: i128)
    requires
        1 <= rlen,
        0 <= diffdot <= FX_ONE,
        0 <= specpow <= FX_ONE,
        abs_s(kd_c as int) <= 0x1_0000_0000,
    ensures
        r == phong_channel_s(kd_c as int, diffdot as int, specpow as int, rlen as int),
        abs_s(r as int) <= 0x10_0000_0000_0000_0000_0000_0000,
{
    proof {
        lemma_abs_mul_le(kd_c as int, LIGHT_I as int, 0x1_0000_0000, 0x2000_0000);
        lemma_tdiv_abs(kd_c as int * LIGHT_I as int, FX_ONE as int);
        crate::fixed::lemma_tdiv_div_bound(
            kd_c as int * LIGHT_I as int,
            FX_ONE as int,
            0x2000_0000_0000_0000,
        );
    }
    let d1 = fxmul_wide(kd_c as i128, LIGHT_I as i128);
    proof {
        lemma_abs_mul_le(d1 as int, FX_ONE as int, 0x20_0000_0000_0000, FX_ONE as int);
        lemma_tdiv_abs(d1 as int * FX_ONE as int, rlen as int);
    }
    let d2 = tdiv_wide(d1 * (FX_ONE as i128), rlen as i128);
    proof {
        lemma_abs_mul_le(d2 as int, FX_ONE as int, 0x2000_0000_0000_0000_0000, FX_ONE as int);
        lemma_tdiv_abs(d2 as int * FX_ONE as int, rlen as int);
    }
    let d3 = tdiv_wide(d2 * (FX_ONE as i128), rlen as i128);
    proof {
        lemma_abs_mul_le(
            d3 as int,
            diffdot as int,
            0x2_0000_0000_0000_0000_0000_0000,
            FX_ONE as int,
        );
    }
    proof {
        lemma_abs_mul_le(
            d3 as int,
            diffdot as int,
            0x2000_0000_0000_0000_0000_0000,
            FX_ONE as int,
        );
        crate::fixed::lemma_tdiv_div_bound(
            d3 as int * diffdot as int,
            FX_ONE as int,
            0x2_0000_0000_0000_0000_0000_0000_0000,
        );
    }
    let ld = tdiv_wide(d3 * (diffdot as i128), FX_ONE as i128);
    proof {
        lemma_abs_mul_le(KS as int, LIGHT_I as int, 0x1_0000, 0x2000_0000);
        lemma_tdiv_abs(KS as int * LIGHT_I as int, FX_ONE as int);
        crate::fixed::lemma_tdiv_div_bound(
            KS as int * LIGHT_I as int,
            FX_ONE as int,
            0x2000_0000_0000,
        );
    }
    let s1 = fxmul_wide(KS as i128, LIGHT_I as i128);
    proof {
        lemma_abs_mul_le(s1 as int, FX_ONE as int, 0x2000_0000_0000, FX_ONE as int);
        lemma_tdiv_abs(s1 as int * FX_ONE as int, rlen as int);
    }
    let s2 = tdiv_wide(s1 * (FX_ONE as i128), rlen as i128);
    proof {
        lemma_abs_mul_le(s2 as int, FX_ONE as int, 0x2000_0000_0000_0000_0000, FX_ONE as int);
        lemma_tdiv_abs(s2 as int * FX_ONE as int, rlen as int);
    }
    let s3 = tdiv_wide(s2 * (FX_ONE as i128), rlen as i128);
    proof {
        lemma_abs_mul_le(
            s3 as int,
            specpow as int,
            0x2_0000_0000_0000_0000_0000_0000,
            FX_ONE as int,
        );
    }
    proof {
        lemma_abs_mul_le(
            s3 as int,
            specpow as int,
            0x2000_0000_0000_0000_0000_0000,
            FX_ONE as int,
        );
        crate::fixed::lemma_tdiv_div_bound(
            s3 as int * specpow as int,
            FX_ONE as int,
            0x2_0000_0000_0000_0000_0000_0000_0000,
        );
    }
    let ls = tdiv_wide(s3 * (specpow as i128), FX_ONE as i128);
    let la = fxmul_wide(KA as i128, AMB_I as i128);
    ld + ls + la
}

/// A scale-reducing product, staying wide.
fn fxmul_wide(a: i128, b: i128) -> (r: i128)
    requires
        abs_s(a as int) <= 0x8000_0000_0000_0000,
        abs_s(b as int) <= 0x8000_0000_0000_0000,
    ensures
        r == fxmul_s(a as int, b as int),
        abs_s(r as int) <= 0x1_0000_0000_0000_0000_0000_0000_0000,
{
    proof {
        lemma_abs_mul_le(a as int, b as int, 0x8000_0000_0000_0000, 0x8000_0000_0000_0000);
        lemma_tdiv_abs(a as int * b as int, FX_ONE as int);
        lemma_tdiv_div_bound(
            a as int * b as int,
            FX_ONE as int,
            0x4000_0000_0000_0000_0000_0000_0000_0000,
        );
    }
    tdiv_wide_any(a * b, FX_ONE as i128)
}

/// Truncating division by a positive divisor with no fit obligation.
fn tdiv_wide_any(a: i128, b: i128) -> (r: i128)
    requires
        0 < b,
        a > i128::MIN,
    ensures
        r == tdiv(a as int, b as int),
        abs_s(r as int) <= abs_s(a as int),
{
    tdiv_wide(a, b)
}

/// The raw dot product of two unit-scaled vectors, wide.
fn dot3_wide(a: V3, b: V3) -> (r: i128)
    requires
        abs_s(a.x as int) <= 0x2_0000,
        abs_s(a.y as int) <= 0x2_0000,
        abs_s(a.z as int) <= 0x2_0000,
        abs_s(b.x as int) <= 0x2_0000,
        abs_s(b.y as int) <= 0x2_0000,
        abs_s(b.z as int) <= 0x2_0000,
    ensures
        r == dot3_raw_s(a, b),
        abs_s(r as int) <= 0xC_0000_0000,
{
    proof {
        lemma_abs_mul_le(a.x as int, b.x as int, 0x2_0000, 0x2_0000);
        lemma_abs_mul_le(a.y as int, b.y as int, 0x2_0000, 0x2_0000);
        lemma_abs_mul_le(a.z as int, b.z as int, 0x2_0000, 0x2_0000);
    }
    (a.x as i128) * (b.x as i128) + (a.y as i128) * (b.y as i128) + (a.z as i128) * (b.z as i128)
}

/// The length of a possibly-large half vector.
fn length_wide(v: V3) -> (r: i64)
    requires
        abs_s(v.x as int) <= 0x4_0000,
        abs_s(v.y as int) <= 0x4_0000,
        abs_s(v.z as int) <= 0x4_0000,
    ensures
        r == length_s(v),
        0 <= r,
{
    proof {
        lemma_abs_mul_le(v.x as int, v.x as int, 0x4_0000, 0x4_0000);
        lemma_abs_mul_le(v.y as int, v.y as int, 0x4_0000, 0x4_0000);
        lemma_abs_mul_le(v.z as int, v.z as int, 0x4_0000, 0x4_0000);
        assert((v.x as int) * (v.x as int) >= 0) by (nonlinear_arith);
        assert((v.y as int) * (v.y as int) >= 0) by (nonlinear_arith);
        assert((v.z as int) * (v.z as int) >= 0) by (nonlinear_arith);
    }
    let sum: i128 = (v.x as i128) * (v.x as i128) + (v.y as i128) * (v.y as i128) + (v.z as i128)
        * (v.z as i128);
    let r = isqrt_u64(sum as u64);
    proof {
        assert((0x8_0000 as int) * (0x8_0000 as int) > 3 * (0x4_0000 as int * 0x4_0000 as int))
            by (nonlinear_arith);
        assert((r as int) < 0x8_0000) by (nonlinear_arith)
            requires
                0 <= r as int,
                (r as int) * (r as int) <= sum as int,
                sum as int <= 3 * (0x4_0000 as int * 0x4_0000 as int),
                (0x8_0000 as int) * (0x8_0000 as int) > 3 * (0x4_0000 as int * 0x4_0000 as int),
        ;
    }
    r as i64
}

/// A unit-scaling of a possibly-large vector, staying representable.
fn unit3_wide(v: V3, len: i64) -> (r: V3)
    requires
        1 <= len,
        abs_s(v.x as int) <= 0x4_0000,
        abs_s(v.y as int) <= 0x4_0000,
        abs_s(v.z as int) <= 0x4_0000,
    ensures
        r == unit_s(v, len as int),
        abs_s(r.x as int) <= 0x2_0000,
        abs_s(r.y as int) <= 0x2_0000,
        abs_s(r.z as int) <= 0x2_0000,
{
    proof {
        lemma_abs_mul_le(v.x as int, FX_ONE as int, 0x4_0000, FX_ONE as int);
        lemma_abs_mul_le(v.y as int, FX_ONE as int, 0x4_0000, FX_ONE as int);
        lemma_abs_mul_le(v.z as int, FX_ONE as int, 0x4_0000, FX_ONE as int);
        lemma_tdiv_abs(v.x as int * FX_ONE as int, len as int);
        lemma_tdiv_abs(v.y as int * FX_ONE as int, len as int);
        lemma_tdiv_abs(v.z as int * FX_ONE as int, len as int);
    }
    V3 {
        x: unit_clamp(fxdiv(v.x, len)),
        y: unit_clamp(fxdiv(v.y, len)),
        z: unit_clamp(fxdiv(v.z, len)),
    }
}

/// The shared body of the Phong shaders for a given diffuse coefficient.
#[verifier::rlimit(100)]
fn phong_core(kd: V3, payload: &FragmentShaderPayload) -> (r: V3)
    requires
        payload_wf(*payload),
        abs_s(kd.x as int) <= 0x1_0000_0000,
        abs_s(kd.y as int) <= 0x1_0000_0000,
        abs_s(kd.z as int) <= 0x1_0000_0000,
    ensures
        r == phong_core_s(kd, *payload),
{
    let nlen = length(payload.normal);
    if nlen == 0 {
        return V3 { x: 0, y: 0, z: 0 };
    }
    let nu = unit3(payload.normal, nlen);
    let vdiff = V3 {
        x: 0 - payload.view_pos.x,
        y: 0 - payload.view_pos.y,
        z: 655360 - payload.view_pos.z,
    };
    let vlen = length(vdiff);
    if vlen == 0 {
        return V3 { x: 0, y: 0, z: 0 };
    }
    let vu = unit3(vdiff, vlen);
    let l1 = V3 { x: 1310720, y: 1310720, z: 1310720 };
    let l2 = V3 { x: -1310720, y: 1310720, z: 0 };
    let c1 = phong_light(kd, nu, vu, payload.view_pos, l1);
    let c2 = phong_light(kd, nu, vu, payload.view_pos, l2);
    V3 {
        x: sat128((c1.0 + c2.0) * 255),
        y: sat128((c1.1 + c2.1) * 255),
        z: sat128((c1.2 + c2.2) * 255),
    }
}

/// Phong shading over a fixed two-point-light rig: ambient, diffuse and
/// specular terms accumulated per light, with the interpolated vertex
/// color as the diffuse coefficient.
pub fn phong_fragment_shader(payload: &FragmentShaderPayload) -> (r: V3)
    requires
        payload_wf(*payload),
    ensures
        r == phong_shader_s(*payload),
{
    phong_core(payload.color, payload)
}

/// Textured Phong shading: the diffuse coefficient comes from the bound
/// texture's bilinear sample at the fragment's UV; with no texture bound
/// the sample is black, the shader's defined default.
pub fn texture_fragment_shader(payload: &FragmentShaderPayload, texture: Option<&Texture>) -> (r:
    V3)
    requires
        payload_wf(*payload),
        texture is Some ==> texture.unwrap().wf(),
    ensures
        texture is None ==> r == texture_shader_s(*payload, V3 { x: 0, y: 0, z: 0 }),
        texture is Some ==> r == texture_shader_s(
            *payload,
            crate::texture::sample_bilinear_s(
                texture.unwrap().img_data@,
                texture.unwrap().width as int,
                texture.unwrap().height as int,
                payload.tex_coords.x as int,
                payload.tex_coords.y as int,
            ),
        ),
{
    let tc: V3 = match texture {
        None => V3 { x: 0, y: 0, z: 0 },
        Some(t) => t.getColorBilinear(payload.tex_coords.x, payload.tex_coords.y),
    };
    let kd = V3 {
        x: clamp_kd(tdiv_wide(tc.x as i128, 255)),
        y: clamp_kd(tdiv_wide(tc.y as i128, 255)),
        z: clamp_kd(tdiv_wide(tc.z as i128, 255)),
    };
    phong_core(kd, payload)
}

/// The bump-mapping stub: the interpolated normal, scaled like a color.
/// Perturbing it through a tangent-bitangent-normal frame is the lab's
/// intended extension point.
pub fn bump_fragment_shader(payload: &FragmentShaderPayload) -> (r: V3)
    requires
        payload_wf(*payload),
    ensures
        r == bump_shader_s(*payload),
{
    V3 { x: payload.normal.x * 255, y: payload.normal.y * 255, z: payload.normal.z * 255 }
}

/// The displacement-mapping stub: no light accumulated, black out.
/// Displacing the surface through a height field is the lab's intended
/// extension point.
pub fn displacement_fragment_shader(payload: &FragmentShaderPayload) -> (r: V3)
    requires
        payload_wf(*payload),
    ensures
        r == (V3 { x: 0, y: 0, z: 0 }),
{
    V3 { x: 0, y: 0, z: 0 }
}

/// The named-method shader lookup: each known name selects its shader,
/// anything else falls back to Phong. The texture shader's asset is loaded
/// by the surrounding application when this returns `Texture`.
pub open spec fn choose_shader_s(b: Seq<u8>) -> FragmentShaderKind {
    if b == seq![110u8, 111u8, 114u8, 109u8, 97u8, 108u8] {
        FragmentShaderKind::Normal
    } else if b == seq![116u8, 101u8, 120u8, 116u8, 117u8, 114u8, 101u8] {
        FragmentShaderKind::Texture
    } else if b == seq![98u8, 117u8, 109u8, 112u8] {
        FragmentShaderKind::Bump
    } else if b == seq![
        100u8,
        105u8,
        115u8,
        112u8,
        108u8,
        97u8,
        99u8,
        101u8,
        109u8,
        101u8,
        110u8,
        116u8,
    ] {
        FragmentShaderKind::Displacement
    } else {
        FragmentShaderKind::Phong
    }
}

/// Selects the fragment shader named by `method`.
pub fn choose_shader_texture(method: &str) -> (r: FragmentShaderKind)
    ensures
        r == choose_shader_s(method.spec_bytes()),
{
    let b = method.as_bytes();
    if slice_eq_vec(b, &make_pat(0)) {
        FragmentShaderKind::Normal
    } else if slice_eq_vec(b, &make_pat(1)) {
        FragmentShaderKind::Texture
    } else if slice_eq_vec(b, &make_pat(2)) {
        FragmentShaderKind::Bump
    } else if slice_eq_vec(b, &make_pat(3)) {
        FragmentShaderKind::Displacement
    } else {
        FragmentShaderKind::Phong
    }
}

/// The byte pattern of each known shader name.
fn make_pat(which: u8) -> (r: Vec<u8>)
    ensures
        which == 0 ==> r@ == seq![110u8, 111u8, 114u8, 109u8, 97u8, 108u8],
        which == 1 ==> r@ == seq![116u8, 101u8, 120u8, 116u8, 117u8, 114u8, 101u8],
        which == 2 ==> r@ == seq![98u8, 117u8, 109u8, 112u8],
        which == 3 ==> r@ == seq![
            100u8,
            105u8,
            115u8,
            112u8,
            108u8,
            97u8,
            99u8,
            101u8,
            109u8,
            101u8,
            110u8,
            116u8,
        ],
{
    let mut r: Vec<u8> = Vec::new();
    if which == 0 {
        r.push(110);
        r.push(111);
        r.push(114);
        r.push(109);
        r.push(97);
        r.push(108);
        proof {
            assert(r@ =~= seq![110u8, 111u8, 114u8, 109u8, 97u8, 108u8]);
        }
    } else if which == 1 {
        r.push(116);
        r.push(101);
        r.push(120);
        r.push(116);
        r.push(117);
        r.push(114);
        r.push(101);
        proof {
            assert(r@ =~= seq![116u8, 101u8, 120u8, 116u8, 117u8, 114u8, 101u8]);
        }
    } else if which == 2 {
        r.push(98);
        r.push(117);
        r.push(109);
        r.push(112);
        proof {
            assert(r@ =~= seq![98u8, 117u8, 109u8, 112u8]);
        }
    } else if which == 3 {
        r.push(100);
        r.push(105);
        r.push(115);
        r.push(112);
        r.push(108);
        r.push(97);
        r.push(99);
        r.push(101);
        r.push(109);
        r.push(101);
        r.push(110);
        r.push(116);
        proof {
            assert(r@ =~= seq![
                100u8,
                105u8,
                115u8,
                112u8,
                108u8,
                97u8,
                99u8,
                101u8,
                109u8,
                101u8,
                110u8,
                116u8,
            ]);
        }
    }
    r
}

/// Whether a byte slice equals a byte vector, element for element.
fn slice_eq_vec(a: &[u8], b: &Vec<u8>) -> (r: bool)
    ensures
        r == (a@ == b@),
{
    if a.len() != b.len() {
        proof {
            assert(a@.len() != b@.len());
        }
        return false;
    }
    let n = a.len();
    let mut i: usize = 0;
    while i < n
        invariant
            i <= n,
            n == a@.len(),
            n == b@.len(),
            forall|j: int| 0 <= j < i ==> a@[j] == b@[j],
        decreases n - i,
    {
        if a[i] != b[i] {
            return false;
        }
        i = i + 1;
    }
    proof {
        assert(a@ =~= b@);
    }
    true
}

fn clamp_kd(x: i128) -> (r: i64)
    ensures
        r == clamp_kd_s(x as int),
        abs_s(r as int) <= 0x1_0000_0000,
{
    if x > 0x1_0000_0000 {
        0x1_0000_0000
    } else if x < -0x1_0000_0000 {
        -0x1_0000_0000
    } else {
        x as i64
    }
}

/// A texture argument as a specification value.
pub open spec fn opt_tex_s(texture: Option<&Texture>) -> Option<Texture> {
    match texture {
        None => None,
        Some(t) => Some(*t),
    }
}

/// What the chosen fragment shader returns on a payload, for each member
/// of the closed family.
pub open spec fn shader_out_s(
    kind: FragmentShaderKind,
    p: FragmentShaderPayload,
    tex: Option<Texture>,
) -> V3 {
    match kind {
        FragmentShaderKind::Normal => normal_shader_s(p),
        FragmentShaderKind::Phong => phong_shader_s(p),
        FragmentShaderKind::Texture => texture_shader_s(
            p,
            match tex {
                None => V3 { x: 0, y: 0, z: 0 },
                Some(t) => crate::texture::sample_bilinear_s(
                    t.img_data@,
                    t.width as int,
                    t.height as int,
                    p.tex_coords.x as int,
                    p.tex_coords.y as int,
                ),
            },
        ),
        FragmentShaderKind::Bump => bump_shader_s(p),
        FragmentShaderKind::Displacement => V3 { x: 0, y: 0, z: 0 },
    }
}

/// Runs the chosen fragment shader on a payload: the closed-dispatch
/// face of the shading stage.
pub fn run_fragment_shader(
    kind: FragmentShaderKind,
    payload: &FragmentShaderPayload,
    texture: Option<&Texture>,
) -> (r: V3)
    requires
        payload_wf(*payload),
        texture is Some ==> texture.unwrap().wf(),
    ensures
        r == shader_out_s(kind, *payload, opt_tex_s(texture)),
{
    match kind {
        FragmentShaderKind::Normal => normal_fragment_shader(payload),
        FragmentShaderKind::Phong => phong_fragment_shader(payload),
        FragmentShaderKind::Texture => texture_fragment_shader(payload, texture),
        FragmentShaderKind::Bump => bump_fragment_shader(payload),
        FragmentShaderKind::Displacement => displacement_fragment_shader(payload),
    }
}

} // verus!
