//! The texture sampler: a 2-D grid of colors with nearest-texel-pair
//! bilinear lookup in normalized UV space.
//!
//! The grid is immutable after construction and stored in the decoder's
//! native channel order; the sampler swaps channels into the rasterizer's
//! order on the way out. `v` is flipped (`v_img = (1 - v) * height`), and
//! neighbor texel indices are clamped to the grid's own bounds.

use vstd::prelude::*;
use crate::fixed::{tdiv, abs_s, FX_ONE, fxmul_s, fxmul, lemma_abs_mul_le, lemma_tdiv_abs};
use crate::matrix::V3;

verus! {

/// 255 at scale: the top of a color channel's range.
pub const COLOR_MAX: i64 = 16711680;

/// A 2-D color grid with explicit dimensions.
pub struct Texture {
    /// The color grid, row-major, in the decoder's native channel order.
    pub img_data: Vec<V3>,
    pub width: usize,
    pub height: usize,
}

/// Every channel of every texel within the 0..255 range at scale.
pub open spec fn texels_in_range(data: Seq<V3>) -> bool {
    forall|i: int|
        0 <= i < data.len() ==> 0 <= #[trigger] data[i].x <= COLOR_MAX && 0 <= data[i].y
            <= COLOR_MAX && 0 <= data[i].z <= COLOR_MAX
}

/// One 1-D linear interpolation step: `a + (b - a) * x` at scale.
pub open spec fn lerp_s(x: int, a: int, b: int) -> int {
    a + fxmul_s(b - a, x)
}

/// A clamp into the unit interval at scale.
pub open spec fn clamp01_s(u: int) -> int {
    if u < 0 {
        0
    } else if u > FX_ONE as int {
        FX_ONE as int
    } else {
        u
    }
}

impl Texture {
    /// The grid fills its dimensions, which are positive and within the
    /// engine's engineering bound on frame and grid sizes, and every
    /// texel is a color in range.
    pub open spec fn wf(self) -> bool {
        self.img_data@.len() == self.width * self.height && 0 < self.width <= 4096 && 0
            < self.height <= 4096 && texels_in_range(self.img_data@)
    }

    /// Wraps an already-decoded color grid; decoding image files belongs
    /// to the surrounding application.
    pub fn new(img_data: Vec<V3>, width: usize, height: usize) -> (r: Texture)
        requires
            img_data@.len() == width * height,
            0 < width <= 4096,
            0 < height <= 4096,
            texels_in_range(img_data@),
        ensures
            r.wf(),
            r.img_data@ == img_data@,
            r.width == width,
            r.height == height,
    {
        Texture { img_data, width, height }
    }

    /// The bilinear sample at `(u, v)`, channel-swapped into the
    /// rasterizer's order. `u` and `v` are clamped into the unit interval;
    /// see `sample_bilinear_s` for the exact texel arithmetic.
    #[verifier::rlimit(100)]
    #[allow(non_snake_case)]
    pub fn getColorBilinear(&self, u: i64, v: i64) -> (r: V3)
        requires
            self.wf(),
        ensures
            r == sample_bilinear_s(
                self.img_data@,
                self.width as int,
                self.height as int,
                u as int,
                v as int,
            ),
    {
        let w = self.width;
        let h = self.height;
        let uc = clamp01(u);
        let vc = clamp01(v);
        proof {
            assert(uc as int * w as int <= w as int * 65536) by (nonlinear_arith)
                requires
                    0 <= uc <= FX_ONE,
                    0 < w <= 4096,
            ;
            assert((FX_ONE as int - vc as int) * (h as int) <= h as int * 65536)
                by (nonlinear_arith)
                requires
                    0 <= vc <= FX_ONE,
                    0 < h <= 4096,
            ;
            assert(w as int * 65536 <= 0x10_0000_0000) by (nonlinear_arith)
                requires
                    w <= 4096,
            ;
            assert(h as int * 65536 <= 0x10_0000_0000) by (nonlinear_arith)
                requires
                    h <= 4096,
            ;
            assert(0 <= uc as int * w as int) by (nonlinear_arith)
                requires
                    0 <= uc,
                    0 < w,
            ;
            assert(0 <= (FX_ONE as int - vc as int) * (h as int)) by (nonlinear_arith)
                requires
                    vc <= FX_ONE,
                    0 < h,
            ;
        }
        let u_img: i64 = uc * (w as i64);
        let v_img: i64 = (FX_ONE - vc) * (h as i64);
        let u0 = texel_floor(u_img, w);
        let v0 = texel_floor(v_img, h);
        let sfrac = u_img - (u0 as i64) * FX_ONE;
        let tfrac = v_img - (v0 as i64) * FX_ONE;
        let u1 = if u0 + 1 < w {
            u0 + 1
        } else {
            w - 1
        };
        let v1 = if v0 + 1 < h {
            v0 + 1
        } else {
            h - 1
        };
        let c00 = self.img_data[tex_idx(v0, u0, w, h)];
        let c10 = self.img_data[tex_idx(v1, u0, w, h)];
        let c01 = self.img_data[tex_idx(v0, u1, w, h)];
        let c11 = self.img_data[tex_idx(v1, u1, w, h)];
        proof {
            assert(abs_s(c00.x as int) <= 0x1_0000_0000 && abs_s(c00.y as int) <= 0x1_0000_0000
                && abs_s(c00.z as int) <= 0x1_0000_0000);
            assert(abs_s(c10.x as int) <= 0x1_0000_0000 && abs_s(c10.y as int) <= 0x1_0000_0000
                && abs_s(c10.z as int) <= 0x1_0000_0000);
            assert(abs_s(c01.x as int) <= 0x1_0000_0000 && abs_s(c01.y as int) <= 0x1_0000_0000
                && abs_s(c01.z as int) <= 0x1_0000_0000);
            assert(abs_s(c11.x as int) <= 0x1_0000_0000 && abs_s(c11.y as int) <= 0x1_0000_0000
                && abs_s(c11.z as int) <= 0x1_0000_0000);
        }
        let color0 = lerp1(tfrac, &c00, &c10);
        let color1 = lerp1(tfrac, &c01, &c11);
        let color = lerp2(sfrac, &color0, &color1);
        V3 { x: color.z, y: color.y, z: color.x }
    }

    /// An independent copy of the texture; grids are shared by reference
    /// during a draw call and copied only at API boundaries like this one.
    pub fn duplicate(&self) -> (r: Texture)
        ensures
            r.img_data@ == self.img_data@,
            r.width == self.width,
            r.height == self.height,
            r.wf() == self.wf(),
    {
        Texture { img_data: self.img_data.clone(), width: self.width, height: self.height }
    }

    /// Whether the grid is well formed: dimensions filled and modest, and
    /// every texel a color in range. The runtime face of `wf`.
    pub fn in_range(&self) -> (r: bool)
        ensures
            r == self.wf(),
    {
        if !(0 < self.width && self.width <= 4096 && 0 < self.height && self.height <= 4096) {
            return false;
        }
        proof {
            assert(self.width as int * self.height as int <= 0x100_0000) by (nonlinear_arith)
                requires
                    self.width <= 4096,
                    self.height <= 4096,
            ;
        }
        if self.img_data.len() != self.width * self.height {
            return false;
        }
        let n = self.img_data.len();
        let mut i: usize = 0;
        while i < n
            invariant
                i <= n,
                n == self.img_data@.len(),
                forall|j: int|
                    0 <= j < i ==> 0 <= #[trigger] self.img_data@[j].x <= COLOR_MAX && 0
                        <= self.img_data@[j].y <= COLOR_MAX && 0 <= self.img_data@[j].z
                        <= COLOR_MAX,
            decreases n - i,
        {
            let c = self.img_data[i];
            if !(0 <= c.x && c.x <= COLOR_MAX && 0 <= c.y && c.y <= COLOR_MAX && 0 <= c.z && c.z
                <= COLOR_MAX) {
                return false;
            }
            i = i + 1;
        }
        true
    }
}

/// The texel row/column under a scaled image coordinate, clamped to the
/// grid: `min(floor(img / one), dim - 1)`.
pub open spec fn texel_floor_s(img: int, dim: int) -> int {
    if tdiv(img, FX_ONE as int) < dim - 1 {
        tdiv(img, FX_ONE as int)
    } else {
        dim - 1
    }
}

fn texel_floor(img: i64, dim: usize) -> (r: usize)
    requires
        0 <= img,
        img as int <= dim as int * 65536,
        0 < dim <= 4096,
    ensures
        r == texel_floor_s(img as int, dim as int),
        r < dim,
        0 <= img as int - r as int * 65536 <= 65536,
{
    proof {
        lemma_tdiv_abs(img as int, FX_ONE as int);
        vstd::arithmetic::div_mod::lemma_fundamental_div_mod(img as int, 65536);
    }
    let f = ((img as u64) / (FX_ONE as u64)) as usize;
    if f < dim - 1 {
        f
    } else {
        proof {
            assert(65536 * (img as int / 65536) >= 65536 * (dim as int - 1)) by (nonlinear_arith)
                requires
                    img as int / 65536 >= dim as int - 1,
            ;
        }
        dim - 1
    }
}

/// The flat index of texel `(row, col)`.
pub open spec fn tex_idx_s(row: int, col: int, w: int) -> int {
    row * w + col
}

fn tex_idx(row: usize, col: usize, w: usize, h: usize) -> (r: usize)
    requires
        row < h,
        col < w,
        w <= 4096,
        h <= 4096,
    ensures
        r == tex_idx_s(row as int, col as int, w as int),
        r < w * h,
{
    proof {
        assert(row as int * w as int + col < w as int * h as int) by (nonlinear_arith)
            requires
                (row as int) < (h as int),
                (col as int) < (w as int),
                0 <= row as int,
                0 <= col as int,
        ;
        assert(row as int * w as int <= 0x100_0000) by (nonlinear_arith)
            requires
                0 <= row as int,
                (row as int) < 4096,
                0 <= w as int,
                w as int <= 4096,
        ;
    }
    row * w + col
}

fn clamp01(u: i64) -> (r: i64)
    ensures
        r == clamp01_s(u as int),
        0 <= r <= FX_ONE,
{
    if u < 0 {
        0
    } else if u > FX_ONE {
        FX_ONE
    } else {
        u
    }
}

/// The whole bilinear sample, spelled out: clamp, map to image space with
/// the `v` flip, take the four clamped neighbor texels, interpolate
/// vertically then horizontally, and swap channels.
pub open spec fn sample_bilinear_s(data: Seq<V3>, w: int, h: int, u: int, v: int) -> V3 {
    let u_img = clamp01_s(u) * w;
    let v_img = (FX_ONE as int - clamp01_s(v)) * h;
    let u0 = texel_floor_s(u_img, w);
    let v0 = texel_floor_s(v_img, h);
    let sfrac = u_img - u0 * (FX_ONE as int);
    let tfrac = v_img - v0 * (FX_ONE as int);
    let u1 = if u0 + 1 < w {
        u0 + 1
    } else {
        w - 1
    };
    let v1 = if v0 + 1 < h {
        v0 + 1
    } else {
        h - 1
    };
    let c00 = data[tex_idx_s(v0, u0, w)];
    let c10 = data[tex_idx_s(v1, u0, w)];
    let c01 = data[tex_idx_s(v0, u1, w)];
    let c11 = data[tex_idx_s(v1, u1, w)];
    let e0 = lerp3_s(tfrac, c00, c10);
    let e1 = lerp3_s(tfrac, c01, c11);
    let e = lerp3_s(sfrac, e0, e1);
    V3 { x: e.z, y: e.y, z: e.x }
}

/// Componentwise linear interpolation of two colors.
pub open spec fn lerp3_s(x: int, a: V3, b: V3) -> V3 {
    V3 {
        x: lerp_s(x, a.x as int, b.x as int) as i64,
        y: lerp_s(x, a.y as int, b.y as int) as i64,
        z: lerp_s(x, a.z as int, b.z as int) as i64,
    }
}

/// The first interpolation pass of the bilinear filter.
pub fn lerp1(x: i64, v1: &V3, v2: &V3) -> (r: V3)
    requires
        0 <= x <= FX_ONE,
        abs_s(v1.x as int) <= 0x1_0000_0000,
        abs_s(v1.y as int) <= 0x1_0000_0000,
        abs_s(v1.z as int) <= 0x1_0000_0000,
        abs_s(v2.x as int) <= 0x1_0000_0000,
        abs_s(v2.y as int) <= 0x1_0000_0000,
        abs_s(v2.z as int) <= 0x1_0000_0000,
    ensures
        r == lerp3_s(x as int, *v1, *v2),
        abs_s(r.x as int) <= 0x3_0000_0000,
        abs_s(r.y as int) <= 0x3_0000_0000,
        abs_s(r.z as int) <= 0x3_0000_0000,
{
    proof {
        lemma_abs_mul_le(v2.x as int - v1.x as int, x as int, 0x2_0000_0000, FX_ONE as int);
        lemma_abs_mul_le(v2.y as int - v1.y as int, x as int, 0x2_0000_0000, FX_ONE as int);
        lemma_abs_mul_le(v2.z as int - v1.z as int, x as int, 0x2_0000_0000, FX_ONE as int);
        crate::fixed::lemma_tdiv_div_bound(
            (v2.x as int - v1.x as int) * x as int,
            FX_ONE as int,
            0x2_0000_0000 * FX_ONE as int,
        );
        crate::fixed::lemma_tdiv_div_bound(
            (v2.y as int - v1.y as int) * x as int,
            FX_ONE as int,
            0x2_0000_0000 * FX_ONE as int,
        );
        crate::fixed::lemma_tdiv_div_bound(
            (v2.z as int - v1.z as int) * x as int,
            FX_ONE as int,
            0x2_0000_0000 * FX_ONE as int,
        );
        assert(0x2_0000_0000 * FX_ONE as int / (FX_ONE as int) == 0x2_0000_0000)
            by (nonlinear_arith);
    }
    V3 {
        x: v1.x + fxmul(v2.x - v1.x, x),
        y: v1.y + fxmul(v2.y - v1.y, x),
        z: v1.z + fxmul(v2.z - v1.z, x),
    }
}

/// The second interpolation pass of the bilinear filter.
pub fn lerp2(x: i64, v1: &V3, v2: &V3) -> (r: V3)
    requires
        0 <= x <= FX_ONE,
        abs_s(v1.x as int) <= 0x3_0000_0000,
        abs_s(v1.y as int) <= 0x3_0000_0000,
        abs_s(v1.z as int) <= 0x3_0000_0000,
        abs_s(v2.x as int) <= 0x3_0000_0000,
        abs_s(v2.y as int) <= 0x3_0000_0000,
        abs_s(v2.z as int) <= 0x3_0000_0000,
    ensures
        r == lerp3_s(x as int, *v1, *v2),
{
    proof {
        lemma_abs_mul_le(v2.x as int - v1.x as int, x as int, 0x6_0000_0000, FX_ONE as int);
        lemma_abs_mul_le(v2.y as int - v1.y as int, x as int, 0x6_0000_0000, FX_ONE as int);
        lemma_abs_mul_le(v2.z as int - v1.z as int, x as int, 0x6_0000_0000, FX_ONE as int);
        crate::fixed::lemma_tdiv_div_bound(
            (v2.x as int - v1.x as int) * x as int,
            FX_ONE as int,
            0x6_0000_0000 * FX_ONE as int,
        );
        crate::fixed::lemma_tdiv_div_bound(
            (v2.y as int - v1.y as int) * x as int,
            FX_ONE as int,
            0x6_0000_0000 * FX_ONE as int,
        );
        crate::fixed::lemma_tdiv_div_bound(
            (v2.z as int - v1.z as int) * x as int,
            FX_ONE as int,
            0x6_0000_0000 * FX_ONE as int,
        );
        assert(0x6_0000_0000 * FX_ONE as int / (FX_ONE as int) == 0x6_0000_0000)
            by (nonlinear_arith);
    }
    V3 {
        x: v1.x + fxmul(v2.x - v1.x, x),
        y: v1.y + fxmul(v2.y - v1.y, x),
        z: v1.z + fxmul(v2.z - v1.z, x),
    }
}

/// A bilinear sample whose UV lands exactly on a texel returns that
/// texel's color (channel-swapped): every interpolation weight vanishes
/// at the sample point.
#[verifier::rlimit(100)]
pub proof fn lemma_bilinear_exact_at_texel(data: Seq<V3>, w: int, h: int, u: int, v: int)
    requires
        data.len() == w * h,
        0 < w <= 4096,
        0 < h <= 4096,
        texels_in_range(data),
        0 <= u <= FX_ONE,
        0 <= v <= FX_ONE,
        (u * w) % (FX_ONE as int) == 0,
        ((FX_ONE as int - v) * h) % (FX_ONE as int) == 0,
    ensures
        ({
            let c = data[tex_idx_s(
                texel_floor_s((FX_ONE as int - v) * h, h),
                texel_floor_s(u * w, w),
                w,
            )];
            sample_bilinear_s(data, w, h, u, v) == (V3 { x: c.z, y: c.y, z: c.x })
        }),
{
    let one = FX_ONE as int;
    let u_img = u * w;
    let v_img = (one - v) * h;
    assert(clamp01_s(u) == u);
    assert(clamp01_s(v) == v);
    vstd::arithmetic::mul::lemma_mul_nonnegative(u, w);
    vstd::arithmetic::mul::lemma_mul_inequality(u, one, w);
    vstd::arithmetic::mul::lemma_mul_is_commutative(one, w);
    vstd::arithmetic::mul::lemma_mul_nonnegative(one - v, h);
    vstd::arithmetic::mul::lemma_mul_inequality(one - v, one, h);
    vstd::arithmetic::mul::lemma_mul_is_commutative(one, h);
    assert(0 <= u_img <= w * one);
    assert(0 <= v_img <= h * one);
    lemma_texel_exact(u_img, w);
    lemma_texel_exact(v_img, h);
    lemma_idx_in_grid(data, w, h, texel_floor_s(v_img, h), texel_floor_s(u_img, w));
    let v1 = if texel_floor_s(v_img, h) + 1 < h {
        texel_floor_s(v_img, h) + 1
    } else {
        h - 1
    };
    let u1 = if texel_floor_s(u_img, w) + 1 < w {
        texel_floor_s(u_img, w) + 1
    } else {
        w - 1
    };
    lemma_idx_in_grid(data, w, h, v1, texel_floor_s(u_img, w));
    lemma_idx_in_grid(data, w, h, texel_floor_s(v_img, h), u1);
    lemma_idx_in_grid(data, w, h, v1, u1);
}

/// A flat texel index is within the grid.
proof fn lemma_idx_in_grid(data: Seq<V3>, w: int, h: int, row: int, col: int)
    by (nonlinear_arith)
    requires
        data.len() == w * h,
        0 <= row < h,
        0 <= col < w,
    ensures
        0 <= tex_idx_s(row, col, w) < data.len(),
{
}

/// On an exactly-aligned image coordinate the fractional weight against
/// the floored texel is zero — or the coordinate sits on the far edge,
/// where the clamped neighbor coincides and the weight cancels anyway.
proof fn lemma_texel_exact(img: int, dim: int)
    requires
        0 < dim,
        0 <= img <= dim * (FX_ONE as int),
        img % (FX_ONE as int) == 0,
    ensures
        img - texel_floor_s(img, dim) * (FX_ONE as int) == 0 || (texel_floor_s(img, dim) == dim - 1
            && texel_floor_s(img, dim) + 1 >= dim),
        0 <= texel_floor_s(img, dim) < dim,
{
    let one = FX_ONE as int;
    let q = img / one;
    vstd::arithmetic::div_mod::lemma_fundamental_div_mod(img, one);
    assert(tdiv(img, one) == q);
    assert(q * one == img);
    if q < dim - 1 {
        assert(texel_floor_s(img, dim) == q);
    } else {
        assert(texel_floor_s(img, dim) == dim - 1);
        assert(0 <= q <= dim) by (nonlinear_arith)
            requires
                q * one == img,
                0 <= img <= dim * one,
                one == 65536,
        ;
    }
}

} // verus!
