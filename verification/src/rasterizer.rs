//! The rasterizer engine: frame, depth and sub-sample buffers, the
//! buffer-handle store, screen-space projection of triangles, the
//! edge-exclusive inside test, depth testing, multi-sample coverage and the
//! luminance-edge post-process pass.
//!
//! Screen coordinates are fixed-point scalars; a pixel `(x, y)` is sampled
//! at its center `(x + 1/2, y + 1/2)`. The frame buffer is row-major with
//! the origin at the bottom left but stored top-to-bottom inverted
//! (`row = height - 1 - y`); `idx1_s` is that inversion, and every read
//! and write goes through it.

use vstd::prelude::*;
use crate::fixed::{tdiv, abs_s, FX_ONE, fxmul_s, fxdiv_s, lemma_abs_mul_le, lemma_tdiv_abs};
use crate::matrix::{V2, V3, V4, M4, mm_s};
use crate::triangle::Triangle;
use crate::texture::Texture;
use crate::shader::{
    FragmentShaderKind, VertexShaderKind, FragmentShaderPayload, shader_out_s, payload_wf,
    payload_in_range,
};

verus! {

/// Which buffer a `clear` call resets.
#[allow(dead_code)]
pub enum Buffer {
    Color,
    Depth,
    Both,
}

/// The primitive kind a draw call rasterizes.
#[allow(dead_code)]
pub enum Primitive {
    Line,
    Triangle,
}

/// Handle to a loaded position buffer.
#[derive(Clone, Copy)]
pub struct PosBufId(pub usize);

/// Handle to a loaded index buffer.
#[derive(Clone, Copy)]
pub struct IndBufId(pub usize);

/// Handle to a loaded color buffer.
#[derive(Clone, Copy)]
pub struct ColBufId(pub usize);

/// Why a draw call was rejected; the buffers are untouched in every case.
#[derive(Clone, Copy, PartialEq, Eq, Structural, Debug)]
pub enum RasterError {
    /// A handle does not name a loaded buffer.
    InvalidHandle,
    /// An index triple points past the end of the position or color list.
    IndexOutOfBounds,
    /// A transformed vertex has zero `w`: perspective division is undefined.
    Degenerate,
    /// A matrix entry or a projected coordinate exceeds the engine's range.
    OutOfRange,
}

/// Depth sentinel: farther than every representable depth.
pub const DEPTH_INF: i64 = 0x7fff_ffff_ffff_ffff;

/// Largest accepted frame dimension, in pixels: an engineering bound
/// chosen so every index and coordinate computation stays exact in the
/// fixed 64/128-bit ranges; it comfortably covers the pipeline's
/// customary 700-pixel frames.
pub const MAX_DIM: u64 = 4096;

/// Half a pixel, in fixed-point screen units.
pub const HALF_PX: i64 = 32768;

/// The engine's fixed display depth range: `z_far` (50) and `z_near` (0.1)
/// at scale, independent of the caller's projection — the documented
/// simplification of the screen-space depth remap.
pub const ENGINE_Z_FAR: i64 = 3276800;

pub const ENGINE_Z_NEAR: i64 = 6554;

/// `(ENGINE_Z_FAR - ENGINE_Z_NEAR) / 2`: the depth remap slope.
pub const DEPTH_F1: i64 = 1635123;

/// `(ENGINE_Z_FAR + ENGINE_Z_NEAR) / 2`: the depth remap offset.
pub const DEPTH_F2: i64 = 1641677;

/// Magnitude cap on screen-space coordinates fed to the geometric tests.
pub const COORD_LIMIT: i64 = 0x100_0000_0000;

/// The flat index of pixel `(x, y)`: row-inverted row-major order.
pub open spec fn idx1_s(w: int, h: int, x: int, y: int) -> int {
    (h - 1 - y) * w + x
}

/// The flat index of sub-sample `(x, y)` in the doubled-resolution scheme.
pub open spec fn idx2_s(w: int, h: int, x: int, y: int) -> int {
    (2 * h - 1 - y) * (2 * w) + x
}

proof fn lemma_idx1_bound(w: int, h: int, x: int, y: int)
    by (nonlinear_arith)
    requires
        0 < w,
        0 < h,
        0 <= x < w,
        0 <= y < h,
    ensures
        0 <= idx1_s(w, h, x, y) < w * h,
{
}

proof fn lemma_idx2_bound(w: int, h: int, x: int, y: int)
    by (nonlinear_arith)
    requires
        0 < w,
        0 < h,
        0 <= x < 2 * w,
        0 <= y < 2 * h,
    ensures
        0 <= idx2_s(w, h, x, y) < 4 * (w * h),
{
}

proof fn lemma_idx1_inj(w: int, h: int, x1: int, y1: int, x2: int, y2: int)
    by (nonlinear_arith)
    requires
        0 <= x1 < w,
        0 <= y1 < h,
        0 <= x2 < w,
        0 <= y2 < h,
        idx1_s(w, h, x1, y1) == idx1_s(w, h, x2, y2),
    ensures
        x1 == x2 && y1 == y2,
{
}

// ------------------------------------------------------------------
// The edge-exclusive inside-triangle test
// ------------------------------------------------------------------

/// Twice the signed area of the triangle `(a, b, p)`: the 2-D cross
/// product of `b - a` with `p - a`.
pub open spec fn cross2_s(ax: int, ay: int, bx: int, by: int, px: int, py: int) -> int {
    (bx - ax) * (py - ay) - (by - ay) * (px - ax)
}

/// The winding of the triangle's first three vertices in screen space.
pub open spec fn tri_orient_s(v: [V4; 3]) -> int {
    cross2_s(v[0].x as int, v[0].y as int, v[1].x as int, v[1].y as int, v[2].x as int, v[2].y as int)
}

/// The edge-exclusive inside test: normalize winding (swap the first two
/// vertices if the signed area is negative), then require the query point
/// strictly on the positive side of all three directed edges. Points
/// exactly on an edge are outside, so shared edges are never shaded twice.
pub open spec fn inside_s(x: int, y: int, v: [V4; 3]) -> bool {
    let a = if tri_orient_s(v) < 0 {
        v[1]
    } else {
        v[0]
    };
    let b = if tri_orient_s(v) < 0 {
        v[0]
    } else {
        v[1]
    };
    let c = v[2];
    cross2_s(a.x as int, a.y as int, b.x as int, b.y as int, x, y) > 0 && cross2_s(
        b.x as int,
        b.y as int,
        c.x as int,
        c.y as int,
        x,
        y,
    ) > 0 && cross2_s(c.x as int, c.y as int, a.x as int, a.y as int, x, y) > 0
}

/// All screen coordinates of the triangle within the engine's range.
pub open spec fn tri_coords_bounded(v: [V4; 3]) -> bool {
    forall|i: int|
        0 <= i < 3 ==> abs_s(v[i].x as int) <= COORD_LIMIT && abs_s(v[i].y as int) <= COORD_LIMIT
}

/// The exact 2-D cross product, computed wide.
fn cross2(ax: i64, ay: i64, bx: i64, by: i64, px: i64, py: i64) -> (r: i128)
    requires
        abs_s(ax as int) <= COORD_LIMIT,
        abs_s(ay as int) <= COORD_LIMIT,
        abs_s(bx as int) <= COORD_LIMIT,
        abs_s(by as int) <= COORD_LIMIT,
        abs_s(px as int) <= COORD_LIMIT,
        abs_s(py as int) <= COORD_LIMIT,
    ensures
        r == cross2_s(ax as int, ay as int, bx as int, by as int, px as int, py as int),
        abs_s(r as int) <= 0x8_0000_0000_0000_0000_0000,
{
    let ex: i128 = bx as i128 - ax as i128;
    let ey: i128 = py as i128 - ay as i128;
    let fx: i128 = by as i128 - ay as i128;
    let fy: i128 = px as i128 - ax as i128;
    proof {
        lemma_abs_mul_le(ex as int, ey as int, 2 * COORD_LIMIT as int, 2 * COORD_LIMIT as int);
        lemma_abs_mul_le(fx as int, fy as int, 2 * COORD_LIMIT as int, 2 * COORD_LIMIT as int);
    }
    ex * ey - fx * fy
}

/// The edge-exclusive inside test on screen coordinates.
pub fn inside_triangle(x: i64, y: i64, v: &[V4; 3]) -> (r: bool)
    requires
        abs_s(x as int) <= COORD_LIMIT,
        abs_s(y as int) <= COORD_LIMIT,
        tri_coords_bounded(*v),
    ensures
        r == inside_s(x as int, y as int, *v),
{
    let orient = cross2(v[0].x, v[0].y, v[1].x, v[1].y, v[2].x, v[2].y);
    let (a, b) = if orient < 0 {
        (v[1], v[0])
    } else {
        (v[0], v[1])
    };
    let c = v[2];
    let e0 = cross2(a.x, a.y, b.x, b.y, x, y);
    let e1 = cross2(b.x, b.y, c.x, c.y, x, y);
    let e2 = cross2(c.x, c.y, a.x, a.y, x, y);
    e0 > 0 && e1 > 0 && e2 > 0
}

// ------------------------------------------------------------------
// Screen-space barycentric coordinates
// ------------------------------------------------------------------

/// Numerator of the barycentric weight of vertex 0 at `(x, y)`: twice the
/// signed area of the sub-triangle against the edge `v1 v2`.
pub open spec fn bary_num_s(x: int, y: int, ax: int, ay: int, bx: int, by: int) -> int {
    x * (ay - by) + (bx - ax) * y + ax * by - bx * ay
}

/// The denominator of a barycentric weight: the numerator evaluated at the
/// opposite vertex.
pub open spec fn bary_den0_s(v: [V4; 3]) -> int {
    bary_num_s(v[0].x as int, v[0].y as int, v[1].x as int, v[1].y as int, v[2].x as int, v[2].y as int)
}

pub open spec fn bary_den1_s(v: [V4; 3]) -> int {
    bary_num_s(v[1].x as int, v[1].y as int, v[2].x as int, v[2].y as int, v[0].x as int, v[0].y as int)
}

pub open spec fn bary_den2_s(v: [V4; 3]) -> int {
    bary_num_s(v[2].x as int, v[2].y as int, v[0].x as int, v[0].y as int, v[1].x as int, v[1].y as int)
}

/// The three screen-space barycentric weights of `(x, y)`, each the ratio
/// of a sub-triangle area to the whole, brought to scale with one rounded
/// division.
pub open spec fn bary0_s(x: int, y: int, v: [V4; 3]) -> int {
    tdiv(
        bary_num_s(x, y, v[1].x as int, v[1].y as int, v[2].x as int, v[2].y as int) * (
        FX_ONE as int),
        bary_den0_s(v),
    )
}

pub open spec fn bary1_s(x: int, y: int, v: [V4; 3]) -> int {
    tdiv(
        bary_num_s(x, y, v[2].x as int, v[2].y as int, v[0].x as int, v[0].y as int) * (
        FX_ONE as int),
        bary_den1_s(v),
    )
}

pub open spec fn bary2_s(x: int, y: int, v: [V4; 3]) -> int {
    tdiv(
        bary_num_s(x, y, v[0].x as int, v[0].y as int, v[1].x as int, v[1].y as int) * (
        FX_ONE as int),
        bary_den2_s(v),
    )
}

/// The exact barycantric numerator, computed wide.
fn bary_num(x: i64, y: i64, ax: i64, ay: i64, bx: i64, by: i64) -> (r: i128)
    requires
        abs_s(x as int) <= COORD_LIMIT,
        abs_s(y as int) <= COORD_LIMIT,
        abs_s(ax as int) <= COORD_LIMIT,
        abs_s(ay as int) <= COORD_LIMIT,
        abs_s(bx as int) <= COORD_LIMIT,
        abs_s(by as int) <= COORD_LIMIT,
    ensures
        r == bary_num_s(x as int, y as int, ax as int, ay as int, bx as int, by as int),
        abs_s(r as int) <= 0x10_0000_0000_0000_0000_0000,
{
    let t0: i128 = ay as i128 - by as i128;
    let t1: i128 = bx as i128 - ax as i128;
    proof {
        lemma_abs_mul_le(x as int, t0 as int, COORD_LIMIT as int, 2 * COORD_LIMIT as int);
        lemma_abs_mul_le(t1 as int, y as int, 2 * COORD_LIMIT as int, COORD_LIMIT as int);
        lemma_abs_mul_le(ax as int, by as int, COORD_LIMIT as int, COORD_LIMIT as int);
        lemma_abs_mul_le(bx as int, ay as int, COORD_LIMIT as int, COORD_LIMIT as int);
    }
    (x as i128) * t0 + t1 * (y as i128) + (ax as i128) * (by as i128) - (bx as i128) * (
    ay as i128)
}

/// The screen-space barycentric weights of `(x, y)` against the
/// triangle's three vertices. The triangle must not be degenerate (each
/// denominator, twice its signed area in some vertex order, is nonzero),
/// and each weight must be representable.
pub fn compute_barycentric2d(x: i64, y: i64, v: &[V4; 3]) -> (r: (i64, i64, i64))
    requires
        abs_s(x as int) <= COORD_LIMIT,
        abs_s(y as int) <= COORD_LIMIT,
        tri_coords_bounded(*v),
        bary_den0_s(*v) != 0,
        bary_den1_s(*v) != 0,
        bary_den2_s(*v) != 0,
        crate::fixed::fits_i64(bary0_s(x as int, y as int, *v)),
        crate::fixed::fits_i64(bary1_s(x as int, y as int, *v)),
        crate::fixed::fits_i64(bary2_s(x as int, y as int, *v)),
    ensures
        r.0 == bary0_s(x as int, y as int, *v),
        r.1 == bary1_s(x as int, y as int, *v),
        r.2 == bary2_s(x as int, y as int, *v),
{
    let n0 = bary_num(x, y, v[1].x, v[1].y, v[2].x, v[2].y);
    let n1 = bary_num(x, y, v[2].x, v[2].y, v[0].x, v[0].y);
    let n2 = bary_num(x, y, v[0].x, v[0].y, v[1].x, v[1].y);
    let d0 = bary_num(v[0].x, v[0].y, v[1].x, v[1].y, v[2].x, v[2].y);
    let d1 = bary_num(v[1].x, v[1].y, v[2].x, v[2].y, v[0].x, v[0].y);
    let d2 = bary_num(v[2].x, v[2].y, v[0].x, v[0].y, v[1].x, v[1].y);
    proof {
        lemma_abs_mul_le(n0 as int, FX_ONE as int, 0x10_0000_0000_0000_0000_0000, FX_ONE as int);
        lemma_abs_mul_le(n1 as int, FX_ONE as int, 0x10_0000_0000_0000_0000_0000, FX_ONE as int);
        lemma_abs_mul_le(n2 as int, FX_ONE as int, 0x10_0000_0000_0000_0000_0000, FX_ONE as int);
    }
    let c0 = tdiv128_by(n0 * (FX_ONE as i128), d0);
    let c1 = tdiv128_by(n1 * (FX_ONE as i128), d1);
    let c2 = tdiv128_by(n2 * (FX_ONE as i128), d2);
    (c0, c1, c2)
}

// ------------------------------------------------------------------
// The engine
// ------------------------------------------------------------------

/// The rasterizer: transforms, buffer stores, and the frame, depth and
/// sub-sample buffers. Buffer handles are minted from one counter shared
/// by all three loaders, so ids strictly increase across loads of any
/// kind and are never reused; each store keeps a slot per minted id,
/// filled only where its own kind was loaded.
pub struct Rasterizer {
    model: M4,
    view: M4,
    projection: M4,
    jitter: M4,
    pos_buf: Vec<Option<Vec<V3>>>,
    ind_buf: Vec<Option<Vec<(usize, usize, usize)>>>,
    col_buf: Vec<Option<Vec<V3>>>,
    frame_buf: Vec<V3>,
    frame_buf_0: Vec<V3>,
    depth_buf: Vec<i64>,
    frame_sample: Vec<V3>,
    depth_sample: Vec<i64>,
    num_count: Vec<u32>,
    texture: Option<Texture>,
    fragment_shader: FragmentShaderKind,
    vert_shader: VertexShaderKind,
    width: u64,
    height: u64,
}

impl Rasterizer {
    /// The buffers all have the advertised sizes for the frame dimensions.
    pub open spec fn wf(self) -> bool {
        0 < self.spec_width() <= MAX_DIM && 0 < self.spec_height() <= MAX_DIM
            && self.frame_s().len() == self.spec_width() * self.spec_height()
            && self.frame0_s().len() == self.spec_width() * self.spec_height()
            && self.depth_s().len() == self.spec_width() * self.spec_height()
            && self.count_s().len() == self.spec_width() * self.spec_height()
            && self.fsample_s().len() == 4 * (self.spec_width() * self.spec_height())
            && self.dsample_s().len() == 4 * (self.spec_width() * self.spec_height())
            && self.pos_bufs_s().len() == self.next_id_s() && self.ind_bufs_s().len()
            == self.next_id_s() && self.col_bufs_s().len() == self.next_id_s()
    }

    /// The shared handle counter: every load of any kind mints the next
    /// id, so handles strictly increase across all three stores and are
    /// never reused.
    pub closed spec fn next_id_s(self) -> nat {
        self.pos_buf@.len()
    }

    pub closed spec fn model_s(self) -> M4 {
        self.model
    }

    pub closed spec fn view_s(self) -> M4 {
        self.view
    }

    pub closed spec fn projection_s(self) -> M4 {
        self.projection
    }

    pub closed spec fn jitter_s(self) -> M4 {
        self.jitter
    }

    /// The position store, slotted by shared handle id: a position list
    /// where a position handle was minted, nothing where another kind was.
    pub closed spec fn pos_bufs_s(self) -> Seq<Option<Seq<V3>>> {
        Seq::new(
            self.pos_buf@.len(),
            |i: int|
                match self.pos_buf@[i] {
                    Some(v) => Some(v@),
                    None => None,
                },
        )
    }

    /// The index store, slotted by shared handle id.
    pub closed spec fn ind_bufs_s(self) -> Seq<Option<Seq<(usize, usize, usize)>>> {
        Seq::new(
            self.ind_buf@.len(),
            |i: int|
                match self.ind_buf@[i] {
                    Some(v) => Some(v@),
                    None => None,
                },
        )
    }

    /// The color store, slotted by shared handle id.
    pub closed spec fn col_bufs_s(self) -> Seq<Option<Seq<V3>>> {
        Seq::new(
            self.col_buf@.len(),
            |i: int|
                match self.col_buf@[i] {
                    Some(v) => Some(v@),
                    None => None,
                },
        )
    }

    /// The bound texture, as grid contents and dimensions.
    pub closed spec fn texture_view_s(self) -> Option<(Seq<V3>, int, int)> {
        match self.texture {
            None => None,
            Some(t) => Some((t.img_data@, t.width as int, t.height as int)),
        }
    }

    /// The bound texture as a specification value.
    pub closed spec fn texture_s(self) -> Option<Texture> {
        self.texture
    }

    /// The selected fragment shader.
    pub closed spec fn fragment_shader_s(self) -> FragmentShaderKind {
        self.fragment_shader
    }

    /// The selected vertex shader.
    pub closed spec fn vert_shader_s(self) -> VertexShaderKind {
        self.vert_shader
    }

    pub closed spec fn spec_width(self) -> u64 {
        self.width
    }

    pub closed spec fn spec_height(self) -> u64 {
        self.height
    }

    pub closed spec fn frame_s(self) -> Seq<V3> {
        self.frame_buf@
    }

    pub closed spec fn frame0_s(self) -> Seq<V3> {
        self.frame_buf_0@
    }

    pub closed spec fn depth_s(self) -> Seq<i64> {
        self.depth_buf@
    }

    pub closed spec fn fsample_s(self) -> Seq<V3> {
        self.frame_sample@
    }

    pub closed spec fn dsample_s(self) -> Seq<i64> {
        self.depth_sample@
    }

    pub closed spec fn count_s(self) -> Seq<u32> {
        self.num_count@
    }

    /// Everything but the frame, depth, sample and count buffers unchanged:
    /// the transforms, the three handle stores, and the frame dimensions.
    pub open spec fn same_config(self, other: Rasterizer) -> bool {
        self.model_s() == other.model_s() && self.view_s() == other.view_s()
            && self.projection_s() == other.projection_s() && self.jitter_s() == other.jitter_s()
            && self.pos_bufs_s() == other.pos_bufs_s() && self.ind_bufs_s() == other.ind_bufs_s()
            && self.col_bufs_s() == other.col_bufs_s() && self.texture_view_s()
            == other.texture_view_s() && self.fragment_shader_s() == other.fragment_shader_s()
            && self.vert_shader_s() == other.vert_shader_s() && self.spec_width()
            == other.spec_width() && self.spec_height() == other.spec_height()
    }

    /// A fresh rasterizer: black frame buffers, depth and sub-sample depth
    /// at the far sentinel, coverage counters zero, no loaded buffers.
    pub fn new(w: u64, h: u64) -> (r: Rasterizer)
        requires
            0 < w <= MAX_DIM,
            0 < h <= MAX_DIM,
        ensures
            r.wf(),
            r.spec_width() == w,
            r.spec_height() == h,
            forall|i: int| 0 <= i < w * h ==> r.frame_s()[i] == (V3 { x: 0, y: 0, z: 0 }),
            forall|i: int| 0 <= i < w * h ==> r.frame0_s()[i] == (V3 { x: 0, y: 0, z: 0 }),
            forall|i: int| 0 <= i < w * h ==> r.depth_s()[i] == DEPTH_INF,
            forall|i: int| 0 <= i < w * h ==> r.count_s()[i] == 0u32,
            forall|i: int| 0 <= i < 4 * (w * h) ==> r.fsample_s()[i] == (V3 { x: 0, y: 0, z: 0 }),
            forall|i: int| 0 <= i < 4 * (w * h) ==> r.dsample_s()[i] == DEPTH_INF,
            r.pos_bufs_s().len() == 0,
            r.ind_bufs_s().len() == 0,
            r.col_bufs_s().len() == 0,
            r.texture_s() is None,
            r.fragment_shader_s() == FragmentShaderKind::Phong,
            r.vert_shader_s() == VertexShaderKind::Identity,
    {
        proof {
            assert(w as int * h as int <= 0x100_0000) by (nonlinear_arith)
                requires
                    w <= 4096,
                    h <= 4096,
            ;
        }
        let n = (w as usize) * (h as usize);
        Rasterizer {
            model: crate::matrix::m4_identity(),
            view: crate::matrix::m4_identity(),
            projection: crate::matrix::m4_identity(),
            jitter: crate::matrix::m4_identity(),
            pos_buf: Vec::new(),
            ind_buf: Vec::new(),
            col_buf: Vec::new(),
            frame_buf: fill_v3(n, V3 { x: 0, y: 0, z: 0 }),
            frame_buf_0: fill_v3(n, V3 { x: 0, y: 0, z: 0 }),
            depth_buf: fill_i64(n, DEPTH_INF),
            frame_sample: fill_v3(4 * n, V3 { x: 0, y: 0, z: 0 }),
            depth_sample: fill_i64(4 * n, DEPTH_INF),
            num_count: fill_u32(n, 0),
            texture: None,
            fragment_shader: FragmentShaderKind::Phong,
            vert_shader: VertexShaderKind::Identity,
            width: w,
            height: h,
        }
    }

    /// The flat index of pixel `(x, y)`.
    pub fn get_index1(&self, x: usize, y: usize) -> (r: usize)
        requires
            self.wf(),
            x < self.spec_width(),
            y < self.spec_height(),
        ensures
            r == idx1_s(self.spec_width() as int, self.spec_height() as int, x as int, y as int),
            r < self.spec_width() * self.spec_height(),
    {
        proof {
            lemma_idx1_bound(self.width as int, self.height as int, x as int, y as int);
            assert(self.width as int * self.height as int <= 0x100_0000) by (nonlinear_arith)
                requires
                    self.width <= 4096,
                    self.height <= 4096,
            ;
            assert((self.height as int - 1 - y as int) * self.width as int <= 0x100_0000)
                by (nonlinear_arith)
                requires
                    self.width <= 4096,
                    self.height <= 4096,
                    0 <= y < self.height,
            ;
        }
        ((self.height - 1 - (y as u64)) * self.width + (x as u64)) as usize
    }

    /// The flat index of sub-sample `(x, y)` in the doubled-resolution
    /// sample buffers.
    pub fn get_index2(&self, x: usize, y: usize) -> (r: usize)
        requires
            self.wf(),
            x < 2 * self.spec_width(),
            y < 2 * self.spec_height(),
        ensures
            r == idx2_s(self.spec_width() as int, self.spec_height() as int, x as int, y as int),
            r < 4 * (self.spec_width() * self.spec_height()),
    {
        proof {
            lemma_idx2_bound(self.width as int, self.height as int, x as int, y as int);
            assert((2 * self.height as int - 1 - y as int) * (2 * self.width as int)
                <= 0x400_0000) by (nonlinear_arith)
                requires
                    self.width <= 4096,
                    self.height <= 4096,
                    0 <= y < 2 * self.height,
            ;
        }
        ((2 * self.height - 1 - (y as u64)) * (2 * self.width) + (x as u64)) as usize
    }

    /// Writes one pixel of the main frame buffer, through the row
    /// inversion; nothing else changes.
    pub fn set_pixel(&mut self, x: usize, y: usize, color: V3)
        requires
            old(self).wf(),
            x < old(self).spec_width(),
            y < old(self).spec_height(),
        ensures
            final(self).wf(),
            final(self).same_config(*old(self)),
            final(self).frame_s() == old(self).frame_s().update(
                idx1_s(
                    old(self).spec_width() as int,
                    old(self).spec_height() as int,
                    x as int,
                    y as int,
                ),
                color,
            ),
            final(self).frame0_s() == old(self).frame0_s(),
            final(self).depth_s() == old(self).depth_s(),
            final(self).fsample_s() == old(self).fsample_s(),
            final(self).dsample_s() == old(self).dsample_s(),
            final(self).count_s() == old(self).count_s(),
    {
        let ind = self.get_index1(x, y);
        self.frame_buf[ind] = color;
    }

    /// Resets the chosen buffers: the frame buffers to the background
    /// color, the depth buffer to the far sentinel.
    pub fn clear(&mut self, buff: Buffer)
        requires
            old(self).wf(),
        ensures
            final(self).wf(),
            final(self).same_config(*old(self)),
            final(self).fsample_s() == old(self).fsample_s(),
            final(self).dsample_s() == old(self).dsample_s(),
            final(self).count_s() == old(self).count_s(),
            match buff {
                Buffer::Color => {
                    &&& final(self).frame_s() == Seq::new(
                        old(self).frame_s().len(),
                        |i: int| V3 { x: 0, y: 0, z: 0 },
                    )
                    &&& final(self).frame0_s() == Seq::new(
                        old(self).frame0_s().len(),
                        |i: int| V3 { x: 0, y: 0, z: 0 },
                    )
                    &&& final(self).depth_s() == old(self).depth_s()
                },
                Buffer::Depth => {
                    &&& final(self).depth_s() == Seq::new(
                        old(self).depth_s().len(),
                        |i: int| DEPTH_INF,
                    )
                    &&& final(self).frame_s() == old(self).frame_s()
                    &&& final(self).frame0_s() == old(self).frame0_s()
                },
                Buffer::Both => {
                    &&& final(self).frame_s() == Seq::new(
                        old(self).frame_s().len(),
                        |i: int| V3 { x: 0, y: 0, z: 0 },
                    )
                    &&& final(self).depth_s() == Seq::new(
                        old(self).depth_s().len(),
                        |i: int| DEPTH_INF,
                    )
                    &&& final(self).frame0_s() == old(self).frame0_s()
                },
            },
    {
        let n = self.frame_buf.len();
        match buff {
            Buffer::Color => {
                self.frame_buf = fill_v3(n, V3 { x: 0, y: 0, z: 0 });
                self.frame_buf_0 = fill_v3(n, V3 { x: 0, y: 0, z: 0 });
                proof {
                    assert(final(self).frame_s() =~= Seq::new(
                        old(self).frame_s().len(),
                        |i: int| V3 { x: 0, y: 0, z: 0 },
                    ));
                    assert(final(self).frame0_s() =~= Seq::new(
                        old(self).frame0_s().len(),
                        |i: int| V3 { x: 0, y: 0, z: 0 },
                    ));
                }
            },
            Buffer::Depth => {
                self.depth_buf = fill_i64(n, DEPTH_INF);
                proof {
                    assert(final(self).depth_s() =~= Seq::new(
                        old(self).depth_s().len(),
                        |i: int| DEPTH_INF,
                    ));
                }
            },
            Buffer::Both => {
                self.frame_buf = fill_v3(n, V3 { x: 0, y: 0, z: 0 });
                self.depth_buf = fill_i64(n, DEPTH_INF);
                proof {
                    assert(final(self).frame_s() =~= Seq::new(
                        old(self).frame_s().len(),
                        |i: int| V3 { x: 0, y: 0, z: 0 },
                    ));
                    assert(final(self).depth_s() =~= Seq::new(
                        old(self).depth_s().len(),
                        |i: int| DEPTH_INF,
                    ));
                }
            },
        }
    }

    pub fn set_model(&mut self, model: M4)
        ensures
            final(self).model_s() == model,
            final(self).view_s() == old(self).view_s(),
            final(self).projection_s() == old(self).projection_s(),
            final(self).jitter_s() == old(self).jitter_s(),
            buffers_unchanged(*old(self), *final(self)),
            stores_unchanged(*old(self), *final(self)),
            final(self).spec_width() == old(self).spec_width(),
            final(self).spec_height() == old(self).spec_height(),
            final(self).wf() == old(self).wf(),
    {
        self.model = model;
    }

    pub fn set_view(&mut self, view: M4)
        ensures
            final(self).view_s() == view,
            final(self).model_s() == old(self).model_s(),
            final(self).projection_s() == old(self).projection_s(),
            final(self).jitter_s() == old(self).jitter_s(),
            buffers_unchanged(*old(self), *final(self)),
            stores_unchanged(*old(self), *final(self)),
            final(self).spec_width() == old(self).spec_width(),
            final(self).spec_height() == old(self).spec_height(),
            final(self).wf() == old(self).wf(),
    {
        self.view = view;
    }

    pub fn set_projection(&mut self, projection: M4)
        ensures
            final(self).projection_s() == projection,
            final(self).model_s() == old(self).model_s(),
            final(self).view_s() == old(self).view_s(),
            final(self).jitter_s() == old(self).jitter_s(),
            buffers_unchanged(*old(self), *final(self)),
            stores_unchanged(*old(self), *final(self)),
            final(self).spec_width() == old(self).spec_width(),
            final(self).spec_height() == old(self).spec_height(),
            final(self).wf() == old(self).wf(),
    {
        self.projection = projection;
    }

    pub fn set_jitter(&mut self, jitter: M4)
        ensures
            final(self).jitter_s() == jitter,
            final(self).model_s() == old(self).model_s(),
            final(self).view_s() == old(self).view_s(),
            final(self).projection_s() == old(self).projection_s(),
            buffers_unchanged(*old(self), *final(self)),
            stores_unchanged(*old(self), *final(self)),
            final(self).spec_width() == old(self).spec_width(),
            final(self).spec_height() == old(self).spec_height(),
            final(self).wf() == old(self).wf(),
    {
        self.jitter = jitter;
    }

    /// Binds the texture the texture shader samples.
    pub fn set_texture(&mut self, tex: Texture)
        ensures
            final(self).texture_view_s() == Some((tex.img_data@, tex.width as int, tex.height as int)),
            final(self).texture_s() == Some(tex),
            final(self).fragment_shader_s() == old(self).fragment_shader_s(),
            final(self).vert_shader_s() == old(self).vert_shader_s(),
            final(self).model_s() == old(self).model_s(),
            final(self).view_s() == old(self).view_s(),
            final(self).projection_s() == old(self).projection_s(),
            final(self).jitter_s() == old(self).jitter_s(),
            buffers_unchanged(*old(self), *final(self)),
            stores_unchanged(*old(self), *final(self)),
            final(self).spec_width() == old(self).spec_width(),
            final(self).spec_height() == old(self).spec_height(),
            final(self).wf() == old(self).wf(),
    {
        self.texture = Some(tex);
    }

    /// Selects the vertex stage; only the identity pass exists today.
    pub fn set_vertex_shader(&mut self, vert_shader: VertexShaderKind)
        ensures
            final(self).vert_shader_s() == vert_shader,
            final(self).fragment_shader_s() == old(self).fragment_shader_s(),
            final(self).texture_view_s() == old(self).texture_view_s(),
            final(self).texture_s() == old(self).texture_s(),
            final(self).model_s() == old(self).model_s(),
            final(self).view_s() == old(self).view_s(),
            final(self).projection_s() == old(self).projection_s(),
            final(self).jitter_s() == old(self).jitter_s(),
            buffers_unchanged(*old(self), *final(self)),
            stores_unchanged(*old(self), *final(self)),
            final(self).spec_width() == old(self).spec_width(),
            final(self).spec_height() == old(self).spec_height(),
            final(self).wf() == old(self).wf(),
    {
        self.vert_shader = vert_shader;
    }

    /// Selects the fragment shader applied per covered pixel.
    pub fn set_fragment_shader(&mut self, frag_shader: FragmentShaderKind)
        ensures
            final(self).fragment_shader_s() == frag_shader,
            final(self).vert_shader_s() == old(self).vert_shader_s(),
            final(self).texture_view_s() == old(self).texture_view_s(),
            final(self).texture_s() == old(self).texture_s(),
            final(self).model_s() == old(self).model_s(),
            final(self).view_s() == old(self).view_s(),
            final(self).projection_s() == old(self).projection_s(),
            final(self).jitter_s() == old(self).jitter_s(),
            buffers_unchanged(*old(self), *final(self)),
            stores_unchanged(*old(self), *final(self)),
            final(self).spec_width() == old(self).spec_width(),
            final(self).spec_height() == old(self).spec_height(),
            final(self).wf() == old(self).wf(),
    {
        self.fragment_shader = frag_shader;
    }

    /// Stores a copy of the positions under a freshly minted handle; the
    /// id comes from the counter shared by all three loaders, so ids
    /// strictly increase across loads of any kind and are never reused.
    pub fn load_position(&mut self, positions: &Vec<V3>) -> (id: PosBufId)
        requires
            old(self).wf(),
        ensures
            final(self).wf(),
            id.0 == old(self).next_id_s(),
            final(self).next_id_s() == old(self).next_id_s() + 1,
            final(self).pos_bufs_s() == old(self).pos_bufs_s().push(Some(positions@)),
            final(self).ind_bufs_s() == old(self).ind_bufs_s().push(
                None::<Seq<(usize, usize, usize)>>,
            ),
            final(self).col_bufs_s() == old(self).col_bufs_s().push(None::<Seq<V3>>),
            loads_frame(*old(self), *final(self)),
    {
        let id = self.pos_buf.len();
        self.pos_buf.push(Some(positions.clone()));
        self.ind_buf.push(None);
        self.col_buf.push(None);
        proof {
            assert(final(self).pos_bufs_s() =~~= old(self).pos_bufs_s().push(Some(positions@)));
            assert(final(self).ind_bufs_s() =~~= old(self).ind_bufs_s().push(
                None::<Seq<(usize, usize, usize)>>,
            ));
            assert(final(self).col_bufs_s() =~~= old(self).col_bufs_s().push(None::<Seq<V3>>));
        }
        PosBufId(id)
    }

    /// Stores a copy of the index triples under a freshly minted handle,
    /// from the same shared counter.
    pub fn load_indices(&mut self, indices: &Vec<(usize, usize, usize)>) -> (id: IndBufId)
        requires
            old(self).wf(),
        ensures
            final(self).wf(),
            id.0 == old(self).next_id_s(),
            final(self).next_id_s() == old(self).next_id_s() + 1,
            final(self).ind_bufs_s() == old(self).ind_bufs_s().push(Some(indices@)),
            final(self).pos_bufs_s() == old(self).pos_bufs_s().push(None::<Seq<V3>>),
            final(self).col_bufs_s() == old(self).col_bufs_s().push(None::<Seq<V3>>),
            loads_frame(*old(self), *final(self)),
    {
        let id = self.pos_buf.len();
        self.pos_buf.push(None);
        self.ind_buf.push(Some(copy_triples(indices)));
        self.col_buf.push(None);
        proof {
            assert(final(self).ind_bufs_s() =~~= old(self).ind_bufs_s().push(Some(indices@)));
            assert(final(self).pos_bufs_s() =~~= old(self).pos_bufs_s().push(None::<Seq<V3>>));
            assert(final(self).col_bufs_s() =~~= old(self).col_bufs_s().push(None::<Seq<V3>>));
        }
        IndBufId(id)
    }

    /// Stores a copy of the colors under a freshly minted handle, from
    /// the same shared counter.
    pub fn load_colors(&mut self, colors: &Vec<V3>) -> (id: ColBufId)
        requires
            old(self).wf(),
        ensures
            final(self).wf(),
            id.0 == old(self).next_id_s(),
            final(self).next_id_s() == old(self).next_id_s() + 1,
            final(self).col_bufs_s() == old(self).col_bufs_s().push(Some(colors@)),
            final(self).pos_bufs_s() == old(self).pos_bufs_s().push(None::<Seq<V3>>),
            final(self).ind_bufs_s() == old(self).ind_bufs_s().push(
                None::<Seq<(usize, usize, usize)>>,
            ),
            loads_frame(*old(self), *final(self)),
    {
        let id = self.pos_buf.len();
        self.pos_buf.push(None);
        self.ind_buf.push(None);
        self.col_buf.push(Some(colors.clone()));
        proof {
            assert(final(self).col_bufs_s() =~~= old(self).col_bufs_s().push(Some(colors@)));
            assert(final(self).pos_bufs_s() =~~= old(self).pos_bufs_s().push(None::<Seq<V3>>));
            assert(final(self).ind_bufs_s() =~~= old(self).ind_bufs_s().push(
                None::<Seq<(usize, usize, usize)>>,
            ));
        }
        ColBufId(id)
    }

    /// The main frame buffer, row-inverted row-major.
    pub fn frame_buffer(&self) -> (r: &Vec<V3>)
        ensures
            r@ == self.frame_s(),
    {
        &self.frame_buf
    }
}


/// The fixed-point coordinate of a pixel's center along one axis.
pub open spec fn px_c(x: int) -> int {
    x * 65536 + 32768
}

/// What one triangle leaves in a pixel of the single-sample color buffer:
/// the triangle's flat color if the pixel center is strictly inside and
/// the representative depth is strictly nearer, the old color otherwise.
pub open spec fn simple_px_color_s(t: Triangle, x: int, y: int, c: V3, d: i64) -> V3 {
    if inside_s(px_c(x), px_c(y), t.v) && (t.v[0].z as int) < d as int {
        t.color[0]
    } else {
        c
    }
}

/// The matching depth rule: strictly-nearer wins, ties keep the old value.
pub open spec fn simple_px_depth_s(t: Triangle, x: int, y: int, d: i64) -> i64 {
    if inside_s(px_c(x), px_c(y), t.v) && (t.v[0].z as int) < d as int {
        t.v[0].z
    } else {
        d
    }
}

impl Rasterizer {
    /// Single-sample rasterization of one screen-space triangle into the
    /// intermediate color buffer and the depth buffer: every pixel follows
    /// `simple_px_color_s` / `simple_px_depth_s` at its center sample.
    #[verifier::loop_isolation(false)]
    pub fn rasterize_triangle(&mut self, t: &Triangle)
        requires
            old(self).wf(),
            tri_coords_bounded(t.v),
        ensures
            final(self).wf(),
            final(self).same_config(*old(self)),
            final(self).frame_s() == old(self).frame_s(),
            final(self).fsample_s() == old(self).fsample_s(),
            final(self).dsample_s() == old(self).dsample_s(),
            final(self).count_s() == old(self).count_s(),
            final(self).frame0_s().len() == old(self).frame0_s().len(),
            final(self).depth_s().len() == old(self).depth_s().len(),
            forall|x: int, y: int|
                0 <= x < old(self).spec_width() && 0 <= y < old(self).spec_height()
                    ==> final(self).frame0_s()[#[trigger] idx1_s(old(self).spec_width() as int, old(self).spec_height() as int, x, y)]
                    == simple_px_color_s(
                    *t,
                    x,
                    y,
                    old(self).frame0_s()[idx1_s(old(self).spec_width() as int, old(self).spec_height() as int, x, y)],
                    old(self).depth_s()[idx1_s(old(self).spec_width() as int, old(self).spec_height() as int, x, y)],
                ) && final(self).depth_s()[idx1_s(old(self).spec_width() as int, old(self).spec_height() as int, x, y)] == simple_px_depth_s(
                    *t,
                    x,
                    y,
                    old(self).depth_s()[idx1_s(old(self).spec_width() as int, old(self).spec_height() as int, x, y)],
                ),
    {
        let w = self.width as usize;
        let h = self.height as usize;
        let ghost wi = self.width as int;
        let ghost hi = self.height as int;
        let mut x: usize = 0;
        while x < w
            invariant
                x <= w,
                self.wf(),
                self.same_config(*old(self)),
                self.frame_s() == old(self).frame_s(),
                self.fsample_s() == old(self).fsample_s(),
                self.dsample_s() == old(self).dsample_s(),
                self.count_s() == old(self).count_s(),
                self.frame0_s().len() == old(self).frame0_s().len(),
                self.depth_s().len() == old(self).depth_s().len(),
                forall|xq: int, yq: int|
                    0 <= xq < wi && 0 <= yq < hi ==> if xq < x {
                        self.frame0_s()[#[trigger] idx1_s(wi, hi, xq, yq)] == simple_px_color_s(
                            *t,
                            xq,
                            yq,
                            old(self).frame0_s()[idx1_s(wi, hi, xq, yq)],
                            old(self).depth_s()[idx1_s(wi, hi, xq, yq)],
                        ) && self.depth_s()[idx1_s(wi, hi, xq, yq)] == simple_px_depth_s(
                            *t,
                            xq,
                            yq,
                            old(self).depth_s()[idx1_s(wi, hi, xq, yq)],
                        )
                    } else {
                        self.frame0_s()[#[trigger] idx1_s(wi, hi, xq, yq)] == old(self).frame0_s()[idx1_s(wi, hi, xq, yq)] && self.depth_s()[idx1_s(wi, hi, xq, yq)]
                            == old(self).depth_s()[idx1_s(wi, hi, xq, yq)]
                    },
            decreases w - x,
        {
            let mut y: usize = 0;
            while y < h
                invariant
                    x < w,
                    y <= h,
                    self.wf(),
                    self.same_config(*old(self)),
                    self.frame_s() == old(self).frame_s(),
                    self.fsample_s() == old(self).fsample_s(),
                    self.dsample_s() == old(self).dsample_s(),
                    self.count_s() == old(self).count_s(),
                    self.frame0_s().len() == old(self).frame0_s().len(),
                    self.depth_s().len() == old(self).depth_s().len(),
                    forall|xq: int, yq: int|
                        0 <= xq < wi && 0 <= yq < hi ==> if xq < x || (xq == x && yq < y) {
                            self.frame0_s()[#[trigger] idx1_s(wi, hi, xq, yq)]
                                == simple_px_color_s(
                                *t,
                                xq,
                                yq,
                                old(self).frame0_s()[idx1_s(wi, hi, xq, yq)],
                                old(self).depth_s()[idx1_s(wi, hi, xq, yq)],
                            ) && self.depth_s()[idx1_s(wi, hi, xq, yq)] == simple_px_depth_s(
                                *t,
                                xq,
                                yq,
                                old(self).depth_s()[idx1_s(wi, hi, xq, yq)],
                            )
                        } else {
                            self.frame0_s()[#[trigger] idx1_s(wi, hi, xq, yq)] == old(
                                self,
                            ).frame0_s()[idx1_s(wi, hi, xq, yq)] && self.depth_s()[idx1_s(wi, hi, xq, yq)]
                                == old(self).depth_s()[idx1_s(wi, hi, xq, yq)]
                        },
                decreases h - y,
            {
                proof {
                    assert(x as int * 65536 + 32768 <= COORD_LIMIT) by (nonlinear_arith)
                        requires
                            0 <= x < 4096,
                    ;
                    assert(y as int * 65536 + 32768 <= COORD_LIMIT) by (nonlinear_arith)
                        requires
                            0 <= y < 4096,
                    ;
                }
                let cx = (x as i64) * (FX_ONE) + HALF_PX;
                let cy = (y as i64) * (FX_ONE) + HALF_PX;
                let hit = inside_triangle(cx, cy, &t.v);
                let ind = self.get_index1(x, y);
                if hit && t.v[0].z < self.depth_buf[ind] {
                    self.depth_buf[ind] = t.v[0].z;
                    self.frame_buf_0[ind] = t.color[0];
                }
                proof {
                    assert forall|xq: int, yq: int| 0 <= xq < wi && 0 <= yq < hi implies 0
                        <= #[trigger] idx1_s(wi, hi, xq, yq) < wi * hi by {
                        lemma_idx1_bound(wi, hi, xq, yq);
                    }
                    assert forall|xq: int, yq: int|
                        0 <= xq < wi && 0 <= yq < hi && !(xq == x && yq == y) implies #[trigger] idx1_s(
                        wi,
                        hi,
                        xq,
                        yq,
                    ) != idx1_s(wi, hi, x as int, y as int) by {
                        if idx1_s(wi, hi, xq, yq) == idx1_s(wi, hi, x as int, y as int) {
                            lemma_idx1_inj(wi, hi, xq, yq, x as int, y as int);
                        }
                    }
                }
                y = y + 1;
            }
            x = x + 1;
        }
    }
}

/// Drawing a nearer fragment after a farther one, or the farther after
/// the nearer, leaves the same pixel either way: the nearer fragment's
/// color. Depth testing makes pixel results independent of submission
/// order.
pub proof fn lemma_depth_test_order_independent(
    a: Triangle,
    b: Triangle,
    x: int,
    y: int,
    c: V3,
    d: i64,
)
    requires
        inside_s(px_c(x), px_c(y), a.v),
        inside_s(px_c(x), px_c(y), b.v),
        (b.v[0].z as int) < (a.v[0].z as int),
        (a.v[0].z as int) < d as int,
    ensures
        simple_px_color_s(
            b,
            x,
            y,
            simple_px_color_s(a, x, y, c, d),
            simple_px_depth_s(a, x, y, d),
        ) == b.color[0],
        simple_px_color_s(
            a,
            x,
            y,
            simple_px_color_s(b, x, y, c, d),
            simple_px_depth_s(b, x, y, d),
        ) == b.color[0],
        simple_px_depth_s(b, x, y, simple_px_depth_s(a, x, y, d)) == b.v[0].z,
        simple_px_depth_s(a, x, y, simple_px_depth_s(b, x, y, d)) == b.v[0].z,
{
}

// ------------------------------------------------------------------
// The luminance-edge post-process pass
// ------------------------------------------------------------------

/// Luminance weights (0.299, 0.587, 0.114) at scale; they sum to one.
pub const LUMA_R: i64 = 19595;

pub const LUMA_G: i64 = 38470;

pub const LUMA_B: i64 = 7471;

/// The absolute edge threshold (0.005 at scale).
pub const ABS_LUMA: i64 = 328;

/// The relative edge threshold (0.001 at scale).
pub const REL_LUMA: i64 = 66;

/// Magnitude cap on the colors the post-process pass accepts.
pub const PASS_COLOR_LIMIT: i64 = 0x100_0000_0000;

/// The luminance of a color: its dot product with the luma weights.
pub open spec fn luma_s(c: V3) -> int {
    fxmul_s(c.x as int, LUMA_R as int) + fxmul_s(c.y as int, LUMA_G as int) + fxmul_s(
        c.z as int,
        LUMA_B as int,
    )
}

pub open spec fn min_s(a: int, b: int) -> int {
    if a < b {
        a
    } else {
        b
    }
}

pub open spec fn max_s(a: int, b: int) -> int {
    if a < b {
        b
    } else {
        a
    }
}

/// Every color in the buffer within the pass's magnitude cap.
pub open spec fn colors_bounded(buf: Seq<V3>) -> bool {
    forall|i: int|
        0 <= i < buf.len() ==> abs_s(buf[i].x as int) <= PASS_COLOR_LIMIT && abs_s(
            buf[i].y as int,
        ) <= PASS_COLOR_LIMIT && abs_s(buf[i].z as int) <= PASS_COLOR_LIMIT
}

/// One pixel of the edge-aware smoothing pass over `buf`.
///
/// Border pixels copy through. Elsewhere the luminance range across the
/// five samples (the pixel and its four neighbors) decides: if it is
/// within the threshold
/// the pixel is no edge and copies through; otherwise the dominant
/// gradient direction picks a shift axis, the steeper one-sided gradient
/// picks its sign, the blend magnitude is the center's distance from the
/// neighbor average over the range, and the pixel is replaced by the
/// single source sample at the shifted, clamped coordinate.
pub open spec fn fxaa_pixel_s(buf: Seq<V3>, w: int, h: int, x: int, y: int) -> V3 {
    if x < 1 || y < 1 || x + 1 >= w || y + 1 >= h {
        buf[idx1_s(w, h, x, y)]
    } else {
        fxaa_inner_s(buf, w, h, x, y)
    }
}

/// The interior case of the smoothing pass: the five-sample luminance
/// range against the threshold, then either the copy-through or the
/// directional resample.
pub open spec fn fxaa_inner_s(buf: Seq<V3>, w: int, h: int, x: int, y: int) -> V3 {
    let center = buf[idx1_s(w, h, x, y)];
    let ln = luma_s(buf[idx1_s(w, h, x, y + 1)]);
    let le = luma_s(buf[idx1_s(w, h, x + 1, y)]);
    let ls = luma_s(buf[idx1_s(w, h, x, y - 1)]);
    let lw = luma_s(buf[idx1_s(w, h, x - 1, y)]);
    let lm = luma_s(center);
    let lmin = min_s(lm, min_s(ln, min_s(le, min_s(ls, lw))));
    let lmax = max_s(lm, max_s(ln, max_s(le, max_s(ls, lw))));
    let range = lmax - lmin;
    if range > max_s(ABS_LUMA as int, fxmul_s(REL_LUMA as int, lmax)) {
        fxaa_resample_s(buf, w, h, x, y, ln, le, ls, lw, lm, range)
    } else {
        center
    }
}

/// The directional single-tap resample of an edge pixel, given the five
/// luminances and their range.
#[verifier::opaque]
pub open spec fn fxaa_resample_s(
    buf: Seq<V3>,
    w: int,
    h: int,
    x: int,
    y: int,
    ln: int,
    le: int,
    ls: int,
    lw: int,
    lm: int,
    range: int,
) -> V3 {
    let gn = ln - lm;
    let gs = ls - lm;
    let ge = le - lm;
    let gw = lw - lm;
    let ishorz = abs_s(gn + gs) > abs_s(ge + gw);
    let ny = if ishorz {
        if abs_s(gn) - abs_s(gs) > 0 {
            1
        } else if abs_s(gn) - abs_s(gs) < 0 {
            -1
        } else {
            0
        }
    } else {
        0
    };
    let nx = if !ishorz {
        if abs_s(ge) - abs_s(gw) > 0 {
            1
        } else if abs_s(ge) - abs_s(gw) < 0 {
            -1
        } else {
            0
        }
    } else {
        0
    };
    let lavg = tdiv(le + ln + lw + ls, 4);
    let lml = abs_s(lm - lavg);
    if lml == 0 {
        buf[idx1_s(w, h, x, y)]
    } else {
        let modify = tdiv(lml * (FX_ONE as int), range);
        let sx = x * (FX_ONE as int) + nx * modify;
        let sy = y * (FX_ONE as int) + ny * modify;
        let mx = min_s(sx, (w - 1) * (FX_ONE as int));
        let my = min_s(sy, (h - 1) * (FX_ONE as int));
        let x0 = if mx < 0 {
            0
        } else {
            tdiv(mx, FX_ONE as int)
        };
        let y0 = if my < 0 {
            0
        } else {
            tdiv(my, FX_ONE as int)
        };
        buf[idx1_s(w, h, x0, y0)]
    }
}

/// A frame of one uniform color has no luminance edges, so the smoothing
/// pass returns it pixel-for-pixel unchanged.
pub proof fn lemma_fxaa_uniform(buf: Seq<V3>, w: int, h: int, c: V3)
    requires
        0 < w,
        0 < h,
        buf.len() == w * h,
        forall|i: int| 0 <= i < buf.len() ==> buf[i] == c,
    ensures
        forall|x: int, y: int|
            0 <= x < w && 0 <= y < h ==> #[trigger] fxaa_pixel_s(buf, w, h, x, y) == c,
{
    assert forall|x: int, y: int| 0 <= x < w && 0 <= y < h implies #[trigger] fxaa_pixel_s(
        buf,
        w,
        h,
        x,
        y,
    ) == c by {
        lemma_idx1_bound(w, h, x, y);
        if !(x < 1 || y < 1 || x + 1 >= w || y + 1 >= h) {
            lemma_idx1_bound(w, h, x, y + 1);
            lemma_idx1_bound(w, h, x + 1, y);
            lemma_idx1_bound(w, h, x, y - 1);
            lemma_idx1_bound(w, h, x - 1, y);
        }
    }
}

/// The luminance of a bounded color.
fn luma(c: V3) -> (r: i64)
    requires
        abs_s(c.x as int) <= PASS_COLOR_LIMIT,
        abs_s(c.y as int) <= PASS_COLOR_LIMIT,
        abs_s(c.z as int) <= PASS_COLOR_LIMIT,
    ensures
        r == luma_s(c),
        abs_s(r as int) <= 3 * PASS_COLOR_LIMIT,
{
    proof {
        lemma_abs_mul_le(c.x as int, LUMA_R as int, PASS_COLOR_LIMIT as int, FX_ONE as int);
        lemma_abs_mul_le(c.y as int, LUMA_G as int, PASS_COLOR_LIMIT as int, FX_ONE as int);
        lemma_abs_mul_le(c.z as int, LUMA_B as int, PASS_COLOR_LIMIT as int, FX_ONE as int);
        crate::fixed::lemma_tdiv_div_bound(
            c.x as int * LUMA_R as int,
            FX_ONE as int,
            PASS_COLOR_LIMIT as int * FX_ONE as int,
        );
        crate::fixed::lemma_tdiv_div_bound(
            c.y as int * LUMA_G as int,
            FX_ONE as int,
            PASS_COLOR_LIMIT as int * FX_ONE as int,
        );
        crate::fixed::lemma_tdiv_div_bound(
            c.z as int * LUMA_B as int,
            FX_ONE as int,
            PASS_COLOR_LIMIT as int * FX_ONE as int,
        );
        assert(PASS_COLOR_LIMIT as int * FX_ONE as int / (FX_ONE as int)
            == PASS_COLOR_LIMIT as int) by (nonlinear_arith);
    }
    crate::fixed::fxmul(c.x, LUMA_R) + crate::fixed::fxmul(c.y, LUMA_G) + crate::fixed::fxmul(
        c.z,
        LUMA_B,
    )
}

impl Rasterizer {
    /// One smoothed pixel, read from the intermediate buffer.
    #[verifier::rlimit(100)]
    #[verifier::spinoff_prover]
    fn fxaa_pixel(&self, x: usize, y: usize) -> (r: V3)
        requires
            self.wf(),
            x < self.spec_width(),
            y < self.spec_height(),
            colors_bounded(self.frame0_s()),
        ensures
            r == fxaa_pixel_s(
                self.frame0_s(),
                self.spec_width() as int,
                self.spec_height() as int,
                x as int,
                y as int,
            ),
    {
        let w = self.width as usize;
        let h = self.height as usize;
        if x < 1 || y < 1 || x + 1 >= w || y + 1 >= h {
            return self.frame_buf_0[self.get_index1(x, y)];
        }
        self.fxaa_inner(x, y)
    }

    /// The five luminances around an interior pixel: north, east, south,
    /// west, center.
    #[verifier::rlimit(100)]
    #[verifier::spinoff_prover]
    fn fxaa_lumas(&self, x: usize, y: usize) -> (r: (i64, i64, i64, i64, i64))
        requires
            self.wf(),
            1 <= x,
            x as int + 1 < self.spec_width(),
            1 <= y,
            y as int + 1 < self.spec_height(),
            colors_bounded(self.frame0_s()),
        ensures
            ({
                let wi = self.spec_width() as int;
                let hi = self.spec_height() as int;
                &&& r.0 == luma_s(self.frame0_s()[idx1_s(wi, hi, x as int, y as int + 1)])
                &&& r.1 == luma_s(self.frame0_s()[idx1_s(wi, hi, x as int + 1, y as int)])
                &&& r.2 == luma_s(self.frame0_s()[idx1_s(wi, hi, x as int, y as int - 1)])
                &&& r.3 == luma_s(self.frame0_s()[idx1_s(wi, hi, x as int - 1, y as int)])
                &&& r.4 == luma_s(self.frame0_s()[idx1_s(wi, hi, x as int, y as int)])
            }),
            abs_s(r.0 as int) <= 3 * PASS_COLOR_LIMIT,
            abs_s(r.1 as int) <= 3 * PASS_COLOR_LIMIT,
            abs_s(r.2 as int) <= 3 * PASS_COLOR_LIMIT,
            abs_s(r.3 as int) <= 3 * PASS_COLOR_LIMIT,
            abs_s(r.4 as int) <= 3 * PASS_COLOR_LIMIT,
    {
        let ln = luma(self.frame_buf_0[self.get_index1(x, y + 1)]);
        let le = luma(self.frame_buf_0[self.get_index1(x + 1, y)]);
        let ls = luma(self.frame_buf_0[self.get_index1(x, y - 1)]);
        let lw = luma(self.frame_buf_0[self.get_index1(x - 1, y)]);
        let lm = luma(self.frame_buf_0[self.get_index1(x, y)]);
        (ln, le, ls, lw, lm)
    }

    /// The interior case of one smoothed pixel.
    #[verifier::rlimit(100)]
    #[verifier::spinoff_prover]
    fn fxaa_inner(&self, x: usize, y: usize) -> (r: V3)
        requires
            self.wf(),
            1 <= x,
            x as int + 1 < self.spec_width(),
            1 <= y,
            y as int + 1 < self.spec_height(),
            colors_bounded(self.frame0_s()),
        ensures
            r == fxaa_inner_s(
                self.frame0_s(),
                self.spec_width() as int,
                self.spec_height() as int,
                x as int,
                y as int,
            ),
    {
        let center = self.frame_buf_0[self.get_index1(x, y)];
        let (ln, le, ls, lw, lm) = self.fxaa_lumas(x, y);
        let lmin = crate::fixed::min(
            lm,
            crate::fixed::min(ln, crate::fixed::min(le, crate::fixed::min(ls, lw))),
        );
        let lmax = crate::fixed::max(
            lm,
            crate::fixed::max(ln, crate::fixed::max(le, crate::fixed::max(ls, lw))),
        );
        let range = lmax - lmin;
        proof {
            lemma_abs_mul_le(REL_LUMA as int, lmax as int, FX_ONE as int, 0x10_0000_0000_0000);
            lemma_tdiv_abs(REL_LUMA as int * lmax as int, FX_ONE as int);
        }
        let threshold = crate::fixed::max(ABS_LUMA, crate::fixed::fxmul(REL_LUMA, lmax));
        if !(range > threshold) {
            proof {
                assert(fxaa_inner_s(
                    self.frame0_s(),
                    self.spec_width() as int,
                    self.spec_height() as int,
                    x as int,
                    y as int,
                ) == center);
            }
            return center;
        }
        self.fxaa_resample(x, y, ln, le, ls, lw, lm, range)
    }

    /// The directional resample of one edge pixel.
    #[verifier::rlimit(100)]
    fn fxaa_resample(
        &self,
        x: usize,
        y: usize,
        ln: i64,
        le: i64,
        ls: i64,
        lw: i64,
        lm: i64,
        range: i64,
    ) -> (r: V3)
        requires
            self.wf(),
            x < self.spec_width(),
            y < self.spec_height(),
            abs_s(ln as int) <= 3 * PASS_COLOR_LIMIT,
            abs_s(le as int) <= 3 * PASS_COLOR_LIMIT,
            abs_s(ls as int) <= 3 * PASS_COLOR_LIMIT,
            abs_s(lw as int) <= 3 * PASS_COLOR_LIMIT,
            abs_s(lm as int) <= 3 * PASS_COLOR_LIMIT,
            0 < range <= 6 * PASS_COLOR_LIMIT,
        ensures
            r == fxaa_resample_s(
                self.frame0_s(),
                self.spec_width() as int,
                self.spec_height() as int,
                x as int,
                y as int,
                ln as int,
                le as int,
                ls as int,
                lw as int,
                lm as int,
                range as int,
            ),
    {
        proof {
            reveal(fxaa_resample_s);
        }
        let w = self.width as usize;
        let h = self.height as usize;
        let gn = ln - lm;
        let gs = ls - lm;
        let ge = le - lm;
        let gw = lw - lm;
        let g1 = abs_i64(gn + gs);
        let g2 = abs_i64(ge + gw);
        let ishorz = g1 > g2;
        let ny: i64 = if ishorz {
            sign_of(abs_i64(gn) - abs_i64(gs))
        } else {
            0
        };
        let nx: i64 = if !ishorz {
            sign_of(abs_i64(ge) - abs_i64(gw))
        } else {
            0
        };
        let lavg = crate::fixed::tdiv128(le as i128 + ln as i128 + lw as i128 + ls as i128, 4);
        let lml = abs_i64(lm - lavg);
        if lml == 0 {
            return self.frame_buf_0[self.get_index1(x, y)];
        }
        proof {
            lemma_abs_mul_le(lml as int, FX_ONE as int, 0x40_0000_0000_0000, FX_ONE as int);
            lemma_tdiv_abs(lml as int * FX_ONE as int, range as int);
        }
        let modify = crate::fixed::tdiv128((lml as i128) * (FX_ONE as i128), range as u64);
        proof {
            lemma_abs_mul_le(nx as int, modify as int, 1, 0x7fff_ffff_ffff_ffff);
            lemma_abs_mul_le(ny as int, modify as int, 1, 0x7fff_ffff_ffff_ffff);
        }
        let sx: i128 = (x as i128) * (FX_ONE as i128) + (nx as i128) * (modify as i128);
        let sy: i128 = (y as i128) * (FX_ONE as i128) + (ny as i128) * (modify as i128);
        let mx: i128 = min128(sx, ((w - 1) as i128) * (FX_ONE as i128));
        let my: i128 = min128(sy, ((h - 1) as i128) * (FX_ONE as i128));
        proof {
            lemma_tdiv_abs(mx as int, FX_ONE as int);
            lemma_tdiv_abs(my as int, FX_ONE as int);
            assert((w as int - 1) * (FX_ONE as int) / (FX_ONE as int) == w as int - 1)
                by (nonlinear_arith)
                requires
                    1 <= w,
            ;
            assert((h as int - 1) * (FX_ONE as int) / (FX_ONE as int) == h as int - 1)
                by (nonlinear_arith)
                requires
                    1 <= h,
            ;
            if mx as int >= 0 {
                crate::fixed::lemma_tdiv_div_bound(
                    mx as int,
                    FX_ONE as int,
                    (w as int - 1) * (FX_ONE as int),
                );
            }
            if my as int >= 0 {
                crate::fixed::lemma_tdiv_div_bound(
                    my as int,
                    FX_ONE as int,
                    (h as int - 1) * (FX_ONE as int),
                );
            }
        }
        let x0: usize = if mx < 0 {
            0
        } else {
            crate::fixed::tdiv128(mx, FX_ONE as u64) as usize
        };
        let y0: usize = if my < 0 {
            0
        } else {
            crate::fixed::tdiv128(my, FX_ONE as u64) as usize
        };
        self.frame_buf_0[self.get_index1(x0, y0)]
    }

    /// The edge-aware smoothing pass: every pixel of the main frame buffer
    /// becomes `fxaa_pixel_s` of the intermediate buffer, which itself is
    /// left untouched. A frame whose colors exceed the pass's range is
    /// rejected whole, with nothing written.
    #[verifier::loop_isolation(false)]
    pub fn fxaa_pass(&mut self) -> (res: Result<(), RasterError>)
        requires
            old(self).wf(),
        ensures
            final(self).wf(),
            final(self).same_config(*old(self)),
            final(self).frame0_s() == old(self).frame0_s(),
            final(self).depth_s() == old(self).depth_s(),
            final(self).fsample_s() == old(self).fsample_s(),
            final(self).dsample_s() == old(self).dsample_s(),
            final(self).count_s() == old(self).count_s(),
            res == Ok::<(), RasterError>(()) <==> colors_bounded(old(self).frame0_s()),
            res is Err ==> final(self).frame_s() == old(self).frame_s() && res == Err::<
                (),
                RasterError,
            >(RasterError::OutOfRange),
            res is Ok ==> final(self).frame_s().len() == old(self).frame_s().len() && forall|
                x: int,
                y: int,
            |
                0 <= x < old(self).spec_width() && 0 <= y < old(self).spec_height()
                    ==> final(self).frame_s()[#[trigger] idx1_s(
                    old(self).spec_width() as int,
                    old(self).spec_height() as int,
                    x,
                    y,
                )] == fxaa_pixel_s(
                    old(self).frame0_s(),
                    old(self).spec_width() as int,
                    old(self).spec_height() as int,
                    x,
                    y,
                ),
    {
        if !self.colors_in_range() {
            return Err(RasterError::OutOfRange);
        }
        let w = self.width as usize;
        let h = self.height as usize;
        let ghost wi = self.width as int;
        let ghost hi = self.height as int;
        let mut x: usize = 0;
        while x < w
            invariant
                x <= w,
                self.wf(),
                self.same_config(*old(self)),
                self.frame0_s() == old(self).frame0_s(),
                self.depth_s() == old(self).depth_s(),
                self.fsample_s() == old(self).fsample_s(),
                self.dsample_s() == old(self).dsample_s(),
                self.count_s() == old(self).count_s(),
                self.frame_s().len() == old(self).frame_s().len(),
                colors_bounded(self.frame0_s()),
                forall|xq: int, yq: int|
                    0 <= xq < wi && 0 <= yq < hi && xq < x ==> self.frame_s()[#[trigger] idx1_s(
                        wi,
                        hi,
                        xq,
                        yq,
                    )] == fxaa_pixel_s(old(self).frame0_s(), wi, hi, xq, yq),
            decreases w - x,
        {
            let mut y: usize = 0;
            while y < h
                invariant
                    x < w,
                    y <= h,
                    self.wf(),
                    self.same_config(*old(self)),
                    self.frame0_s() == old(self).frame0_s(),
                    self.depth_s() == old(self).depth_s(),
                    self.fsample_s() == old(self).fsample_s(),
                    self.dsample_s() == old(self).dsample_s(),
                    self.count_s() == old(self).count_s(),
                    self.frame_s().len() == old(self).frame_s().len(),
                    colors_bounded(self.frame0_s()),
                    forall|xq: int, yq: int|
                        0 <= xq < wi && 0 <= yq < hi && (xq < x || (xq == x && yq < y))
                            ==> self.frame_s()[#[trigger] idx1_s(wi, hi, xq, yq)] == fxaa_pixel_s(
                            old(self).frame0_s(),
                            wi,
                            hi,
                            xq,
                            yq,
                        ),
                decreases h - y,
            {
                let c = self.fxaa_pixel(x, y);
                let ind = self.get_index1(x, y);
                self.frame_buf[ind] = c;
                proof {
                    assert forall|xq: int, yq: int| 0 <= xq < wi && 0 <= yq < hi implies 0
                        <= #[trigger] idx1_s(wi, hi, xq, yq) < wi * hi by {
                        lemma_idx1_bound(wi, hi, xq, yq);
                    }
                    assert forall|xq: int, yq: int|
                        0 <= xq < wi && 0 <= yq < hi && !(xq == x && yq == y) implies #[trigger] idx1_s(
                        wi,
                        hi,
                        xq,
                        yq,
                    ) != idx1_s(wi, hi, x as int, y as int) by {
                        if idx1_s(wi, hi, xq, yq) == idx1_s(wi, hi, x as int, y as int) {
                            lemma_idx1_inj(wi, hi, xq, yq, x as int, y as int);
                        }
                    }
                }
                y = y + 1;
            }
            x = x + 1;
        }
        Ok(())
    }

    /// Whether every color in the intermediate buffer is within the
    /// post-process pass's range.
    fn colors_in_range(&self) -> (r: bool)
        ensures
            r == colors_bounded(self.frame0_s()),
    {
        let mut i: usize = 0;
        let n = self.frame_buf_0.len();
        while i < n
            invariant
                i <= n,
                n == self.frame0_s().len(),
                forall|j: int|
                    0 <= j < i ==> abs_s(#[trigger] self.frame0_s()[j].x as int)
                        <= PASS_COLOR_LIMIT && abs_s(self.frame0_s()[j].y as int)
                        <= PASS_COLOR_LIMIT && abs_s(self.frame0_s()[j].z as int)
                        <= PASS_COLOR_LIMIT,
            decreases n - i,
        {
            let c = self.frame_buf_0[i];
            if !(abs_i64_ok(c.x) && abs_i64_ok(c.y) && abs_i64_ok(c.z)) {
                return false;
            }
            i = i + 1;
        }
        true
    }
}

/// Whether a scalar is within the post-process pass's range.
fn abs_i64_ok(a: i64) -> (r: bool)
    ensures
        r == (abs_s(a as int) <= PASS_COLOR_LIMIT),
{
    -PASS_COLOR_LIMIT <= a && a <= PASS_COLOR_LIMIT
}

/// |a|, staying in range because the inputs are bounded sums of lumas.
fn abs_i64(a: i64) -> (r: i64)
    requires
        a != i64::MIN,
    ensures
        r == abs_s(a as int),
{
    if a < 0 {
        -a
    } else {
        a
    }
}

/// The sign of a scalar: one, minus one, or zero.
fn sign_of(d: i64) -> (r: i64)
    ensures
        r == if d > 0 {
            1int
        } else if d < 0 {
            -1int
        } else {
            0int
        },
{
    if d > 0 {
        1
    } else if d < 0 {
        -1
    } else {
        0
    }
}

/// The smaller of two wide scalars.
fn min128(a: i128, b: i128) -> (r: i128)
    ensures
        r == min_s(a as int, b as int),
{
    if a < b {
        a
    } else {
        b
    }
}

// ------------------------------------------------------------------
// The draw call
// ------------------------------------------------------------------

/// Magnitude cap on coordinates after perspective division (2^24 at
/// scale, 256 in canonical-volume units).
pub const NDC_LIMIT: i64 = 0x100_0000;

/// A position's components within the matrix product range.
pub open spec fn pos_ok_s(p: V3) -> bool {
    abs_s(p.x as int) <= crate::matrix::M4_LIMIT && abs_s(p.y as int) <= crate::matrix::M4_LIMIT
        && abs_s(p.z as int) <= crate::matrix::M4_LIMIT
}

/// Clip-space component `i` of a position under `mvp`.
pub open spec fn clip_i_s(mvp: M4, p: V3, i: int) -> int {
    crate::matrix::mv_e_s(mvp, V4 { x: p.x, y: p.y, z: p.z, w: FX_ONE }, i)
}

/// Component `i` after perspective division.
pub open spec fn ndc_i_s(mvp: M4, p: V3, i: int) -> int {
    tdiv(clip_i_s(mvp, p, i) * (FX_ONE as int), clip_i_s(mvp, p, 3))
}

/// A vertex survives projection: nonzero `w` and all divided components
/// within the canonical range.
pub open spec fn vert_ok_s(mvp: M4, p: V3) -> bool {
    pos_ok_s(p) && clip_i_s(mvp, p, 3) != 0 && abs_s(ndc_i_s(mvp, p, 0)) <= NDC_LIMIT && abs_s(
        ndc_i_s(mvp, p, 1),
    ) <= NDC_LIMIT && abs_s(ndc_i_s(mvp, p, 2)) <= NDC_LIMIT
}

/// The screen coordinates of a projected vertex: viewport-mapped x and y,
/// and z remapped into the engine's fixed display depth range.
pub open spec fn screen_x_s(mvp: M4, p: V3, w: int) -> int {
    tdiv(w * (ndc_i_s(mvp, p, 0) + FX_ONE as int), 2)
}

pub open spec fn screen_y_s(mvp: M4, p: V3, h: int) -> int {
    tdiv(h * (ndc_i_s(mvp, p, 1) + FX_ONE as int), 2)
}

pub open spec fn screen_z_s(mvp: M4, p: V3) -> int {
    fxmul_s(ndc_i_s(mvp, p, 2), DEPTH_F1 as int) + DEPTH_F2 as int
}

/// The screen-space triangle a draw call derives from one index triple:
/// projected vertices with unit `w`, the gathered per-vertex colors, and
/// no normals or texture coordinates.
pub open spec fn screen_tri_s(mvp: M4, p0: V3, p1: V3, p2: V3, c0: V3, c1: V3, c2: V3, w: int, h: int) -> Triangle {
    Triangle {
        v: [
            V4 {
                x: screen_x_s(mvp, p0, w) as i64,
                y: screen_y_s(mvp, p0, h) as i64,
                z: screen_z_s(mvp, p0) as i64,
                w: FX_ONE,
            },
            V4 {
                x: screen_x_s(mvp, p1, w) as i64,
                y: screen_y_s(mvp, p1, h) as i64,
                z: screen_z_s(mvp, p1) as i64,
                w: FX_ONE,
            },
            V4 {
                x: screen_x_s(mvp, p2, w) as i64,
                y: screen_y_s(mvp, p2, h) as i64,
                z: screen_z_s(mvp, p2) as i64,
                w: FX_ONE,
            },
        ],
        color: [c0, c1, c2],
        tex_coords: [V2 { x: 0, y: 0 }, V2 { x: 0, y: 0 }, V2 { x: 0, y: 0 }],
        normal: [V3 { x: 0, y: 0, z: 0 }, V3 { x: 0, y: 0, z: 0 }, V3 { x: 0, y: 0, z: 0 }],
    }
}

/// The pixel-level fold of single-sample rasterization over a triangle
/// list, in submission order.
pub open spec fn simple_chain_s(tris: Seq<Triangle>, x: int, y: int, c: V3, d: i64) -> (V3, i64)
    decreases tris.len(),
{
    if tris.len() == 0 {
        (c, d)
    } else {
        let p = simple_chain_s(tris.drop_last(), x, y, c, d);
        (
            simple_px_color_s(tris.last(), x, y, p.0, p.1),
            simple_px_depth_s(tris.last(), x, y, p.1),
        )
    }
}

/// Whether every entry of a matrix is within `limit` in magnitude.
fn m4_bounded(m: &M4, limit: i64) -> (r: bool)
    requires
        0 < limit,
    ensures
        r == crate::matrix::bounded_m4(*m, limit as int),
{
    in_range(m.r0.x, limit) && in_range(m.r0.y, limit) && in_range(m.r0.z, limit) && in_range(
        m.r0.w,
        limit,
    ) && in_range(m.r1.x, limit) && in_range(m.r1.y, limit) && in_range(m.r1.z, limit) && in_range(
        m.r1.w,
        limit,
    ) && in_range(m.r2.x, limit) && in_range(m.r2.y, limit) && in_range(m.r2.z, limit) && in_range(
        m.r2.w,
        limit,
    ) && in_range(m.r3.x, limit) && in_range(m.r3.y, limit) && in_range(m.r3.z, limit) && in_range(
        m.r3.w,
        limit,
    )
}

fn in_range(v: i64, limit: i64) -> (r: bool)
    requires
        0 < limit,
    ensures
        r == (abs_s(v as int) <= limit),
{
    -limit <= v && v <= limit
}

/// Projects one vertex through `mvp` onto the screen, or says exactly why
/// it cannot be: an out-of-range position or divided coordinate is
/// `OutOfRange`, a zero `w` is `Degenerate`.
fn project_vertex(mvp: &M4, p: V3, w: u64, h: u64) -> (r: Result<(i64, i64, i64), RasterError>)
    requires
        crate::matrix::bounded_m4(*mvp, crate::matrix::M4_LIMIT as int),
        0 < w <= MAX_DIM,
        0 < h <= MAX_DIM,
    ensures
        r is Ok <==> vert_ok_s(*mvp, p),
        r is Ok ==> ({
            let v = r.unwrap();
            v.0 == screen_x_s(*mvp, p, w as int) && v.1 == screen_y_s(*mvp, p, h as int) && v.2
                == screen_z_s(*mvp, p) && abs_s(v.0 as int) <= COORD_LIMIT && abs_s(v.1 as int)
                <= COORD_LIMIT
        }),
        r == Err::<(i64, i64, i64), RasterError>(RasterError::Degenerate) ==> pos_ok_s(p)
            && clip_i_s(*mvp, p, 3) == 0,
        r == Err::<(i64, i64, i64), RasterError>(RasterError::OutOfRange) ==> !pos_ok_s(p) || (
        clip_i_s(*mvp, p, 3) != 0 && !vert_ok_s(*mvp, p)),
        r is Err ==> r == Err::<(i64, i64, i64), RasterError>(RasterError::Degenerate) || r
            == Err::<(i64, i64, i64), RasterError>(RasterError::OutOfRange),
{
    if !(in_range(p.x, crate::matrix::M4_LIMIT) && in_range(p.y, crate::matrix::M4_LIMIT)
        && in_range(p.z, crate::matrix::M4_LIMIT)) {
        return Err(RasterError::OutOfRange);
    }
    let clip = crate::matrix::mat_vec_mul(mvp, &V4 { x: p.x, y: p.y, z: p.z, w: FX_ONE });
    if clip.w == 0 {
        return Err(RasterError::Degenerate);
    }
    let xd = match checked_ndc(clip.x, clip.w) {
        Some(v) => v,
        None => {
            return Err(RasterError::OutOfRange);
        },
    };
    let yd = match checked_ndc(clip.y, clip.w) {
        Some(v) => v,
        None => {
            return Err(RasterError::OutOfRange);
        },
    };
    let zd = match checked_ndc(clip.z, clip.w) {
        Some(v) => v,
        None => {
            return Err(RasterError::OutOfRange);
        },
    };
    let sx = viewport_half(w, xd);
    let sy = viewport_half(h, yd);
    proof {
        lemma_abs_mul_le(zd as int, DEPTH_F1 as int, NDC_LIMIT as int, 0x20_0000);
        lemma_tdiv_abs(zd as int * DEPTH_F1 as int, FX_ONE as int);
        crate::fixed::lemma_tdiv_div_bound(
            zd as int * DEPTH_F1 as int,
            FX_ONE as int,
            NDC_LIMIT as int * 0x20_0000,
        );
    }
    let sz = crate::fixed::fxmul(zd, DEPTH_F1) + DEPTH_F2;
    Ok((sx, sy, sz))
}

/// The plain position of a triangle's vertex.
pub open spec fn tri_xyz_s(t: Triangle, i: int) -> V3 {
    V3 { x: t.v[i].x, y: t.v[i].y, z: t.v[i].z }
}

/// A vertex normal carried through the normal transform (the
/// inverse-transpose of the model-view product), as a direction with
/// zero `w`.
pub open spec fn derived_normal_s(inv_trans: M4, t: Triangle, i: int) -> V3 {
    V3 {
        x: crate::matrix::mv_e_s(
            inv_trans,
            V4 { x: t.normal[i].x, y: t.normal[i].y, z: t.normal[i].z, w: 0 },
            0,
        ) as i64,
        y: crate::matrix::mv_e_s(
            inv_trans,
            V4 { x: t.normal[i].x, y: t.normal[i].y, z: t.normal[i].z, w: 0 },
            1,
        ) as i64,
        z: crate::matrix::mv_e_s(
            inv_trans,
            V4 { x: t.normal[i].x, y: t.normal[i].y, z: t.normal[i].z, w: 0 },
            2,
        ) as i64,
    }
}

/// A vertex position in view space: the model-view product applied to it.
#[verifier::opaque]
pub open spec fn derived_vp_s(view: M4, model: M4, t: Triangle, i: int) -> V3 {
    V3 {
        x: crate::matrix::mv_e_s(mm_s(view, model), t.v[i], 0) as i64,
        y: crate::matrix::mv_e_s(mm_s(view, model), t.v[i], 1) as i64,
        z: crate::matrix::mv_e_s(mm_s(view, model), t.v[i], 2) as i64,
    }
}

/// The flat base color the shading pipeline assigns each derived vertex
/// (148, 121, 92 at scale).
pub open spec fn derived_color_s() -> V3 {
    V3 { x: 9699328, y: 7929856, z: 6029312 }
}

/// The screen-space triangle the shading pipeline derives from a mesh
/// triangle: projected vertices with unit `w`, transformed normals, the
/// flat base color, and the mesh's own texture coordinates.
#[verifier::opaque]
pub open spec fn derived_tri_s(mvp: M4, inv_trans: M4, t: Triangle, w: int, h: int) -> Triangle {
    Triangle {
        v: [
            V4 {
                x: screen_x_s(mvp, tri_xyz_s(t, 0), w) as i64,
                y: screen_y_s(mvp, tri_xyz_s(t, 0), h) as i64,
                z: screen_z_s(mvp, tri_xyz_s(t, 0)) as i64,
                w: FX_ONE,
            },
            V4 {
                x: screen_x_s(mvp, tri_xyz_s(t, 1), w) as i64,
                y: screen_y_s(mvp, tri_xyz_s(t, 1), h) as i64,
                z: screen_z_s(mvp, tri_xyz_s(t, 1)) as i64,
                w: FX_ONE,
            },
            V4 {
                x: screen_x_s(mvp, tri_xyz_s(t, 2), w) as i64,
                y: screen_y_s(mvp, tri_xyz_s(t, 2), h) as i64,
                z: screen_z_s(mvp, tri_xyz_s(t, 2)) as i64,
                w: FX_ONE,
            },
        ],
        color: [derived_color_s(), derived_color_s(), derived_color_s()],
        tex_coords: [t.tex_coords[0], t.tex_coords[1], t.tex_coords[2]],
        normal: [
            derived_normal_s(inv_trans, t, 0),
            derived_normal_s(inv_trans, t, 1),
            derived_normal_s(inv_trans, t, 2),
        ],
    }
}

/// Every vertex of the shading pipeline's input survives derivation:
/// affine position (`w` one), normal within the product range, and a
/// projectable position.
pub open spec fn new_tri_ok_s(mvp: M4, t: Triangle) -> bool {
    forall|i: int|
        0 <= i < 3 ==> (#[trigger] t.v[i]).w == FX_ONE && abs_s(t.normal[i].x as int)
            <= crate::matrix::M4_LIMIT && abs_s(t.normal[i].y as int) <= crate::matrix::M4_LIMIT
            && abs_s(t.normal[i].z as int) <= crate::matrix::M4_LIMIT && vert_ok_s(
            mvp,
            tri_xyz_s(t, i),
        )
}

impl Rasterizer {
    /// Derives the screen-space copy of one mesh triangle: positions
    /// through the model-view-projection and viewport, normals through the
    /// supplied inverse-transpose of the model-view product, the flat base
    /// color, plus the view-space vertex positions for lighting. The mesh
    /// asset itself is never mutated.
    pub fn get_new_tri(
        t: &Triangle,
        view: &M4,
        model: &M4,
        mvp: &M4,
        inv_trans: &M4,
        w: u64,
        h: u64,
    ) -> (r: Result<(Triangle, [V3; 3]), RasterError>)
        requires
            crate::matrix::bounded_m4(*view, crate::matrix::M4_LIMIT as int),
            crate::matrix::bounded_m4(*model, crate::matrix::M4_LIMIT as int),
            crate::matrix::bounded_m4(*mvp, crate::matrix::M4_LIMIT as int),
            crate::matrix::bounded_m4(*inv_trans, crate::matrix::M4_LIMIT as int),
            0 < w <= MAX_DIM,
            0 < h <= MAX_DIM,
        ensures
            r is Ok <==> crate::matrix::bounded_m4(
                mm_s(*view, *model),
                crate::matrix::M4_LIMIT as int,
            ) && new_tri_ok_s(*mvp, *t),
            r is Ok ==> ({
                let (tri, vp) = r.unwrap();
                tri == derived_tri_s(*mvp, *inv_trans, *t, w as int, h as int) && vp[0]
                    == derived_vp_s(*view, *model, *t, 0) && vp[1] == derived_vp_s(
                    *view,
                    *model,
                    *t,
                    1,
                ) && vp[2] == derived_vp_s(*view, *model, *t, 2)
            }),
            r is Err ==> r == Err::<(Triangle, [V3; 3]), RasterError>(RasterError::Degenerate) || r
                == Err::<(Triangle, [V3; 3]), RasterError>(RasterError::OutOfRange),
    {
        let vm = crate::matrix::mat_mul(view, model);
        proof {
            crate::matrix::lemma_mm_is(*view, *model, vm);
        }
        if !m4_bounded(&vm, crate::matrix::M4_LIMIT) {
            return Err(RasterError::OutOfRange);
        }
        if !(t.v[0].w == FX_ONE && t.v[1].w == FX_ONE && t.v[2].w == FX_ONE) {
            return Err(RasterError::OutOfRange);
        }
        if !(in_range(t.normal[0].x, crate::matrix::M4_LIMIT) && in_range(
            t.normal[0].y,
            crate::matrix::M4_LIMIT,
        ) && in_range(t.normal[0].z, crate::matrix::M4_LIMIT) && in_range(
            t.normal[1].x,
            crate::matrix::M4_LIMIT,
        ) && in_range(t.normal[1].y, crate::matrix::M4_LIMIT) && in_range(
            t.normal[1].z,
            crate::matrix::M4_LIMIT,
        ) && in_range(t.normal[2].x, crate::matrix::M4_LIMIT) && in_range(
            t.normal[2].y,
            crate::matrix::M4_LIMIT,
        ) && in_range(t.normal[2].z, crate::matrix::M4_LIMIT)) {
            return Err(RasterError::OutOfRange);
        }
        let s0 = match project_vertex(mvp, t.v[0].xyz(), w, h) {
            Ok(v) => v,
            Err(e) => {
                return Err(e);
            },
        };
        let s1 = match project_vertex(mvp, t.v[1].xyz(), w, h) {
            Ok(v) => v,
            Err(e) => {
                return Err(e);
            },
        };
        let s2 = match project_vertex(mvp, t.v[2].xyz(), w, h) {
            Ok(v) => v,
            Err(e) => {
                return Err(e);
            },
        };
        let vp0 = crate::matrix::mat_vec_mul(&vm, &t.v[0]).xyz();
        let vp1 = crate::matrix::mat_vec_mul(&vm, &t.v[1]).xyz();
        let vp2 = crate::matrix::mat_vec_mul(&vm, &t.v[2]).xyz();
        let n0 = crate::matrix::mat_vec_mul(
            inv_trans,
            &V4 { x: t.normal[0].x, y: t.normal[0].y, z: t.normal[0].z, w: 0 },
        ).xyz();
        let n1 = crate::matrix::mat_vec_mul(
            inv_trans,
            &V4 { x: t.normal[1].x, y: t.normal[1].y, z: t.normal[1].z, w: 0 },
        ).xyz();
        let n2 = crate::matrix::mat_vec_mul(
            inv_trans,
            &V4 { x: t.normal[2].x, y: t.normal[2].y, z: t.normal[2].z, w: 0 },
        ).xyz();
        let base = V3 { x: 9699328, y: 7929856, z: 6029312 };
        let tri = Triangle {
            v: [
                V4 { x: s0.0, y: s0.1, z: s0.2, w: FX_ONE },
                V4 { x: s1.0, y: s1.1, z: s1.2, w: FX_ONE },
                V4 { x: s2.0, y: s2.1, z: s2.2, w: FX_ONE },
            ],
            color: [base, base, base],
            tex_coords: [t.tex_coords[0], t.tex_coords[1], t.tex_coords[2]],
            normal: [n0, n1, n2],
        };
        proof {
            reveal(derived_tri_s);
            reveal(derived_vp_s);
            let d = derived_tri_s(*mvp, *inv_trans, *t, w as int, h as int);
            assert(tri.v =~= d.v);
            assert(tri.color =~= d.color);
            assert(tri.tex_coords =~= d.tex_coords);
            assert(tri.normal =~= d.normal);
        }
        Ok((tri, [vp0, vp1, vp2]))
    }
}

// ------------------------------------------------------------------
// The shader-driven variant
// ------------------------------------------------------------------

pub open spec fn min3_s(a: int, b: int, c: int) -> int {
    if a < b {
        if a < c {
            a
        } else {
            c
        }
    } else {
        if b < c {
            b
        } else {
            c
        }
    }
}

pub open spec fn max3_s(a: int, b: int, c: int) -> int {
    if a > b {
        if a > c {
            a
        } else {
            c
        }
    } else {
        if b > c {
            b
        } else {
            c
        }
    }
}

/// The clamped bounding box of a screen triangle along one axis: the
/// floored extremes, held within the viewport.
pub open spec fn bbox_lo_s(a: i64, b: i64, c: i64, dim: int) -> int {
    let f = tdiv(min3_s(a as int, b as int, c as int), FX_ONE as int);
    if f < 0 {
        0
    } else if f > dim - 1 {
        dim - 1
    } else {
        f
    }
}

pub open spec fn bbox_hi_s(a: i64, b: i64, c: i64, dim: int) -> int {
    let f = tdiv(max3_s(a as int, b as int, c as int), FX_ONE as int);
    if f > dim - 1 {
        dim - 1
    } else {
        f
    }
}

/// Whether a pixel lies in the triangle's clamped bounding box.
pub open spec fn in_bbox_s(t: Triangle, w: int, h: int, x: int, y: int) -> bool {
    bbox_lo_s(t.v[0].x, t.v[1].x, t.v[2].x, w) <= x && x <= bbox_hi_s(
        t.v[0].x,
        t.v[1].x,
        t.v[2].x,
        w,
    ) && bbox_lo_s(t.v[0].y, t.v[1].y, t.v[2].y, h) <= y && y <= bbox_hi_s(
        t.v[0].y,
        t.v[1].y,
        t.v[2].y,
        h,
    )
}

/// The fragment payload interpolated at a pixel's corner `(x, y)` (the
/// inside test samples the center; the weights are taken at the corner,
/// as the shading pipeline defines them): barycentric combination of the
/// vertex colors, normals, view-space positions and texture coordinates,
/// each with unit total weight.
pub open spec fn shade_payload_s(t: Triangle, vp: [V3; 3], x: int, y: int) -> FragmentShaderPayload {
    let b0 = bary0_s(x * 65536, y * 65536, t.v);
    let b1 = bary1_s(x * 65536, y * 65536, t.v);
    let b2 = bary2_s(x * 65536, y * 65536, t.v);
    FragmentShaderPayload {
        color: V3 {
            x: interp_s(b0, b1, b2, t.color[0].x as int, t.color[1].x as int, t.color[2].x as int, FX_ONE as int) as i64,
            y: interp_s(b0, b1, b2, t.color[0].y as int, t.color[1].y as int, t.color[2].y as int, FX_ONE as int) as i64,
            z: interp_s(b0, b1, b2, t.color[0].z as int, t.color[1].z as int, t.color[2].z as int, FX_ONE as int) as i64,
        },
        normal: V3 {
            x: interp_s(b0, b1, b2, t.normal[0].x as int, t.normal[1].x as int, t.normal[2].x as int, FX_ONE as int) as i64,
            y: interp_s(b0, b1, b2, t.normal[0].y as int, t.normal[1].y as int, t.normal[2].y as int, FX_ONE as int) as i64,
            z: interp_s(b0, b1, b2, t.normal[0].z as int, t.normal[1].z as int, t.normal[2].z as int, FX_ONE as int) as i64,
        },
        view_pos: V3 {
            x: interp_s(b0, b1, b2, vp[0].x as int, vp[1].x as int, vp[2].x as int, FX_ONE as int) as i64,
            y: interp_s(b0, b1, b2, vp[0].y as int, vp[1].y as int, vp[2].y as int, FX_ONE as int) as i64,
            z: interp_s(b0, b1, b2, vp[0].z as int, vp[1].z as int, vp[2].z as int, FX_ONE as int) as i64,
        },
        tex_coords: V2 {
            x: interp_s(b0, b1, b2, t.tex_coords[0].x as int, t.tex_coords[1].x as int, t.tex_coords[2].x as int, FX_ONE as int) as i64,
            y: interp_s(b0, b1, b2, t.tex_coords[0].y as int, t.tex_coords[1].y as int, t.tex_coords[2].y as int, FX_ONE as int) as i64,
        },
    }
}

/// The pixel's barycentric payload is representable: the three weights
/// exist (no zero sub-area denominator), stay within the interpolation
/// range, and the interpolated payload lies in the shaders' domain.
pub open spec fn shade_px_ok_s(t: Triangle, vp: [V3; 3], x: int, y: int) -> bool {
    bary_den0_s(t.v) != 0 && bary_den1_s(t.v) != 0 && bary_den2_s(t.v) != 0 && abs_s(
        bary0_s(x * 65536, y * 65536, t.v),
    ) <= INTERP_W_LIMIT && abs_s(bary1_s(x * 65536, y * 65536, t.v)) <= INTERP_W_LIMIT && abs_s(
        bary2_s(x * 65536, y * 65536, t.v),
    ) <= INTERP_W_LIMIT && payload_wf(shade_payload_s(t, vp, x, y))
}

/// What the shading pass leaves in a pixel of the main frame buffer: the
/// chosen shader's output over the interpolated payload when the center
/// is inside, the representative depth is no farther than the stored one
/// (a tie overwrites — this variant's documented difference), and the
/// payload is representable; the old color otherwise.
#[verifier::opaque]
pub open spec fn shade_px_color_s(
    t: Triangle,
    vp: [V3; 3],
    kind: FragmentShaderKind,
    tex: Option<Texture>,
    x: int,
    y: int,
    c: V3,
    d: i64,
) -> V3 {
    if inside_s(px_c(x), px_c(y), t.v) && (t.v[0].z as int) <= d as int && shade_px_ok_s(
        t,
        vp,
        x,
        y,
    ) {
        shader_out_s(kind, shade_payload_s(t, vp, x, y), tex)
    } else {
        c
    }
}

/// The matching depth rule.
#[verifier::opaque]
pub open spec fn shade_px_depth_s(t: Triangle, vp: [V3; 3], x: int, y: int, d: i64) -> i64 {
    if inside_s(px_c(x), px_c(y), t.v) && (t.v[0].z as int) <= d as int && shade_px_ok_s(
        t,
        vp,
        x,
        y,
    ) {
        t.v[0].z
    } else {
        d
    }
}

/// All interpolated attributes of the triangle within the interpolation
/// range.
pub open spec fn shade_attrs_ok_s(t: Triangle, vp: [V3; 3]) -> bool {
    forall|i: int|
        0 <= i < 3 ==> abs_s((#[trigger] t.color[i]).x as int) <= INTERP_A_LIMIT && abs_s(
            t.color[i].y as int,
        ) <= INTERP_A_LIMIT && abs_s(t.color[i].z as int) <= INTERP_A_LIMIT && abs_s(
            t.normal[i].x as int,
        ) <= INTERP_A_LIMIT && abs_s(t.normal[i].y as int) <= INTERP_A_LIMIT && abs_s(
            t.normal[i].z as int,
        ) <= INTERP_A_LIMIT && abs_s(t.tex_coords[i].x as int) <= INTERP_A_LIMIT && abs_s(
            t.tex_coords[i].y as int,
        ) <= INTERP_A_LIMIT && abs_s(vp[i].x as int) <= INTERP_A_LIMIT && abs_s(vp[i].y as int)
            <= INTERP_A_LIMIT && abs_s(vp[i].z as int) <= INTERP_A_LIMIT
}

fn shade_attrs_in_range(t: &Triangle, vp: &[V3; 3]) -> (r: bool)
    ensures
        r == shade_attrs_ok_s(*t, *vp),
{
    let l = INTERP_A_LIMIT;
    let r0 = in_range(t.color[0].x, l) && in_range(t.color[0].y, l) && in_range(t.color[0].z, l)
        && in_range(t.normal[0].x, l) && in_range(t.normal[0].y, l) && in_range(t.normal[0].z, l)
        && in_range(t.tex_coords[0].x, l) && in_range(t.tex_coords[0].y, l) && in_range(vp[0].x, l)
        && in_range(vp[0].y, l) && in_range(vp[0].z, l);
    let r1 = in_range(t.color[1].x, l) && in_range(t.color[1].y, l) && in_range(t.color[1].z, l)
        && in_range(t.normal[1].x, l) && in_range(t.normal[1].y, l) && in_range(t.normal[1].z, l)
        && in_range(t.tex_coords[1].x, l) && in_range(t.tex_coords[1].y, l) && in_range(vp[1].x, l)
        && in_range(vp[1].y, l) && in_range(vp[1].z, l);
    let r2 = in_range(t.color[2].x, l) && in_range(t.color[2].y, l) && in_range(t.color[2].z, l)
        && in_range(t.normal[2].x, l) && in_range(t.normal[2].y, l) && in_range(t.normal[2].z, l)
        && in_range(t.tex_coords[2].x, l) && in_range(t.tex_coords[2].y, l) && in_range(vp[2].x, l)
        && in_range(vp[2].y, l) && in_range(vp[2].z, l);
    r0 && r1 && r2
}

fn coords_in_range(t: &Triangle) -> (r: bool)
    ensures
        r == tri_coords_bounded(t.v),
{
    in_range(t.v[0].x, COORD_LIMIT) && in_range(t.v[0].y, COORD_LIMIT) && in_range(
        t.v[1].x,
        COORD_LIMIT,
    ) && in_range(t.v[1].y, COORD_LIMIT) && in_range(t.v[2].x, COORD_LIMIT) && in_range(
        t.v[2].y,
        COORD_LIMIT,
    )
}

/// One barycentric weight, when its denominator is nonzero and the
/// weight stays within the interpolation range.
fn bary_w_checked(num: i128, den: i128) -> (r: Option<i64>)
    requires
        abs_s(num as int) <= 0x10_0000_0000_0000_0000_0000,
        abs_s(den as int) <= 0x10_0000_0000_0000_0000_0000,
    ensures
        r is Some <==> den != 0 && abs_s(tdiv(num as int * FX_ONE as int, den as int))
            <= INTERP_W_LIMIT,
        r is Some ==> r.unwrap() as int == tdiv(num as int * FX_ONE as int, den as int),
{
    if den == 0 {
        return None;
    }
    let neg = (num < 0) != (den < 0);
    let ma: u128 = if num < 0 {
        (-num) as u128
    } else {
        num as u128
    };
    let mb: u128 = if den < 0 {
        (-den) as u128
    } else {
        den as u128
    };
    proof {
        assert(ma * 65536 < 0x1000_0000_0000_0000_0000_0000_0000) by (nonlinear_arith)
            requires
                ma <= 0x10_0000_0000_0000_0000_0000,
        ;
        assert(ma * 65536 == abs_s(num as int * FX_ONE as int)) by (nonlinear_arith)
            requires
                ma == abs_s(num as int),
        ;
        assert(((num as int) * (FX_ONE as int) < 0) == ((num as int) < 0)) by (nonlinear_arith);
    }
    let q = (ma * 65536) / mb;
    if q > INTERP_W_LIMIT as u128 {
        None
    } else {
        if neg && q != 0 {
            Some((-(q as i128)) as i64)
        } else {
            Some(q as i64)
        }
    }
}

/// One pixel after the shading pass.
pub open spec fn shade_px_done(
    t: Triangle,
    vp: [V3; 3],
    kind: FragmentShaderKind,
    tex: Option<Texture>,
    pre: Rasterizer,
    now: Rasterizer,
    x: int,
    y: int,
) -> bool {
    let wi = pre.spec_width() as int;
    let hi = pre.spec_height() as int;
    let i = idx1_s(wi, hi, x, y);
    now.frame_s()[i] == shade_px_color_s(t, vp, kind, tex, x, y, pre.frame_s()[i], pre.depth_s()[i])
        && now.depth_s()[i] == shade_px_depth_s(t, vp, x, y, pre.depth_s()[i])
}

/// One pixel untouched by the shading pass.
pub open spec fn shade_px_same(pre: Rasterizer, now: Rasterizer, x: int, y: int) -> bool {
    let wi = pre.spec_width() as int;
    let hi = pre.spec_height() as int;
    let i = idx1_s(wi, hi, x, y);
    now.frame_s()[i] == pre.frame_s()[i] && now.depth_s()[i] == pre.depth_s()[i]
}

impl Rasterizer {
    /// Shader-driven rasterization of one derived screen-space triangle:
    /// every pixel of the clamped bounding box whose center lies strictly
    /// inside and whose representative depth is no farther than the stored
    /// one (ties overwrite, this variant's documented difference) takes the
    /// chosen fragment shader's output over the payload interpolated from
    /// the vertex attributes and view-space positions; every other pixel,
    /// and every other buffer, is untouched.
    #[verifier::loop_isolation(false)]
    #[verifier::rlimit(100)]
    pub fn rasterize_triangle_shaded(
        &mut self,
        t: &Triangle,
        view_pos: &[V3; 3],
        kind: FragmentShaderKind,
        texture: Option<&Texture>,
    ) -> (res: Result<(), RasterError>)
        requires
            old(self).wf(),
        ensures
            final(self).wf(),
            final(self).same_config(*old(self)),
            final(self).frame0_s() == old(self).frame0_s(),
            final(self).fsample_s() == old(self).fsample_s(),
            final(self).dsample_s() == old(self).dsample_s(),
            final(self).count_s() == old(self).count_s(),
            final(self).frame_s().len() == old(self).frame_s().len(),
            final(self).depth_s().len() == old(self).depth_s().len(),
            res is Ok <==> tri_coords_bounded(t.v) && shade_attrs_ok_s(*t, *view_pos) && (
            texture is Some ==> texture.unwrap().wf()),
            res is Err ==> final(self).frame_s() == old(self).frame_s() && final(self).depth_s()
                == old(self).depth_s() && res == Err::<(), RasterError>(RasterError::OutOfRange),
            res is Ok ==> forall|x: int, y: int|
                #![trigger idx1_s(old(self).spec_width() as int, old(self).spec_height() as int, x, y)]
                0 <= x < old(self).spec_width() && 0 <= y < old(self).spec_height() ==> if in_bbox_s(
                    *t,
                    old(self).spec_width() as int,
                    old(self).spec_height() as int,
                    x,
                    y,
                ) {
                    shade_px_done(
                        *t,
                        *view_pos,
                        kind,
                        crate::shader::opt_tex_s(texture),
                        *old(self),
                        *final(self),
                        x,
                        y,
                    )
                } else {
                    shade_px_same(*old(self), *final(self), x, y)
                },
    {
        if !coords_in_range(t) {
            return Err(RasterError::OutOfRange);
        }
        if !shade_attrs_in_range(t, view_pos) {
            return Err(RasterError::OutOfRange);
        }
        match texture {
            Some(tex) => {
                if !tex.in_range() {
                    return Err(RasterError::OutOfRange);
                }
            },
            None => {},
        }
        let w = self.width as usize;
        let h = self.height as usize;
        let ghost wi = self.width as int;
        let ghost hi = self.height as int;
        proof {
            lemma_tdiv_abs(
                min3_s(t.v[0].x as int, t.v[1].x as int, t.v[2].x as int),
                FX_ONE as int,
            );
            lemma_tdiv_abs(
                max3_s(t.v[0].x as int, t.v[1].x as int, t.v[2].x as int),
                FX_ONE as int,
            );
            lemma_tdiv_abs(
                min3_s(t.v[0].y as int, t.v[1].y as int, t.v[2].y as int),
                FX_ONE as int,
            );
            lemma_tdiv_abs(
                max3_s(t.v[0].y as int, t.v[1].y as int, t.v[2].y as int),
                FX_ONE as int,
            );
        }
        let fxlo = crate::fixed::tdiv128(
            crate::fixed::min(t.v[0].x, crate::fixed::min(t.v[1].x, t.v[2].x)) as i128,
            FX_ONE as u64,
        );
        let fxhi = crate::fixed::tdiv128(
            crate::fixed::max(t.v[0].x, crate::fixed::max(t.v[1].x, t.v[2].x)) as i128,
            FX_ONE as u64,
        );
        let fylo = crate::fixed::tdiv128(
            crate::fixed::min(t.v[0].y, crate::fixed::min(t.v[1].y, t.v[2].y)) as i128,
            FX_ONE as u64,
        );
        let fyhi = crate::fixed::tdiv128(
            crate::fixed::max(t.v[0].y, crate::fixed::max(t.v[1].y, t.v[2].y)) as i128,
            FX_ONE as u64,
        );
        let lox: i64 = if fxlo < 0 {
            0
        } else if fxlo > (w as i64) - 1 {
            (w as i64) - 1
        } else {
            fxlo
        };
        let hix: i64 = if fxhi > (w as i64) - 1 {
            (w as i64) - 1
        } else {
            fxhi
        };
        let loy: i64 = if fylo < 0 {
            0
        } else if fylo > (h as i64) - 1 {
            (h as i64) - 1
        } else {
            fylo
        };
        let hiy: i64 = if fyhi > (h as i64) - 1 {
            (h as i64) - 1
        } else {
            fyhi
        };
        proof {
            assert(lox as int == bbox_lo_s(t.v[0].x, t.v[1].x, t.v[2].x, wi));
            assert(hix as int == bbox_hi_s(t.v[0].x, t.v[1].x, t.v[2].x, wi));
            assert(loy as int == bbox_lo_s(t.v[0].y, t.v[1].y, t.v[2].y, hi));
            assert(hiy as int == bbox_hi_s(t.v[0].y, t.v[1].y, t.v[2].y, hi));
        }
        if hix < lox || hiy < loy {
            return Ok(());
        }
        let hixu = hix as usize;
        let hiyu = hiy as usize;
        let loyu = loy as usize;
        let mut x: usize = lox as usize;
        while x <= hixu
            invariant
                lox as int <= x as int,
                x as int <= hix as int + 1,
                lox as int == bbox_lo_s(t.v[0].x, t.v[1].x, t.v[2].x, wi),
                hix as int == bbox_hi_s(t.v[0].x, t.v[1].x, t.v[2].x, wi),
                loy as int == bbox_lo_s(t.v[0].y, t.v[1].y, t.v[2].y, hi),
                hiy as int == bbox_hi_s(t.v[0].y, t.v[1].y, t.v[2].y, hi),
                0 <= lox as int,
                (lox as int) <= (hix as int),
                (hix as int) < wi,
                0 <= loy as int,
                (loy as int) <= (hiy as int),
                (hiy as int) < hi,
                hixu == hix as usize,
                hiyu == hiy as usize,
                loyu == loy as usize,
                self.wf(),
                self.same_config(*old(self)),
                self.frame0_s() == old(self).frame0_s(),
                self.fsample_s() == old(self).fsample_s(),
                self.dsample_s() == old(self).dsample_s(),
                self.count_s() == old(self).count_s(),
                self.frame_s().len() == old(self).frame_s().len(),
                self.depth_s().len() == old(self).depth_s().len(),
                tri_coords_bounded(t.v),
                shade_attrs_ok_s(*t, *view_pos),
                texture is Some ==> texture.unwrap().wf(),
                forall|xq: int, yq: int|
                    #![trigger idx1_s(wi, hi, xq, yq)]
                    0 <= xq < wi && 0 <= yq < hi ==> if in_bbox_s(*t, wi, hi, xq, yq) && xq < x {
                        shade_px_done(
                            *t,
                            *view_pos,
                            kind,
                            crate::shader::opt_tex_s(texture),
                            *old(self),
                            *self,
                            xq,
                            yq,
                        )
                    } else {
                        shade_px_same(*old(self), *self, xq, yq)
                    },
            decreases hixu + 1 - x,
        {
            let mut y: usize = loyu;
            while y <= hiyu
                invariant
                    lox as int <= x as int,
                    x as int <= hix as int,
                    loy as int <= y as int,
                    y as int <= hiy as int + 1,
                    lox as int == bbox_lo_s(t.v[0].x, t.v[1].x, t.v[2].x, wi),
                    hix as int == bbox_hi_s(t.v[0].x, t.v[1].x, t.v[2].x, wi),
                    loy as int == bbox_lo_s(t.v[0].y, t.v[1].y, t.v[2].y, hi),
                    hiy as int == bbox_hi_s(t.v[0].y, t.v[1].y, t.v[2].y, hi),
                    0 <= lox as int,
                (lox as int) <= (hix as int),
                    (hix as int) < wi,
                    0 <= loy as int,
                (loy as int) <= (hiy as int),
                    (hiy as int) < hi,
                    hixu == hix as usize,
                    hiyu == hiy as usize,
                    loyu == loy as usize,
                    self.wf(),
                    self.same_config(*old(self)),
                    self.frame0_s() == old(self).frame0_s(),
                    self.fsample_s() == old(self).fsample_s(),
                    self.dsample_s() == old(self).dsample_s(),
                    self.count_s() == old(self).count_s(),
                    self.frame_s().len() == old(self).frame_s().len(),
                    self.depth_s().len() == old(self).depth_s().len(),
                    tri_coords_bounded(t.v),
                    shade_attrs_ok_s(*t, *view_pos),
                    texture is Some ==> texture.unwrap().wf(),
                    forall|xq: int, yq: int|
                        #![trigger idx1_s(wi, hi, xq, yq)]
                        0 <= xq < wi && 0 <= yq < hi ==> if in_bbox_s(*t, wi, hi, xq, yq) && (xq
                            < x || (xq == x && yq < y)) {
                            shade_px_done(
                                *t,
                                *view_pos,
                                kind,
                                crate::shader::opt_tex_s(texture),
                                *old(self),
                                *self,
                                xq,
                                yq,
                            )
                        } else {
                            shade_px_same(*old(self), *self, xq, yq)
                        },
                decreases hiyu + 1 - y,
            {
                proof {
                    reveal(shade_px_color_s);
                    reveal(shade_px_depth_s);
                    assert(x as int * 65536 + 32768 <= COORD_LIMIT) by (nonlinear_arith)
                        requires
                            0 <= x < 4096,
                    ;
                    assert(y as int * 65536 + 32768 <= COORD_LIMIT) by (nonlinear_arith)
                        requires
                            0 <= y < 4096,
                    ;
                    assert(0 <= x as int * 65536 <= COORD_LIMIT) by (nonlinear_arith)
                        requires
                            0 <= x < 4096,
                    ;
                    assert(0 <= y as int * 65536 <= COORD_LIMIT) by (nonlinear_arith)
                        requires
                            0 <= y < 4096,
                    ;
                    assert forall|xq: int, yq: int| 0 <= xq < wi && 0 <= yq < hi implies 0
                        <= #[trigger] idx1_s(wi, hi, xq, yq) < wi * hi by {
                        lemma_idx1_bound(wi, hi, xq, yq);
                    }
                }
                let cx = (x as i64) * FX_ONE + HALF_PX;
                let cy = (y as i64) * FX_ONE + HALF_PX;
                let bx = (x as i64) * FX_ONE;
                let by = (y as i64) * FX_ONE;
                let hit = inside_triangle(cx, cy, &t.v);
                let ind = self.get_index1(x, y);
                if hit && t.v[0].z <= self.depth_buf[ind] {
                    let ob0 = bary_w_checked(
                        bary_num(bx, by, t.v[1].x, t.v[1].y, t.v[2].x, t.v[2].y),
                        bary_num(t.v[0].x, t.v[0].y, t.v[1].x, t.v[1].y, t.v[2].x, t.v[2].y),
                    );
                    let ob1 = bary_w_checked(
                        bary_num(bx, by, t.v[2].x, t.v[2].y, t.v[0].x, t.v[0].y),
                        bary_num(t.v[1].x, t.v[1].y, t.v[2].x, t.v[2].y, t.v[0].x, t.v[0].y),
                    );
                    let ob2 = bary_w_checked(
                        bary_num(bx, by, t.v[0].x, t.v[0].y, t.v[1].x, t.v[1].y),
                        bary_num(t.v[2].x, t.v[2].y, t.v[0].x, t.v[0].y, t.v[1].x, t.v[1].y),
                    );
                    match (ob0, ob1, ob2) {
                        (Some(b0), Some(b1), Some(b2)) => {
                            let col = Rasterizer::interpolate_vec3(
                                b0,
                                b1,
                                b2,
                                t.color[0],
                                t.color[1],
                                t.color[2],
                                FX_ONE,
                            );
                            let nor = Rasterizer::interpolate_vec3(
                                b0,
                                b1,
                                b2,
                                t.normal[0],
                                t.normal[1],
                                t.normal[2],
                                FX_ONE,
                            );
                            let vpo = Rasterizer::interpolate_vec3(
                                b0,
                                b1,
                                b2,
                                view_pos[0],
                                view_pos[1],
                                view_pos[2],
                                FX_ONE,
                            );
                            let uv = Rasterizer::interpolate_vec2(
                                b0,
                                b1,
                                b2,
                                t.tex_coords[0],
                                t.tex_coords[1],
                                t.tex_coords[2],
                                FX_ONE,
                            );
                            let pay = FragmentShaderPayload::new(col, nor, vpo, uv);
                            proof {
                                assert(pay == shade_payload_s(*t, *view_pos, x as int, y as int));
                            }
                            if payload_in_range(&pay) {
                                let shaded = crate::shader::run_fragment_shader(
                                    kind,
                                    &pay,
                                    texture,
                                );
                                self.depth_buf[ind] = t.v[0].z;
                                self.frame_buf[ind] = shaded;
                            }
                        },
                        _ => {},
                    }
                }
                proof {
                    assert forall|xq: int, yq: int|
                        0 <= xq < wi && 0 <= yq < hi && !(xq == x && yq == y) implies #[trigger] idx1_s(
                        wi,
                        hi,
                        xq,
                        yq,
                    ) != idx1_s(wi, hi, x as int, y as int) by {
                        if idx1_s(wi, hi, xq, yq) == idx1_s(wi, hi, x as int, y as int) {
                            lemma_idx1_inj(wi, hi, xq, yq, x as int, y as int);
                        }
                    }
                }
                y = y + 1;
            }
            x = x + 1;
        }
        Ok(())
    }
}

/// The pixel-level fold of shader-driven rasterization over a list of
/// derived triangles with their view-space positions, in submission order.
pub open spec fn shade_chain_s(
    items: Seq<(Triangle, [V3; 3])>,
    kind: FragmentShaderKind,
    tex: Option<Texture>,
    w: int,
    h: int,
    x: int,
    y: int,
    c: V3,
    d: i64,
) -> (V3, i64)
    decreases items.len(),
{
    if items.len() == 0 {
        (c, d)
    } else {
        let p = shade_chain_s(items.drop_last(), kind, tex, w, h, x, y, c, d);
        let t = items.last().0;
        let vp = items.last().1;
        if in_bbox_s(t, w, h, x, y) {
            (shade_px_color_s(t, vp, kind, tex, x, y, p.0, p.1), shade_px_depth_s(t, vp, x, y, p.1))
        } else {
            p
        }
    }
}

/// The derived triangle and view-space positions of each input triangle.
pub open spec fn derived_items_s(
    mvp: M4,
    view: M4,
    model: M4,
    inv_trans: M4,
    tris: Seq<Triangle>,
    w: int,
    h: int,
) -> Seq<(Triangle, [V3; 3])> {
    Seq::new(
        tris.len(),
        |k: int|
            (
                derived_tri_s(mvp, inv_trans, tris[k], w, h),
                [
                    derived_vp_s(view, model, tris[k], 0),
                    derived_vp_s(view, model, tris[k], 1),
                    derived_vp_s(view, model, tris[k], 2),
                ],
            ),
    )
}

impl Rasterizer {
    /// Whether a shader-driven draw of these triangles goes through: the
    /// transforms, their products and the supplied normal transform in
    /// range, the bound texture well formed, every triangle derivable, and
    /// every derived triangle within the shading ranges.
    pub open spec fn draw_tris_ok_s(self, tris: Seq<Triangle>, inv_trans: M4) -> bool {
        &&& crate::matrix::bounded_m4(self.model_s(), crate::matrix::M4_LIMIT as int)
        &&& crate::matrix::bounded_m4(self.view_s(), crate::matrix::M4_LIMIT as int)
        &&& crate::matrix::bounded_m4(self.projection_s(), crate::matrix::M4_LIMIT as int)
        &&& crate::matrix::bounded_m4(inv_trans, crate::matrix::M4_LIMIT as int)
        &&& crate::matrix::bounded_m4(
            crate::matrix::mm_s(self.view_s(), self.model_s()),
            crate::matrix::M4_LIMIT as int,
        )
        &&& crate::matrix::bounded_m4(self.mvp_s(), crate::matrix::M4_LIMIT as int)
        &&& match self.texture_s() {
            None => true,
            Some(t) => t.wf(),
        }
        &&& forall|k: int|
            0 <= k < tris.len() ==> new_tri_ok_s(self.mvp_s(), #[trigger] tris[k])
                && tri_coords_bounded(
                derived_tri_s(
                    self.mvp_s(),
                    inv_trans,
                    tris[k],
                    self.spec_width() as int,
                    self.spec_height() as int,
                ).v,
            ) && shade_attrs_ok_s(
                derived_tri_s(
                    self.mvp_s(),
                    inv_trans,
                    tris[k],
                    self.spec_width() as int,
                    self.spec_height() as int,
                ),
                [
                    derived_vp_s(self.view_s(), self.model_s(), tris[k], 0),
                    derived_vp_s(self.view_s(), self.model_s(), tris[k], 1),
                    derived_vp_s(self.view_s(), self.model_s(), tris[k], 2),
                ],
            )
    }

    /// Validation pass of the shader-driven draw: every triangle must
    /// derive and its derived form must stay within the shading ranges.
    #[verifier::loop_isolation(false)]
    #[verifier::rlimit(100)]
    #[verifier::spinoff_prover]
    fn validate_shaded_tris(&self, triangles: &Vec<Triangle>, inv_trans: &M4, mvp: &M4) -> (res:
        Result<(), RasterError>)
        requires
            self.wf(),
            crate::matrix::bounded_m4(self.model_s(), crate::matrix::M4_LIMIT as int),
            crate::matrix::bounded_m4(self.view_s(), crate::matrix::M4_LIMIT as int),
            crate::matrix::bounded_m4(*inv_trans, crate::matrix::M4_LIMIT as int),
            crate::matrix::bounded_m4(*mvp, crate::matrix::M4_LIMIT as int),
            crate::matrix::bounded_m4(
                crate::matrix::mm_s(self.view_s(), self.model_s()),
                crate::matrix::M4_LIMIT as int,
            ),
            *mvp == self.mvp_s(),
        ensures
            res is Ok <==> forall|q: int|
                0 <= q < triangles@.len() ==> new_tri_ok_s(self.mvp_s(), #[trigger] triangles@[q])
                    && tri_coords_bounded(
                    derived_tri_s(
                        self.mvp_s(),
                        *inv_trans,
                        triangles@[q],
                        self.spec_width() as int,
                        self.spec_height() as int,
                    ).v,
                ) && shade_attrs_ok_s(
                    derived_tri_s(
                        self.mvp_s(),
                        *inv_trans,
                        triangles@[q],
                        self.spec_width() as int,
                        self.spec_height() as int,
                    ),
                    [
                        derived_vp_s(self.view_s(), self.model_s(), triangles@[q], 0),
                        derived_vp_s(self.view_s(), self.model_s(), triangles@[q], 1),
                        derived_vp_s(self.view_s(), self.model_s(), triangles@[q], 2),
                    ],
                ),
            res is Err ==> res == Err::<(), RasterError>(RasterError::Degenerate) || res == Err::<
                (),
                RasterError,
            >(RasterError::OutOfRange),
    {
        let ghost wi = self.width as int;
        let ghost hi = self.height as int;
        let w = self.width;
        let h = self.height;
        let n = triangles.len();
        let mut k: usize = 0;
        while k < n
            invariant
                k <= n,
                n == triangles@.len(),
                forall|q: int|
                    0 <= q < k ==> new_tri_ok_s(self.mvp_s(), #[trigger] triangles@[q])
                        && tri_coords_bounded(
                        derived_tri_s(self.mvp_s(), *inv_trans, triangles@[q], wi, hi).v,
                    ) && shade_attrs_ok_s(
                        derived_tri_s(self.mvp_s(), *inv_trans, triangles@[q], wi, hi),
                        [
                            derived_vp_s(self.view_s(), self.model_s(), triangles@[q], 0),
                            derived_vp_s(self.view_s(), self.model_s(), triangles@[q], 1),
                            derived_vp_s(self.view_s(), self.model_s(), triangles@[q], 2),
                        ],
                    ),
            decreases n - k,
        {
            let (tri, vp) = match Rasterizer::get_new_tri(
                &triangles[k],
                &self.view,
                &self.model,
                mvp,
                inv_trans,
                w,
                h,
            ) {
                Ok(p) => p,
                Err(e) => {
                    return Err(e);
                },
            };
            if !coords_in_range(&tri) {
                return Err(RasterError::OutOfRange);
            }
            if !shade_attrs_in_range(&tri, &vp) {
                return Err(RasterError::OutOfRange);
            }
            k = k + 1;
        }
        Ok(())
    }

    /// The shader-driven draw call: derives each triangle's screen-space
    /// copy and view-space positions through the engine's transforms and
    /// the supplied inverse-transpose normal matrix, then rasterizes them
    /// in order with the selected fragment shader and bound texture.
    ///
    /// Everything is validated before any buffer is touched; on success
    /// every pixel holds the submission-order fold of the derived
    /// triangles under the per-pixel shading rule.
    #[verifier::loop_isolation(false)]
    #[verifier::rlimit(100)]
    #[verifier::spinoff_prover]
    pub fn draw_triangles(&mut self, triangles: &Vec<Triangle>, inv_trans: &M4) -> (res: Result<
        (),
        RasterError,
    >)
        requires
            old(self).wf(),
        ensures
            final(self).wf(),
            final(self).same_config(*old(self)),
            final(self).frame0_s() == old(self).frame0_s(),
            final(self).fsample_s() == old(self).fsample_s(),
            final(self).dsample_s() == old(self).dsample_s(),
            final(self).count_s() == old(self).count_s(),
            final(self).frame_s().len() == old(self).frame_s().len(),
            final(self).depth_s().len() == old(self).depth_s().len(),
            res is Ok <==> old(self).draw_tris_ok_s(triangles@, *inv_trans),
            res is Err ==> final(self).frame_s() == old(self).frame_s() && final(self).depth_s()
                == old(self).depth_s() && (res == Err::<(), RasterError>(RasterError::Degenerate)
                || res == Err::<(), RasterError>(RasterError::OutOfRange)),
            res is Ok ==> forall|x: int, y: int|
                #![trigger idx1_s(old(self).spec_width() as int, old(self).spec_height() as int, x, y)]
                0 <= x < old(self).spec_width() && 0 <= y < old(self).spec_height() ==> ({
                    let i = idx1_s(old(self).spec_width() as int, old(self).spec_height() as int, x, y);
                    let after = shade_chain_s(
                        derived_items_s(
                            old(self).mvp_s(),
                            old(self).view_s(),
                            old(self).model_s(),
                            *inv_trans,
                            triangles@,
                            old(self).spec_width() as int,
                            old(self).spec_height() as int,
                        ),
                        old(self).fragment_shader_s(),
                        old(self).texture_s(),
                        old(self).spec_width() as int,
                        old(self).spec_height() as int,
                        x,
                        y,
                        old(self).frame_s()[i],
                        old(self).depth_s()[i],
                    );
                    final(self).frame_s()[i] == after.0 && final(self).depth_s()[i] == after.1
                }),
    {
        if !(m4_bounded(&self.model, crate::matrix::M4_LIMIT) && m4_bounded(
            &self.view,
            crate::matrix::M4_LIMIT,
        ) && m4_bounded(&self.projection, crate::matrix::M4_LIMIT) && m4_bounded(
            inv_trans,
            crate::matrix::M4_LIMIT,
        )) {
            return Err(RasterError::OutOfRange);
        }
        let vm = crate::matrix::mat_mul(&self.view, &self.model);
        proof {
            crate::matrix::lemma_mm_is(self.view, self.model, vm);
        }
        if !m4_bounded(&vm, crate::matrix::M4_LIMIT) {
            return Err(RasterError::OutOfRange);
        }
        let mvp = crate::matrix::mat_mul(&self.projection, &vm);
        proof {
            crate::matrix::lemma_mm_is(self.projection, vm, mvp);
        }
        if !m4_bounded(&mvp, crate::matrix::M4_LIMIT) {
            return Err(RasterError::OutOfRange);
        }
        let w = self.width;
        let h = self.height;
        let ghost wi = self.width as int;
        let ghost hi = self.height as int;
        let tex_ok = match &self.texture {
            Some(t) => t.in_range(),
            None => true,
        };
        if !tex_ok {
            return Err(RasterError::OutOfRange);
        }
        let n = triangles.len();
        match self.validate_shaded_tris(triangles, inv_trans, &mvp) {
            Ok(_) => {},
            Err(e) => {
                return Err(e);
            },
        }
        // Rasterization pass.
        let kind = self.fragment_shader;
        let tex_local = self.texture.take();
        let ghost items = derived_items_s(
            self.mvp_s(),
            self.view_s(),
            self.model_s(),
            *inv_trans,
            triangles@,
            wi,
            hi,
        );
        let mut k: usize = 0;
        while k < n
            invariant
                k <= n,
                n == triangles@.len(),
                self.wf(),
                mvp == self.mvp_s(),
                vm == crate::matrix::mm_s(self.view_s(), self.model_s()),
                self.model_s() == old(self).model_s(),
                self.view_s() == old(self).view_s(),
                self.projection_s() == old(self).projection_s(),
                self.jitter_s() == old(self).jitter_s(),
                self.pos_bufs_s() == old(self).pos_bufs_s(),
                self.ind_bufs_s() == old(self).ind_bufs_s(),
                self.col_bufs_s() == old(self).col_bufs_s(),
                self.fragment_shader_s() == old(self).fragment_shader_s(),
                self.vert_shader_s() == old(self).vert_shader_s(),
                self.texture_s() is None,
                kind == old(self).fragment_shader_s(),
                tex_local == old(self).texture_s(),
                match tex_local {
                    None => true,
                    Some(t) => t.wf(),
                },
                self.spec_width() == old(self).spec_width(),
                self.spec_height() == old(self).spec_height(),
                self.frame0_s() == old(self).frame0_s(),
                self.fsample_s() == old(self).fsample_s(),
                self.dsample_s() == old(self).dsample_s(),
                self.count_s() == old(self).count_s(),
                self.frame_s().len() == old(self).frame_s().len(),
                self.depth_s().len() == old(self).depth_s().len(),
                items == derived_items_s(
                    self.mvp_s(),
                    self.view_s(),
                    self.model_s(),
                    *inv_trans,
                    triangles@,
                    wi,
                    hi,
                ),
                forall|q: int|
                    0 <= q < n ==> new_tri_ok_s(self.mvp_s(), #[trigger] triangles@[q])
                        && tri_coords_bounded(
                        derived_tri_s(self.mvp_s(), *inv_trans, triangles@[q], wi, hi).v,
                    ) && shade_attrs_ok_s(
                        derived_tri_s(self.mvp_s(), *inv_trans, triangles@[q], wi, hi),
                        [
                            derived_vp_s(self.view_s(), self.model_s(), triangles@[q], 0),
                            derived_vp_s(self.view_s(), self.model_s(), triangles@[q], 1),
                            derived_vp_s(self.view_s(), self.model_s(), triangles@[q], 2),
                        ],
                    ),
                forall|x: int, y: int|
                    #![trigger idx1_s(wi, hi, x, y)]
                    0 <= x < wi && 0 <= y < hi ==> ({
                        let i = idx1_s(wi, hi, x, y);
                        let after = shade_chain_s(
                            items.take(k as int),
                            kind,
                            tex_local,
                            wi,
                            hi,
                            x,
                            y,
                            old(self).frame_s()[i],
                            old(self).depth_s()[i],
                        );
                        self.frame_s()[i] == after.0 && self.depth_s()[i] == after.1
                    }),
            decreases n - k,
        {
            proof {
                assert forall|xq: int, yq: int| 0 <= xq < wi && 0 <= yq < hi implies 0
                    <= #[trigger] idx1_s(wi, hi, xq, yq) < wi * hi by {
                    lemma_idx1_bound(wi, hi, xq, yq);
                }
            }
            let (tri, vp) = match Rasterizer::get_new_tri(
                &triangles[k],
                &self.view,
                &self.model,
                &mvp,
                inv_trans,
                w,
                h,
            ) {
                Ok(p) => p,
                Err(_) => {
                    proof {
                        assert(false);
                    }
                    return Err(RasterError::OutOfRange);
                },
            };
            let tex_ref: Option<&Texture> = match &tex_local {
                Some(t) => Some(t),
                None => None,
            };
            let ghost pre = *self;
            let shaded = self.rasterize_triangle_shaded(&tri, &vp, kind, tex_ref);
            proof {
                assert(items.take(k as int + 1).drop_last() =~= items.take(k as int));
                assert(items.take(k as int + 1).last() == items[k as int]);
                assert(tri == items[k as int].0);
                assert(vp =~= items[k as int].1);
            }
            match shaded {
                Ok(_) => {},
                Err(_) => {
                    proof {
                        assert(false);
                    }
                    return Err(RasterError::OutOfRange);
                },
            }
            proof {
                assert forall|xq: int, yq: int| 0 <= xq < wi && 0 <= yq < hi implies ({
                    let i = #[trigger] idx1_s(wi, hi, xq, yq);
                    if in_bbox_s(tri, wi, hi, xq, yq) {
                        self.frame_s()[i] == shade_px_color_s(
                            tri,
                            vp,
                            kind,
                            crate::shader::opt_tex_s(tex_ref),
                            xq,
                            yq,
                            pre.frame_s()[i],
                            pre.depth_s()[i],
                        ) && self.depth_s()[i] == shade_px_depth_s(
                            tri,
                            vp,
                            xq,
                            yq,
                            pre.depth_s()[i],
                        )
                    } else {
                        self.frame_s()[i] == pre.frame_s()[i] && self.depth_s()[i]
                            == pre.depth_s()[i]
                    }
                }) by {
                    assert(idx1_s(pre.spec_width() as int, pre.spec_height() as int, xq, yq)
                        == idx1_s(wi, hi, xq, yq));
                }
                assert(crate::shader::opt_tex_s(tex_ref) == tex_local);
            }
            k = k + 1;
        }
        self.texture = tex_local;
        proof {
            assert(items.take(n as int) =~= items);
        }
        Ok(())
    }
}

/// The divided coordinate, if it is within the canonical range.
fn checked_ndc(c: i64, cw: i64) -> (r: Option<i64>)
    requires
        cw != 0,
    ensures
        r is Some <==> abs_s(tdiv(c as int * FX_ONE as int, cw as int)) <= NDC_LIMIT,
        r is Some ==> r.unwrap() as int == tdiv(c as int * FX_ONE as int, cw as int),
{
    let pa = crate::fixed::abs_u64(c) as u128;
    let pb = crate::fixed::abs_u64(cw) as u128;
    proof {
        assert(pa * 65536 < 0x1_0000_0000_0000_0000_0000) by (nonlinear_arith)
            requires
                pa <= 0x8000_0000_0000_0000,
        ;
        assert(pa * 65536 == abs_s(c as int * FX_ONE as int)) by (nonlinear_arith)
            requires
                pa == abs_s(c as int),
        ;
        assert(((c as int) * (FX_ONE as int) < 0) == ((c as int) < 0)) by (nonlinear_arith);
    }
    let q = (pa * 65536) / pb;
    let neg = (c < 0) != (cw < 0);
    if q > NDC_LIMIT as u128 {
        None
    } else {
        if neg && q != 0 {
            Some((-(q as i128)) as i64)
        } else {
            Some(q as i64)
        }
    }
}

/// The viewport map along one axis: `dim * (v + 1) / 2` at scale.
fn viewport_half(dim: u64, v: i64) -> (r: i64)
    requires
        0 < dim <= MAX_DIM,
        abs_s(v as int) <= NDC_LIMIT,
    ensures
        r as int == tdiv(dim as int * (v as int + FX_ONE as int), 2),
        abs_s(r as int) <= COORD_LIMIT,
{
    proof {
        lemma_abs_mul_le(dim as int, v as int + FX_ONE as int, MAX_DIM as int, 2 * NDC_LIMIT as int);
        lemma_tdiv_abs(dim as int * (v as int + FX_ONE as int), 2);
        crate::fixed::lemma_tdiv_div_bound(
            dim as int * (v as int + FX_ONE as int),
            2,
            MAX_DIM as int * (2 * NDC_LIMIT as int),
        );
    }
    let num: i128 = (dim as i128) * (v as i128 + FX_ONE as i128);
    crate::fixed::tdiv128(num, 2)
}

impl Rasterizer {
    /// All three handles name loaded buffers.
    pub open spec fn handles_ok_s(self, p: PosBufId, i: IndBufId, c: ColBufId) -> bool {
        p.0 < self.pos_bufs_s().len() && self.pos_bufs_s()[p.0 as int] is Some && i.0
            < self.ind_bufs_s().len() && self.ind_bufs_s()[i.0 as int] is Some && c.0
            < self.col_bufs_s().len() && self.col_bufs_s()[c.0 as int] is Some
    }

    /// Every transform, and the model-view and model-view-projection
    /// products, within the matrix product range.
    pub open spec fn mats_ok_s(self) -> bool {
        crate::matrix::bounded_m4(self.model_s(), crate::matrix::M4_LIMIT as int)
            && crate::matrix::bounded_m4(self.view_s(), crate::matrix::M4_LIMIT as int)
            && crate::matrix::bounded_m4(self.projection_s(), crate::matrix::M4_LIMIT as int)
            && crate::matrix::bounded_m4(
            crate::matrix::mm_s(self.view_s(), self.model_s()),
            crate::matrix::M4_LIMIT as int,
        ) && crate::matrix::bounded_m4(self.mvp_s(), crate::matrix::M4_LIMIT as int)
    }

    /// The length of the position list under a minted position handle.
    fn pos_slot_len(&self, h: usize) -> (r: usize)
        requires
            h < self.pos_bufs_s().len(),
            self.pos_bufs_s()[h as int] is Some,
        ensures
            r == self.pos_bufs_s()[h as int].unwrap().len(),
    {
        match &self.pos_buf[h] {
            Some(v) => v.len(),
            None => {
                proof {
                    assert(false);
                }
                0
            },
        }
    }

    fn ind_slot_len(&self, h: usize) -> (r: usize)
        requires
            h < self.ind_bufs_s().len(),
            self.ind_bufs_s()[h as int] is Some,
        ensures
            r == self.ind_bufs_s()[h as int].unwrap().len(),
    {
        match &self.ind_buf[h] {
            Some(v) => v.len(),
            None => {
                proof {
                    assert(false);
                }
                0
            },
        }
    }

    fn col_slot_len(&self, h: usize) -> (r: usize)
        requires
            h < self.col_bufs_s().len(),
            self.col_bufs_s()[h as int] is Some,
        ensures
            r == self.col_bufs_s()[h as int].unwrap().len(),
    {
        match &self.col_buf[h] {
            Some(v) => v.len(),
            None => {
                proof {
                    assert(false);
                }
                0
            },
        }
    }

    fn pos_at(&self, h: usize, i: usize) -> (r: V3)
        requires
            h < self.pos_bufs_s().len(),
            self.pos_bufs_s()[h as int] is Some,
            i < self.pos_bufs_s()[h as int].unwrap().len(),
        ensures
            r == self.pos_bufs_s()[h as int].unwrap()[i as int],
    {
        match &self.pos_buf[h] {
            Some(v) => v[i],
            None => {
                proof {
                    assert(false);
                }
                V3 { x: 0, y: 0, z: 0 }
            },
        }
    }

    fn ind_at(&self, h: usize, i: usize) -> (r: (usize, usize, usize))
        requires
            h < self.ind_bufs_s().len(),
            self.ind_bufs_s()[h as int] is Some,
            i < self.ind_bufs_s()[h as int].unwrap().len(),
        ensures
            r == self.ind_bufs_s()[h as int].unwrap()[i as int],
    {
        match &self.ind_buf[h] {
            Some(v) => v[i],
            None => {
                proof {
                    assert(false);
                }
                (0, 0, 0)
            },
        }
    }

    fn col_at(&self, h: usize, i: usize) -> (r: V3)
        requires
            h < self.col_bufs_s().len(),
            self.col_bufs_s()[h as int] is Some,
            i < self.col_bufs_s()[h as int].unwrap().len(),
        ensures
            r == self.col_bufs_s()[h as int].unwrap()[i as int],
    {
        match &self.col_buf[h] {
            Some(v) => v[i],
            None => {
                proof {
                    assert(false);
                }
                V3 { x: 0, y: 0, z: 0 }
            },
        }
    }

    /// The model-view-projection product the draw call applies.
    pub open spec fn mvp_s(self) -> M4 {
        mm_s(self.projection_s(), crate::matrix::mm_s(self.view_s(), self.model_s()))
    }
}

/// Every index of every triple within both the position and color lists.
pub open spec fn indices_ok_s(ind: Seq<(usize, usize, usize)>, plen: int, clen: int) -> bool {
    forall|k: int|
        0 <= k < ind.len() ==> (#[trigger] ind[k]).0 < plen && ind[k].1 < plen && ind[k].2 < plen
            && ind[k].0 < clen && ind[k].1 < clen && ind[k].2 < clen
}

/// Every referenced vertex survives projection under `mvp`.
pub open spec fn tris_ok_s(mvp: M4, pos: Seq<V3>, ind: Seq<(usize, usize, usize)>) -> bool {
    forall|k: int|
        0 <= k < ind.len() ==> vert_ok_s(mvp, pos[(#[trigger] ind[k]).0 as int]) && vert_ok_s(
            mvp,
            pos[ind[k].1 as int],
        ) && vert_ok_s(mvp, pos[ind[k].2 as int])
}

/// The screen-space triangles a draw call rasterizes, in order.
pub open spec fn screen_tris_s(
    mvp: M4,
    pos: Seq<V3>,
    col: Seq<V3>,
    ind: Seq<(usize, usize, usize)>,
    w: int,
    h: int,
) -> Seq<Triangle> {
    Seq::new(
        ind.len(),
        |k: int|
            screen_tri_s(
                mvp,
                pos[ind[k].0 as int],
                pos[ind[k].1 as int],
                pos[ind[k].2 as int],
                col[ind[k].0 as int],
                col[ind[k].1 as int],
                col[ind[k].2 as int],
                w,
                h,
            ),
    )
}

impl Rasterizer {
    /// The draw call: computes the model-view-projection product, projects
    /// every indexed triangle to screen space, and rasterizes them in
    /// order into the intermediate color buffer and the depth buffer.
    ///
    /// The call validates everything before touching a buffer: unknown
    /// handles, out-of-range transforms, dangling indices and degenerate
    /// or out-of-range vertices are each rejected with their error and the
    /// buffers unchanged. On success every pixel holds the submission-order
    /// fold of the projected triangles.
    #[verifier::loop_isolation(false)]
    #[verifier::rlimit(100)]
    pub fn draw(
        &mut self,
        pos_buffer: PosBufId,
        ind_buffer: IndBufId,
        col_buffer: ColBufId,
        _typ: Primitive,
    ) -> (res: Result<(), RasterError>)
        requires
            old(self).wf(),
        ensures
            final(self).wf(),
            final(self).same_config(*old(self)),
            final(self).frame_s() == old(self).frame_s(),
            final(self).fsample_s() == old(self).fsample_s(),
            final(self).dsample_s() == old(self).dsample_s(),
            final(self).count_s() == old(self).count_s(),
            res is Ok <==> old(self).handles_ok_s(pos_buffer, ind_buffer, col_buffer) && old(self).mats_ok_s() && indices_ok_s(
                old(self).ind_bufs_s()[ind_buffer.0 as int].unwrap(),
                old(self).pos_bufs_s()[pos_buffer.0 as int].unwrap().len() as int,
                old(self).col_bufs_s()[col_buffer.0 as int].unwrap().len() as int,
            ) && tris_ok_s(
                old(self).mvp_s(),
                old(self).pos_bufs_s()[pos_buffer.0 as int].unwrap(),
                old(self).ind_bufs_s()[ind_buffer.0 as int].unwrap(),
            ),
            res is Err ==> final(self).frame0_s() == old(self).frame0_s() && final(self).depth_s()
                == old(self).depth_s(),
            res == Err::<(), RasterError>(RasterError::InvalidHandle) <==> !old(self).handles_ok_s(pos_buffer, ind_buffer, col_buffer),
            res == Err::<(), RasterError>(RasterError::IndexOutOfBounds) ==> old(self).handles_ok_s(pos_buffer, ind_buffer, col_buffer) && !indices_ok_s(
                old(self).ind_bufs_s()[ind_buffer.0 as int].unwrap(),
                old(self).pos_bufs_s()[pos_buffer.0 as int].unwrap().len() as int,
                old(self).col_bufs_s()[col_buffer.0 as int].unwrap().len() as int,
            ),
            res == Err::<(), RasterError>(RasterError::Degenerate) || res == Err::<
                (),
                RasterError,
            >(RasterError::OutOfRange) ==> old(self).handles_ok_s(pos_buffer, ind_buffer, col_buffer)
                && (!old(self).mats_ok_s() || !tris_ok_s(
                old(self).mvp_s(),
                old(self).pos_bufs_s()[pos_buffer.0 as int].unwrap(),
                old(self).ind_bufs_s()[ind_buffer.0 as int].unwrap(),
            )),
            res is Ok ==> final(self).frame0_s().len() == old(self).frame0_s().len() && final(self).depth_s().len() == old(self).depth_s().len() && forall|x: int, y: int|
                0 <= x < old(self).spec_width() && 0 <= y < old(self).spec_height() ==> ({
                    let i = #[trigger] idx1_s(
                        old(self).spec_width() as int,
                        old(self).spec_height() as int,
                        x,
                        y,
                    );
                    let after = simple_chain_s(
                        screen_tris_s(
                            old(self).mvp_s(),
                            old(self).pos_bufs_s()[pos_buffer.0 as int].unwrap(),
                            old(self).col_bufs_s()[col_buffer.0 as int].unwrap(),
                            old(self).ind_bufs_s()[ind_buffer.0 as int].unwrap(),
                            old(self).spec_width() as int,
                            old(self).spec_height() as int,
                        ),
                        x,
                        y,
                        old(self).frame0_s()[i],
                        old(self).depth_s()[i],
                    );
                    final(self).frame0_s()[i] == after.0 && final(self).depth_s()[i] == after.1
                }),
    {
        if !(pos_buffer.0 < self.pos_buf.len() && self.pos_buf[pos_buffer.0].is_some()
            && ind_buffer.0 < self.ind_buf.len() && self.ind_buf[ind_buffer.0].is_some()
            && col_buffer.0 < self.col_buf.len() && self.col_buf[col_buffer.0].is_some()) {
            return Err(RasterError::InvalidHandle);
        }
        if !(m4_bounded(&self.model, crate::matrix::M4_LIMIT) && m4_bounded(
            &self.view,
            crate::matrix::M4_LIMIT,
        ) && m4_bounded(&self.projection, crate::matrix::M4_LIMIT)) {
            return Err(RasterError::OutOfRange);
        }
        let vm = crate::matrix::mat_mul(&self.view, &self.model);
        proof {
            crate::matrix::lemma_mm_is(self.view, self.model, vm);
        }
        if !m4_bounded(&vm, crate::matrix::M4_LIMIT) {
            return Err(RasterError::OutOfRange);
        }
        let mvp = crate::matrix::mat_mul(&self.projection, &vm);
        proof {
            crate::matrix::lemma_mm_is(self.projection, vm, mvp);
        }
        if !m4_bounded(&mvp, crate::matrix::M4_LIMIT) {
            return Err(RasterError::OutOfRange);
        }
        let w = self.width;
        let h = self.height;
        let ghost wi = self.width as int;
        let ghost hi = self.height as int;
        let ghost posv = self.pos_bufs_s()[pos_buffer.0 as int].unwrap();
        let ghost colv = self.col_bufs_s()[col_buffer.0 as int].unwrap();
        let ghost indv = self.ind_bufs_s()[ind_buffer.0 as int].unwrap();
        let n = self.ind_slot_len(ind_buffer.0);
        let plen = self.pos_slot_len(pos_buffer.0);
        let clen = self.col_slot_len(col_buffer.0);
        // Index validation.
        let mut k: usize = 0;
        while k < n
            invariant
                k <= n,
                forall|q: int|
                    0 <= q < k ==> (#[trigger] indv[q]).0 < plen && indv[q].1 < plen && indv[q].2
                        < plen && indv[q].0 < clen && indv[q].1 < clen && indv[q].2 < clen,
            decreases n - k,
        {
            let t = self.ind_at(ind_buffer.0, k);
            if !(t.0 < plen && t.1 < plen && t.2 < plen && t.0 < clen && t.1 < clen && t.2 < clen) {
                return Err(RasterError::IndexOutOfBounds);
            }
            k = k + 1;
        }
        // Vertex validation.
        let mut k: usize = 0;
        while k < n
            invariant
                k <= n,
                indices_ok_s(indv, plen as int, clen as int),
                forall|q: int|
                    0 <= q < k ==> vert_ok_s(self.mvp_s(), posv[(#[trigger] indv[q]).0 as int])
                        && vert_ok_s(self.mvp_s(), posv[indv[q].1 as int]) && vert_ok_s(
                        self.mvp_s(),
                        posv[indv[q].2 as int],
                    ),
            decreases n - k,
        {
            let t = self.ind_at(ind_buffer.0, k);
            let e0 = project_vertex(&mvp, self.pos_at(pos_buffer.0, t.0), w, h);
            let e1 = project_vertex(&mvp, self.pos_at(pos_buffer.0, t.1), w, h);
            let e2 = project_vertex(&mvp, self.pos_at(pos_buffer.0, t.2), w, h);
            match e0 {
                Err(e) => {
                    return Err(e);
                },
                Ok(_) => {},
            }
            match e1 {
                Err(e) => {
                    return Err(e);
                },
                Ok(_) => {},
            }
            match e2 {
                Err(e) => {
                    return Err(e);
                },
                Ok(_) => {},
            }
            k = k + 1;
        }
        // Rasterization.
        let ghost tris = screen_tris_s(self.mvp_s(), posv, colv, indv, wi, hi);
        let mut k: usize = 0;
        while k < n
            invariant
                k <= n,
                self.wf(),
                self.same_config(*old(self)),
                self.frame_s() == old(self).frame_s(),
                self.fsample_s() == old(self).fsample_s(),
                self.dsample_s() == old(self).dsample_s(),
                self.count_s() == old(self).count_s(),
                self.frame0_s().len() == old(self).frame0_s().len(),
                self.depth_s().len() == old(self).depth_s().len(),
                pos_buffer.0 < self.pos_bufs_s().len(),
                ind_buffer.0 < self.ind_bufs_s().len(),
                col_buffer.0 < self.col_bufs_s().len(),
                self.pos_bufs_s()[pos_buffer.0 as int] == Some(posv),
                self.ind_bufs_s()[ind_buffer.0 as int] == Some(indv),
                self.col_bufs_s()[col_buffer.0 as int] == Some(colv),
                n == indv.len(),
                plen == posv.len(),
                clen == colv.len(),
                indices_ok_s(indv, plen as int, clen as int),
                tris_ok_s(self.mvp_s(), posv, indv),
                tris == screen_tris_s(self.mvp_s(), posv, colv, indv, wi, hi),
                mvp == self.mvp_s(),
                forall|x: int, y: int|
                    0 <= x < wi && 0 <= y < hi ==> ({
                        let i = #[trigger] idx1_s(wi, hi, x, y);
                        let after = simple_chain_s(
                            tris.take(k as int),
                            x,
                            y,
                            old(self).frame0_s()[i],
                            old(self).depth_s()[i],
                        );
                        self.frame0_s()[i] == after.0 && self.depth_s()[i] == after.1
                    }),
            decreases n - k,
        {
            proof {
                assert forall|xq: int, yq: int| 0 <= xq < wi && 0 <= yq < hi implies 0
                    <= #[trigger] idx1_s(wi, hi, xq, yq) < wi * hi by {
                    lemma_idx1_bound(wi, hi, xq, yq);
                }
            }
            let t = self.ind_at(ind_buffer.0, k);
            let v0 = match project_vertex(&mvp, self.pos_at(pos_buffer.0, t.0), w, h) {
                Ok(v) => v,
                Err(_) => {
                    proof {
                        assert(false);
                    }
                    return Err(RasterError::OutOfRange);
                },
            };
            let v1 = match project_vertex(&mvp, self.pos_at(pos_buffer.0, t.1), w, h) {
                Ok(v) => v,
                Err(_) => {
                    proof {
                        assert(false);
                    }
                    return Err(RasterError::OutOfRange);
                },
            };
            let v2 = match project_vertex(&mvp, self.pos_at(pos_buffer.0, t.2), w, h) {
                Ok(v) => v,
                Err(_) => {
                    proof {
                        assert(false);
                    }
                    return Err(RasterError::OutOfRange);
                },
            };
            let tri = Triangle {
                v: [
                    V4 { x: v0.0, y: v0.1, z: v0.2, w: FX_ONE },
                    V4 { x: v1.0, y: v1.1, z: v1.2, w: FX_ONE },
                    V4 { x: v2.0, y: v2.1, z: v2.2, w: FX_ONE },
                ],
                color: [
                    self.col_at(col_buffer.0, t.0),
                    self.col_at(col_buffer.0, t.1),
                    self.col_at(col_buffer.0, t.2),
                ],
                tex_coords: [V2 { x: 0, y: 0 }, V2 { x: 0, y: 0 }, V2 { x: 0, y: 0 }],
                normal: [
                    V3 { x: 0, y: 0, z: 0 },
                    V3 { x: 0, y: 0, z: 0 },
                    V3 { x: 0, y: 0, z: 0 },
                ],
            };
            proof {
                assert(tri.v =~= tris[k as int].v);
                assert(tri.color =~= tris[k as int].color);
                assert(tri.tex_coords =~= tris[k as int].tex_coords);
                assert(tri.normal =~= tris[k as int].normal);
                assert(tri == tris[k as int]);
            }
            let ghost pre = *self;
            self.rasterize_triangle(&tri);
            proof {
                assert(tris.take(k as int + 1).drop_last() =~= tris.take(k as int));
                assert(tris.take(k as int + 1).last() == tris[k as int]);
                assert forall|xq: int, yq: int| 0 <= xq < wi && 0 <= yq < hi implies ({
                    let i = #[trigger] idx1_s(wi, hi, xq, yq);
                    self.frame0_s()[i] == simple_px_color_s(
                        tri,
                        xq,
                        yq,
                        pre.frame0_s()[i],
                        pre.depth_s()[i],
                    ) && self.depth_s()[i] == simple_px_depth_s(tri, xq, yq, pre.depth_s()[i])
                }) by {
                    assert(idx1_s(pre.spec_width() as int, pre.spec_height() as int, xq, yq)
                        == idx1_s(wi, hi, xq, yq));
                }
            }
            k = k + 1;
        }
        proof {
            assert(tris.take(n as int) =~= tris);
        }
        Ok(())
    }
}

// ------------------------------------------------------------------
// The multi-sample variant
// ------------------------------------------------------------------

/// The fixed sub-sample offsets within a pixel: (1/4, 1/4), (3/4, 1/4),
/// (1/4, 3/4), (3/4, 3/4), indexed 0 to 3.
pub open spec fn sub_x_s(x: int, k: int) -> int {
    x * 65536 + if k % 2 == 0 {
        16384int
    } else {
        49152int
    }
}

pub open spec fn sub_y_s(y: int, k: int) -> int {
    y * 65536 + if k < 2 {
        16384int
    } else {
        49152int
    }
}

/// The flat sample-buffer index of pixel `(x, y)`'s sub-sample `k`.
pub open spec fn sub_idx_s(w: int, h: int, x: int, y: int, k: int) -> int {
    idx2_s(w, h, 2 * x + k % 2, 2 * y + k / 2)
}

/// Whether the triangle covers sub-sample `k` of a pixel and is nearer
/// than the sub-sample's stored depth.
pub open spec fn sub_pass_s(t: Triangle, x: int, y: int, k: int, sd: i64) -> bool {
    inside_s(sub_x_s(x, k), sub_y_s(y, k), t.v) && (t.v[0].z as int) < sd as int
}

pub open spec fn msaa_sub_depth_s(t: Triangle, x: int, y: int, k: int, sd: i64) -> i64 {
    if sub_pass_s(t, x, y, k, sd) {
        t.v[0].z
    } else {
        sd
    }
}

pub open spec fn msaa_sub_color_s(t: Triangle, x: int, y: int, k: int, sd: i64, sc: V3) -> V3 {
    if sub_pass_s(t, x, y, k, sd) {
        t.color[0]
    } else {
        sc
    }
}

/// The triangle's coverage count at a pixel, counted afresh per triangle
/// against the sub-sample depths it met.
pub open spec fn msaa_count_s(t: Triangle, x: int, y: int, sd0: i64, sd1: i64, sd2: i64, sd3: i64) -> int {
    (if sub_pass_s(t, x, y, 0, sd0) {
        1int
    } else {
        0int
    }) + (if sub_pass_s(t, x, y, 1, sd1) {
        1int
    } else {
        0int
    }) + (if sub_pass_s(t, x, y, 2, sd2) {
        1int
    } else {
        0int
    }) + (if sub_pass_s(t, x, y, 3, sd3) {
        1int
    } else {
        0int
    })
}

/// The resolve rule for a pixel's main color: when any sub-sample was
/// covered and the representative depth beats the main buffer, the pixel
/// takes the mean of its four (updated) sub-sample colors.
pub open spec fn msaa_avg_s(c0: V3, c1: V3, c2: V3, c3: V3) -> V3 {
    V3 {
        x: tdiv(c0.x as int + c1.x as int + c2.x as int + c3.x as int, 4) as i64,
        y: tdiv(c0.y as int + c1.y as int + c2.y as int + c3.y as int, 4) as i64,
        z: tdiv(c0.z as int + c1.z as int + c2.z as int + c3.z as int, 4) as i64,
    }
}

proof fn lemma_sub_idx_inj(
    w: int,
    h: int,
    x1: int,
    y1: int,
    k1: int,
    x2: int,
    y2: int,
    k2: int,
)
    by (nonlinear_arith)
    requires
        0 < w,
        0 < h,
        0 <= x1 < w,
        0 <= y1 < h,
        0 <= k1 < 4,
        0 <= x2 < w,
        0 <= y2 < h,
        0 <= k2 < 4,
        sub_idx_s(w, h, x1, y1, k1) == sub_idx_s(w, h, x2, y2, k2),
    ensures
        x1 == x2 && y1 == y2 && k1 == k2,
{
}

proof fn lemma_sub_idx_bound(w: int, h: int, x: int, y: int, k: int)
    by (nonlinear_arith)
    requires
        0 < w,
        0 < h,
        0 <= x < w,
        0 <= y < h,
        0 <= k < 4,
    ensures
        0 <= sub_idx_s(w, h, x, y, k) < 4 * (w * h),
{
}

/// What the multi-sample pass leaves in a pixel's main color: the mean of
/// the four updated sub-sample colors when any sub-sample was covered and
/// the representative depth wins, the old color otherwise.
pub open spec fn msaa_px_color_s(t: Triangle, x: int, y: int, sd0: i64, sd1: i64, sd2: i64, sd3: i64, sc0: V3, sc1: V3, sc2: V3, sc3: V3, c: V3, d: i64) -> V3 {
    if msaa_count_s(t, x, y, sd0, sd1, sd2, sd3) > 0 && (t.v[0].z as int) < d as int {
        msaa_avg_s(
            msaa_sub_color_s(t, x, y, 0, sd0, sc0),
            msaa_sub_color_s(t, x, y, 1, sd1, sc1),
            msaa_sub_color_s(t, x, y, 2, sd2, sc2),
            msaa_sub_color_s(t, x, y, 3, sd3, sc3),
        )
    } else {
        c
    }
}

pub open spec fn msaa_px_depth_s(t: Triangle, x: int, y: int, sd0: i64, sd1: i64, sd2: i64, sd3: i64, d: i64) -> i64 {
    if msaa_count_s(t, x, y, sd0, sd1, sd2, sd3) > 0 && (t.v[0].z as int) < d as int {
        t.v[0].z
    } else {
        d
    }
}

impl Rasterizer {
    /// Multi-sample rasterization of one screen-space triangle: each
    /// pixel's four sub-samples are tested and updated against their own
    /// depths, the coverage counter is counted afresh for this triangle
    /// (never carried over from earlier ones), and a covered pixel whose
    /// representative depth wins takes the mean of its four sub-sample
    /// colors in the main frame buffer.
    #[verifier::loop_isolation(false)]
    #[verifier::rlimit(100)]
    pub fn rasterize_triangle_msaa(&mut self, t: &Triangle)
        requires
            old(self).wf(),
            tri_coords_bounded(t.v),
        ensures
            final(self).wf(),
            final(self).same_config(*old(self)),
            final(self).frame0_s() == old(self).frame0_s(),
            final(self).frame_s().len() == old(self).frame_s().len(),
            final(self).depth_s().len() == old(self).depth_s().len(),
            final(self).fsample_s().len() == old(self).fsample_s().len(),
            final(self).dsample_s().len() == old(self).dsample_s().len(),
            final(self).count_s().len() == old(self).count_s().len(),
            forall|x: int, y: int|
                #![trigger msaa_px_done(*t, *old(self), *final(self), x, y)]
                0 <= x < old(self).spec_width() && 0 <= y < old(self).spec_height()
                    ==> msaa_px_done(*t, *old(self), *final(self), x, y),
    {
        let w = self.width as usize;
        let h = self.height as usize;
        let ghost wi = self.width as int;
        let ghost hi = self.height as int;
        let mut x: usize = 0;
        while x < w
            invariant
                x <= w,
                self.wf(),
                self.same_config(*old(self)),
                self.frame0_s() == old(self).frame0_s(),
                self.frame_s().len() == old(self).frame_s().len(),
                self.depth_s().len() == old(self).depth_s().len(),
                self.fsample_s().len() == old(self).fsample_s().len(),
                self.dsample_s().len() == old(self).dsample_s().len(),
                self.count_s().len() == old(self).count_s().len(),
                forall|xq: int, yq: int|
                    #![trigger msaa_px_done(*t, *old(self), *self, xq, yq)]
                    #![trigger msaa_px_same(*t, *old(self), *self, xq, yq)]
                    0 <= xq < wi && 0 <= yq < hi ==> if xq < x {
                        msaa_px_done(*t, *old(self), *self, xq, yq)
                    } else {
                        msaa_px_same(*t, *old(self), *self, xq, yq)
                    },
            decreases w - x,
        {
            let mut y: usize = 0;
            while y < h
                invariant
                    x < w,
                    y <= h,
                    self.wf(),
                    self.same_config(*old(self)),
                    self.frame0_s() == old(self).frame0_s(),
                    self.frame_s().len() == old(self).frame_s().len(),
                    self.depth_s().len() == old(self).depth_s().len(),
                    self.fsample_s().len() == old(self).fsample_s().len(),
                    self.dsample_s().len() == old(self).dsample_s().len(),
                    self.count_s().len() == old(self).count_s().len(),
                    forall|xq: int, yq: int|
                        #![trigger msaa_px_done(*t, *old(self), *self, xq, yq)]
                        #![trigger msaa_px_same(*t, *old(self), *self, xq, yq)]
                        0 <= xq < wi && 0 <= yq < hi ==> if xq < x || (xq == x && yq < y) {
                            msaa_px_done(*t, *old(self), *self, xq, yq)
                        } else {
                            msaa_px_same(*t, *old(self), *self, xq, yq)
                        },
                decreases h - y,
            {
                let ghost prev = *self;
                proof {
                    assert(msaa_px_same(*t, *old(self), prev, x as int, y as int));
                    assert(x as int * 65536 + 49152 <= COORD_LIMIT) by (nonlinear_arith)
                        requires
                            0 <= x < 4096,
                    ;
                    assert(y as int * 65536 + 49152 <= COORD_LIMIT) by (nonlinear_arith)
                        requires
                            0 <= y < 4096,
                    ;
                    assert forall|xq: int, yq: int| 0 <= xq < wi && 0 <= yq < hi implies 0
                        <= #[trigger] idx1_s(wi, hi, xq, yq) < wi * hi by {
                        lemma_idx1_bound(wi, hi, xq, yq);
                    }
                    assert forall|xq: int, yq: int, kq: int|
                        0 <= xq < wi && 0 <= yq < hi && 0 <= kq < 4 implies 0 <= #[trigger] sub_idx_s(
                        wi,
                        hi,
                        xq,
                        yq,
                        kq,
                    ) < 4 * (wi * hi) by {
                        lemma_sub_idx_bound(wi, hi, xq, yq, kq);
                    }
                }
                let ind = self.get_index1(x, y);
                let s0 = self.get_index2(2 * x, 2 * y);
                let s1 = self.get_index2(2 * x + 1, 2 * y);
                let s2 = self.get_index2(2 * x, 2 * y + 1);
                let s3 = self.get_index2(2 * x + 1, 2 * y + 1);
                proof {
                    assert(s0 == sub_idx_s(wi, hi, x as int, y as int, 0));
                    assert(s1 == sub_idx_s(wi, hi, x as int, y as int, 1));
                    assert(s2 == sub_idx_s(wi, hi, x as int, y as int, 2));
                    assert(s3 == sub_idx_s(wi, hi, x as int, y as int, 3));
                }
                proof {
                    if sub_idx_s(wi, hi, x as int, y as int, 0) == sub_idx_s(wi, hi, x as int, y as int, 1) {
                        lemma_sub_idx_inj(wi, hi, x as int, y as int, 0, x as int, y as int, 1);
                    }
                    if sub_idx_s(wi, hi, x as int, y as int, 0) == sub_idx_s(wi, hi, x as int, y as int, 2) {
                        lemma_sub_idx_inj(wi, hi, x as int, y as int, 0, x as int, y as int, 2);
                    }
                    if sub_idx_s(wi, hi, x as int, y as int, 0) == sub_idx_s(wi, hi, x as int, y as int, 3) {
                        lemma_sub_idx_inj(wi, hi, x as int, y as int, 0, x as int, y as int, 3);
                    }
                    if sub_idx_s(wi, hi, x as int, y as int, 1) == sub_idx_s(wi, hi, x as int, y as int, 2) {
                        lemma_sub_idx_inj(wi, hi, x as int, y as int, 1, x as int, y as int, 2);
                    }
                    if sub_idx_s(wi, hi, x as int, y as int, 1) == sub_idx_s(wi, hi, x as int, y as int, 3) {
                        lemma_sub_idx_inj(wi, hi, x as int, y as int, 1, x as int, y as int, 3);
                    }
                    if sub_idx_s(wi, hi, x as int, y as int, 2) == sub_idx_s(wi, hi, x as int, y as int, 3) {
                        lemma_sub_idx_inj(wi, hi, x as int, y as int, 2, x as int, y as int, 3);
                    }
                    assert(s0 != s1 && s0 != s2 && s0 != s3 && s1 != s2 && s1 != s3 && s2 != s3);
                }
                let z = t.v[0].z;
                let cxl = (x as i64) * FX_ONE + 16384;
                let cxr = (x as i64) * FX_ONE + 49152;
                let cyl = (y as i64) * FX_ONE + 16384;
                let cyr = (y as i64) * FX_ONE + 49152;
                let p0 = inside_triangle(cxl, cyl, &t.v) && z < self.depth_sample[s0];
                let p1 = inside_triangle(cxr, cyl, &t.v) && z < self.depth_sample[s1];
                let p2 = inside_triangle(cxl, cyr, &t.v) && z < self.depth_sample[s2];
                let p3 = inside_triangle(cxr, cyr, &t.v) && z < self.depth_sample[s3];
                if p0 {
                    self.depth_sample[s0] = z;
                    self.frame_sample[s0] = t.color[0];
                }
                if p1 {
                    self.depth_sample[s1] = z;
                    self.frame_sample[s1] = t.color[0];
                }
                if p2 {
                    self.depth_sample[s2] = z;
                    self.frame_sample[s2] = t.color[0];
                }
                if p3 {
                    self.depth_sample[s3] = z;
                    self.frame_sample[s3] = t.color[0];
                }
                let count: u32 = (if p0 {
                    1u32
                } else {
                    0u32
                }) + (if p1 {
                    1u32
                } else {
                    0u32
                }) + (if p2 {
                    1u32
                } else {
                    0u32
                }) + (if p3 {
                    1u32
                } else {
                    0u32
                });
                self.num_count[ind] = count;
                if count > 0 && z < self.depth_buf[ind] {
                    self.depth_buf[ind] = z;
                    let c0 = self.frame_sample[s0];
                    let c1 = self.frame_sample[s1];
                    let c2 = self.frame_sample[s2];
                    let c3 = self.frame_sample[s3];
                    let avg = V3 {
                        x: crate::fixed::avg4(c0.x, c1.x, c2.x, c3.x),
                        y: crate::fixed::avg4(c0.y, c1.y, c2.y, c3.y),
                        z: crate::fixed::avg4(c0.z, c1.z, c2.z, c3.z),
                    };
                    self.frame_buf[ind] = avg;
                }
                proof {
                    assert forall|xq: int, yq: int|
                        0 <= xq < wi && 0 <= yq < hi && !(xq == x && yq == y) implies #[trigger] idx1_s(
                        wi,
                        hi,
                        xq,
                        yq,
                    ) != idx1_s(wi, hi, x as int, y as int) by {
                        if idx1_s(wi, hi, xq, yq) == idx1_s(wi, hi, x as int, y as int) {
                            lemma_idx1_inj(wi, hi, xq, yq, x as int, y as int);
                        }
                    }
                    assert forall|xq: int, yq: int, kq: int, kk: int|
                        #![trigger sub_idx_s(wi, hi, xq, yq, kq), sub_idx_s(wi, hi, x as int, y as int, kk)]
                        0 <= xq < wi && 0 <= yq < hi && 0 <= kq < 4 && 0 <= kk < 4 && !(xq == x
                            && yq == y) implies sub_idx_s(wi, hi, xq, yq, kq) != sub_idx_s(
                        wi,
                        hi,
                        x as int,
                        y as int,
                        kk,
                    ) by {
                        if sub_idx_s(wi, hi, xq, yq, kq) == sub_idx_s(wi, hi, x as int, y as int, kk) {
                            lemma_sub_idx_inj(wi, hi, xq, yq, kq, x as int, y as int, kk);
                        }
                    }
                    assert(msaa_px_done(*t, *old(self), *self, x as int, y as int));
                    assert forall|xq: int, yq: int|
                        0 <= xq < wi && 0 <= yq < hi && !(xq == x && yq == y) && (xq < x || (xq
                            == x && yq < y)) implies msaa_px_done(*t, *old(self), *self, xq, yq) by {
                        assert(msaa_px_done(*t, *old(self), prev, xq, yq));
                        lemma_sub_idx_bound(wi, hi, xq, yq, 0);
                        lemma_sub_idx_bound(wi, hi, xq, yq, 1);
                        lemma_sub_idx_bound(wi, hi, xq, yq, 2);
                        lemma_sub_idx_bound(wi, hi, xq, yq, 3);
                    }
                    assert forall|xq: int, yq: int|
                        0 <= xq < wi && 0 <= yq < hi && !(xq == x && yq == y) && !(xq < x || (xq
                            == x && yq < y)) implies msaa_px_same(*t, *old(self), *self, xq, yq) by {
                        assert(msaa_px_same(*t, *old(self), prev, xq, yq));
                        lemma_sub_idx_bound(wi, hi, xq, yq, 0);
                        lemma_sub_idx_bound(wi, hi, xq, yq, 1);
                        lemma_sub_idx_bound(wi, hi, xq, yq, 2);
                        lemma_sub_idx_bound(wi, hi, xq, yq, 3);
                    }
                }
                y = y + 1;
            }
            x = x + 1;
        }
    }
}

/// One pixel after the multi-sample pass: sub-samples, coverage count
/// and the resolved main color and depth all follow the triangle's
/// effect on the pre-state.
pub open spec fn msaa_px_done(t: Triangle, pre: Rasterizer, now: Rasterizer, x: int, y: int) -> bool {
    msaa_px_inv(t, pre, now, x, y, true)
}

/// One pixel untouched by the pass so far.
pub open spec fn msaa_px_same(t: Triangle, pre: Rasterizer, now: Rasterizer, x: int, y: int) -> bool {
    msaa_px_inv(t, pre, now, x, y, false)
}

/// One pixel's multi-sample invariant: processed pixels carry the
/// triangle's effect, untouched pixels their old state.
pub open spec fn msaa_px_inv(
    t: Triangle,
    pre: Rasterizer,
    now: Rasterizer,
    x: int,
    y: int,
    done: bool,
) -> bool {
    let wi = pre.spec_width() as int;
    let hi = pre.spec_height() as int;
    let i = idx1_s(wi, hi, x, y);
    let s0 = sub_idx_s(wi, hi, x, y, 0);
    let s1 = sub_idx_s(wi, hi, x, y, 1);
    let s2 = sub_idx_s(wi, hi, x, y, 2);
    let s3 = sub_idx_s(wi, hi, x, y, 3);
    if done {
        &&& now.dsample_s()[s0] == msaa_sub_depth_s(t, x, y, 0, pre.dsample_s()[s0])
        &&& now.dsample_s()[s1] == msaa_sub_depth_s(t, x, y, 1, pre.dsample_s()[s1])
        &&& now.dsample_s()[s2] == msaa_sub_depth_s(t, x, y, 2, pre.dsample_s()[s2])
        &&& now.dsample_s()[s3] == msaa_sub_depth_s(t, x, y, 3, pre.dsample_s()[s3])
        &&& now.fsample_s()[s0] == msaa_sub_color_s(t, x, y, 0, pre.dsample_s()[s0], pre.fsample_s()[s0])
        &&& now.fsample_s()[s1] == msaa_sub_color_s(t, x, y, 1, pre.dsample_s()[s1], pre.fsample_s()[s1])
        &&& now.fsample_s()[s2] == msaa_sub_color_s(t, x, y, 2, pre.dsample_s()[s2], pre.fsample_s()[s2])
        &&& now.fsample_s()[s3] == msaa_sub_color_s(t, x, y, 3, pre.dsample_s()[s3], pre.fsample_s()[s3])
        &&& now.count_s()[i] as int == msaa_count_s(
            t,
            x,
            y,
            pre.dsample_s()[s0],
            pre.dsample_s()[s1],
            pre.dsample_s()[s2],
            pre.dsample_s()[s3],
        )
        &&& now.frame_s()[i] == msaa_px_color_s(
            t,
            x,
            y,
            pre.dsample_s()[s0],
            pre.dsample_s()[s1],
            pre.dsample_s()[s2],
            pre.dsample_s()[s3],
            pre.fsample_s()[s0],
            pre.fsample_s()[s1],
            pre.fsample_s()[s2],
            pre.fsample_s()[s3],
            pre.frame_s()[i],
            pre.depth_s()[i],
        )
        &&& now.depth_s()[i] == msaa_px_depth_s(
            t,
            x,
            y,
            pre.dsample_s()[s0],
            pre.dsample_s()[s1],
            pre.dsample_s()[s2],
            pre.dsample_s()[s3],
            pre.depth_s()[i],
        )
    } else {
        &&& now.dsample_s()[s0] == pre.dsample_s()[s0]
        &&& now.dsample_s()[s1] == pre.dsample_s()[s1]
        &&& now.dsample_s()[s2] == pre.dsample_s()[s2]
        &&& now.dsample_s()[s3] == pre.dsample_s()[s3]
        &&& now.fsample_s()[s0] == pre.fsample_s()[s0]
        &&& now.fsample_s()[s1] == pre.fsample_s()[s1]
        &&& now.fsample_s()[s2] == pre.fsample_s()[s2]
        &&& now.fsample_s()[s3] == pre.fsample_s()[s3]
        &&& now.count_s()[i] == pre.count_s()[i]
        &&& now.frame_s()[i] == pre.frame_s()[i]
        &&& now.depth_s()[i] == pre.depth_s()[i]
    }
}

/// The transform matrices and frame dimensions agree.
pub open spec fn config_unchanged(a: Rasterizer, b: Rasterizer) -> bool {
    a.model_s() == b.model_s() && a.view_s() == b.view_s() && a.projection_s() == b.projection_s()
        && a.jitter_s() == b.jitter_s() && a.spec_width() == b.spec_width() && a.spec_height()
        == b.spec_height()
}

/// The frame, depth, sample and count buffers agree.
pub open spec fn buffers_unchanged(a: Rasterizer, b: Rasterizer) -> bool {
    a.frame_s() == b.frame_s() && a.frame0_s() == b.frame0_s() && a.depth_s() == b.depth_s()
        && a.fsample_s() == b.fsample_s() && a.dsample_s() == b.dsample_s() && a.count_s()
        == b.count_s() && a.spec_width() == b.spec_width() && a.spec_height() == b.spec_height()
}

/// The three handle stores agree.
pub open spec fn stores_unchanged(a: Rasterizer, b: Rasterizer) -> bool {
    a.pos_bufs_s() == b.pos_bufs_s() && a.ind_bufs_s() == b.ind_bufs_s() && a.col_bufs_s()
        == b.col_bufs_s()
}

/// What a loader leaves untouched: the transforms, dimensions, frame and
/// sample buffers, and the shader state.
pub open spec fn loads_frame(a: Rasterizer, b: Rasterizer) -> bool {
    config_unchanged(a, b) && buffers_unchanged(a, b) && a.texture_view_s() == b.texture_view_s()
        && a.texture_s() == b.texture_s() && a.fragment_shader_s() == b.fragment_shader_s()
        && a.vert_shader_s() == b.vert_shader_s()
}

/// An element-for-element copy of an index-triple list.
fn copy_triples(v: &Vec<(usize, usize, usize)>) -> (r: Vec<(usize, usize, usize)>)
    ensures
        r@ == v@,
{
    let mut r: Vec<(usize, usize, usize)> = Vec::new();
    let mut i: usize = 0;
    while i < v.len()
        invariant
            i <= v@.len(),
            r@ == v@.take(i as int),
        decreases v@.len() - i,
    {
        r.push(v[i]);
        proof {
            assert(r@ =~= v@.take(i as int + 1));
        }
        i = i + 1;
    }
    proof {
        assert(r@ =~= v@);
    }
    r
}

/// A vector of `n` copies of a color.
fn fill_v3(n: usize, val: V3) -> (r: Vec<V3>)
    ensures
        r@.len() == n,
        forall|i: int| 0 <= i < n ==> r@[i] == val,
{
    let mut r: Vec<V3> = Vec::new();
    while r.len() < n
        invariant
            r@.len() <= n,
            forall|i: int| 0 <= i < r@.len() ==> r@[i] == val,
        decreases n - r@.len(),
    {
        r.push(val);
    }
    r
}

/// A vector of `n` copies of a scalar.
fn fill_i64(n: usize, val: i64) -> (r: Vec<i64>)
    ensures
        r@.len() == n,
        forall|i: int| 0 <= i < n ==> r@[i] == val,
{
    let mut r: Vec<i64> = Vec::new();
    while r.len() < n
        invariant
            r@.len() <= n,
            forall|i: int| 0 <= i < r@.len() ==> r@[i] == val,
        decreases n - r@.len(),
    {
        r.push(val);
    }
    r
}

/// A vector of `n` copies of a counter value.
fn fill_u32(n: usize, val: u32) -> (r: Vec<u32>)
    ensures
        r@.len() == n,
        forall|i: int| 0 <= i < n ==> r@[i] == val,
{
    let mut r: Vec<u32> = Vec::new();
    while r.len() < n
        invariant
            r@.len() <= n,
            forall|i: int| 0 <= i < r@.len() ==> r@[i] == val,
        decreases n - r@.len(),
    {
        r.push(val);
    }
    r
}

/// A vertex triple lifted to homogeneous coordinates with unit `w`.
pub open spec fn lift_tri_s(v: [V3; 3]) -> [V4; 3] {
    [
        V4 { x: v[0].x, y: v[0].y, z: v[0].z, w: FX_ONE },
        V4 { x: v[1].x, y: v[1].y, z: v[1].z, w: FX_ONE },
        V4 { x: v[2].x, y: v[2].y, z: v[2].z, w: FX_ONE },
    ]
}

/// The barycentric weights against homogeneous screen-space vertices.
pub fn compute_barycentric2d_1(x: i64, y: i64, v: &[V4; 3]) -> (r: (i64, i64, i64))
    requires
        abs_s(x as int) <= COORD_LIMIT,
        abs_s(y as int) <= COORD_LIMIT,
        tri_coords_bounded(*v),
        bary_den0_s(*v) != 0,
        bary_den1_s(*v) != 0,
        bary_den2_s(*v) != 0,
        crate::fixed::fits_i64(bary0_s(x as int, y as int, *v)),
        crate::fixed::fits_i64(bary1_s(x as int, y as int, *v)),
        crate::fixed::fits_i64(bary2_s(x as int, y as int, *v)),
    ensures
        r.0 == bary0_s(x as int, y as int, *v),
        r.1 == bary1_s(x as int, y as int, *v),
        r.2 == bary2_s(x as int, y as int, *v),
{
    compute_barycentric2d(x, y, v)
}

/// The barycentric weights against plain screen-space vertices.
pub fn compute_barycentric2d_2(x: i64, y: i64, v: &[V3; 3]) -> (r: (i64, i64, i64))
    requires
        abs_s(x as int) <= COORD_LIMIT,
        abs_s(y as int) <= COORD_LIMIT,
        tri_coords_bounded(lift_tri_s(*v)),
        bary_den0_s(lift_tri_s(*v)) != 0,
        bary_den1_s(lift_tri_s(*v)) != 0,
        bary_den2_s(lift_tri_s(*v)) != 0,
        crate::fixed::fits_i64(bary0_s(x as int, y as int, lift_tri_s(*v))),
        crate::fixed::fits_i64(bary1_s(x as int, y as int, lift_tri_s(*v))),
        crate::fixed::fits_i64(bary2_s(x as int, y as int, lift_tri_s(*v))),
    ensures
        r.0 == bary0_s(x as int, y as int, lift_tri_s(*v)),
        r.1 == bary1_s(x as int, y as int, lift_tri_s(*v)),
        r.2 == bary2_s(x as int, y as int, lift_tri_s(*v)),
{
    let lifted: [V4; 3] = [
        V4 { x: v[0].x, y: v[0].y, z: v[0].z, w: FX_ONE },
        V4 { x: v[1].x, y: v[1].y, z: v[1].z, w: FX_ONE },
        V4 { x: v[2].x, y: v[2].y, z: v[2].z, w: FX_ONE },
    ];
    proof {
        assert(lifted =~= lift_tri_s(*v));
    }
    compute_barycentric2d(x, y, &lifted)
}

/// One channel of a weighted combination of three vertex attributes,
/// divided by the shared weight.
pub open spec fn interp_s(a: int, b: int, c: int, p: int, q: int, r: int, weight: int) -> int {
    fxdiv_s(fxmul_s(a, p) + fxmul_s(b, q) + fxmul_s(c, r), weight)
}

/// Magnitude cap on interpolation weights (two at scale) and attributes.
pub const INTERP_W_LIMIT: i64 = 0x2_0000;

pub const INTERP_A_LIMIT: i64 = 0x400_0000;

impl Rasterizer {
    /// Barycentric interpolation of three vertex attributes.
    pub fn interpolate_vec3(
        alpha: i64,
        beta: i64,
        gamma: i64,
        vert1: V3,
        vert2: V3,
        vert3: V3,
        weight: i64,
    ) -> (r: V3)
        requires
            weight != 0,
            abs_s(alpha as int) <= INTERP_W_LIMIT,
            abs_s(beta as int) <= INTERP_W_LIMIT,
            abs_s(gamma as int) <= INTERP_W_LIMIT,
            abs_s(vert1.x as int) <= INTERP_A_LIMIT,
            abs_s(vert1.y as int) <= INTERP_A_LIMIT,
            abs_s(vert1.z as int) <= INTERP_A_LIMIT,
            abs_s(vert2.x as int) <= INTERP_A_LIMIT,
            abs_s(vert2.y as int) <= INTERP_A_LIMIT,
            abs_s(vert2.z as int) <= INTERP_A_LIMIT,
            abs_s(vert3.x as int) <= INTERP_A_LIMIT,
            abs_s(vert3.y as int) <= INTERP_A_LIMIT,
            abs_s(vert3.z as int) <= INTERP_A_LIMIT,
        ensures
            r.x == interp_s(
                alpha as int,
                beta as int,
                gamma as int,
                vert1.x as int,
                vert2.x as int,
                vert3.x as int,
                weight as int,
            ),
            r.y == interp_s(
                alpha as int,
                beta as int,
                gamma as int,
                vert1.y as int,
                vert2.y as int,
                vert3.y as int,
                weight as int,
            ),
            r.z == interp_s(
                alpha as int,
                beta as int,
                gamma as int,
                vert1.z as int,
                vert2.z as int,
                vert3.z as int,
                weight as int,
            ),
    {
        V3 {
            x: interp_channel(alpha, beta, gamma, vert1.x, vert2.x, vert3.x, weight),
            y: interp_channel(alpha, beta, gamma, vert1.y, vert2.y, vert3.y, weight),
            z: interp_channel(alpha, beta, gamma, vert1.z, vert2.z, vert3.z, weight),
        }
    }

    /// Barycentric interpolation of three texture coordinates.
    pub fn interpolate_vec2(
        alpha: i64,
        beta: i64,
        gamma: i64,
        vert1: V2,
        vert2: V2,
        vert3: V2,
        weight: i64,
    ) -> (r: V2)
        requires
            weight != 0,
            abs_s(alpha as int) <= INTERP_W_LIMIT,
            abs_s(beta as int) <= INTERP_W_LIMIT,
            abs_s(gamma as int) <= INTERP_W_LIMIT,
            abs_s(vert1.x as int) <= INTERP_A_LIMIT,
            abs_s(vert1.y as int) <= INTERP_A_LIMIT,
            abs_s(vert2.x as int) <= INTERP_A_LIMIT,
            abs_s(vert2.y as int) <= INTERP_A_LIMIT,
            abs_s(vert3.x as int) <= INTERP_A_LIMIT,
            abs_s(vert3.y as int) <= INTERP_A_LIMIT,
        ensures
            r.x == interp_s(
                alpha as int,
                beta as int,
                gamma as int,
                vert1.x as int,
                vert2.x as int,
                vert3.x as int,
                weight as int,
            ),
            r.y == interp_s(
                alpha as int,
                beta as int,
                gamma as int,
                vert1.y as int,
                vert2.y as int,
                vert3.y as int,
                weight as int,
            ),
    {
        V2 {
            x: interp_channel(alpha, beta, gamma, vert1.x, vert2.x, vert3.x, weight),
            y: interp_channel(alpha, beta, gamma, vert1.y, vert2.y, vert3.y, weight),
        }
    }
}

fn interp_channel(a: i64, b: i64, c: i64, p: i64, q: i64, r: i64, weight: i64) -> (res: i64)
    requires
        weight != 0,
        abs_s(a as int) <= INTERP_W_LIMIT,
        abs_s(b as int) <= INTERP_W_LIMIT,
        abs_s(c as int) <= INTERP_W_LIMIT,
        abs_s(p as int) <= INTERP_A_LIMIT,
        abs_s(q as int) <= INTERP_A_LIMIT,
        abs_s(r as int) <= INTERP_A_LIMIT,
    ensures
        res == interp_s(a as int, b as int, c as int, p as int, q as int, r as int, weight as int),
{
    proof {
        lemma_abs_mul_le(a as int, p as int, INTERP_W_LIMIT as int, INTERP_A_LIMIT as int);
        lemma_abs_mul_le(b as int, q as int, INTERP_W_LIMIT as int, INTERP_A_LIMIT as int);
        lemma_abs_mul_le(c as int, r as int, INTERP_W_LIMIT as int, INTERP_A_LIMIT as int);
        lemma_tdiv_abs(a as int * p as int, FX_ONE as int);
        lemma_tdiv_abs(b as int * q as int, FX_ONE as int);
        lemma_tdiv_abs(c as int * r as int, FX_ONE as int);
        crate::fixed::lemma_tdiv_div_bound(a as int * p as int, FX_ONE as int, 0x800_0000_0000);
        crate::fixed::lemma_tdiv_div_bound(b as int * q as int, FX_ONE as int, 0x800_0000_0000);
        crate::fixed::lemma_tdiv_div_bound(c as int * r as int, FX_ONE as int, 0x800_0000_0000);
    }
    let s1 = crate::fixed::fxmul(a, p);
    let s2 = crate::fixed::fxmul(b, q);
    let s3 = crate::fixed::fxmul(c, r);
    proof {
        lemma_abs_mul_le(
            s1 as int + s2 as int + s3 as int,
            FX_ONE as int,
            0x1800_0000,
            FX_ONE as int,
        );
        lemma_tdiv_abs((s1 as int + s2 as int + s3 as int) * FX_ONE as int, weight as int);
    }
    crate::fixed::fxdiv(s1 + s2 + s3, weight)
}

/// Truncating division of two wide values whose quotient fits.
fn tdiv128_by(a: i128, b: i128) -> (r: i64)
    requires
        b != 0,
        abs_s(a as int) < 0x4000_0000_0000_0000_0000_0000_0000_0000,
        abs_s(b as int) < 0x4000_0000_0000_0000_0000_0000_0000_0000,
        crate::fixed::fits_i64(tdiv(a as int, b as int)),
    ensures
        r == tdiv(a as int, b as int),
{
    let neg = (a < 0) != (b < 0);
    let ma: u128 = if a < 0 {
        (-a) as u128
    } else {
        a as u128
    };
    let mb: u128 = if b < 0 {
        (-b) as u128
    } else {
        b as u128
    };
    let q = ma / mb;
    if neg && q != 0 {
        (-(q as i128)) as i64
    } else {
        q as i64
    }
}

} // verus!
