//! The per-triangle vertex attribute bundle: three homogeneous positions
//! with a color, a normal and a texture coordinate at each corner.

use vstd::prelude::*;
use crate::matrix::{V2, V3, V4};

verus! {

/// The triangle a face gather produces from flat mesh arrays: positions
/// made affine with unit `w`, and normals and texture coordinates taken
/// when their arrays are present, zero otherwise.
pub open spec fn gathered_tri_s(
    positions: Seq<i64>,
    normals: Seq<i64>,
    texcoords: Seq<i64>,
    indices: Seq<usize>,
    f: int,
) -> Triangle {
    Triangle {
        v: [
            gathered_v_s(positions, indices[3 * f] as int),
            gathered_v_s(positions, indices[3 * f + 1] as int),
            gathered_v_s(positions, indices[3 * f + 2] as int),
        ],
        color: [V3 { x: 0, y: 0, z: 0 }, V3 { x: 0, y: 0, z: 0 }, V3 { x: 0, y: 0, z: 0 }],
        tex_coords: [
            gathered_uv_s(texcoords, indices[3 * f] as int),
            gathered_uv_s(texcoords, indices[3 * f + 1] as int),
            gathered_uv_s(texcoords, indices[3 * f + 2] as int),
        ],
        normal: [
            gathered_n_s(normals, indices[3 * f] as int),
            gathered_n_s(normals, indices[3 * f + 1] as int),
            gathered_n_s(normals, indices[3 * f + 2] as int),
        ],
    }
}

pub open spec fn gathered_v_s(positions: Seq<i64>, i: int) -> V4 {
    V4 {
        x: positions[3 * i],
        y: positions[3 * i + 1],
        z: positions[3 * i + 2],
        w: crate::fixed::FX_ONE,
    }
}

pub open spec fn gathered_n_s(normals: Seq<i64>, i: int) -> V3 {
    if normals.len() == 0 {
        V3 { x: 0, y: 0, z: 0 }
    } else {
        V3 { x: normals[3 * i], y: normals[3 * i + 1], z: normals[3 * i + 2] }
    }
}

pub open spec fn gathered_uv_s(texcoords: Seq<i64>, i: int) -> V2 {
    if texcoords.len() == 0 {
        V2 { x: 0, y: 0 }
    } else {
        V2 { x: texcoords[2 * i], y: texcoords[2 * i + 1] }
    }
}

/// Every referenced vertex index fits all the present attribute arrays.
pub open spec fn gather_ok_s(
    plen: int,
    nlen: int,
    tlen: int,
    indices: Seq<usize>,
) -> bool {
    forall|k: int|
        0 <= k < 3 * (indices.len() as int / 3) ==> 3 * (#[trigger] indices[k] as int) + 2 < plen
            && (nlen != 0 ==> 3 * (indices[k] as int) + 2 < nlen) && (tlen != 0 ==> 2 * (
        indices[k] as int) + 1 < tlen)
}

/// Gathers flat mesh arrays into triangles, three consecutive indices per
/// face (a trailing partial face is dropped, as mesh readers hand faces
/// out in whole triples). Returns nothing if any referenced index runs
/// past an attribute array.
#[verifier::loop_isolation(false)]
pub fn assemble_triangles(
    positions: &Vec<i64>,
    normals: &Vec<i64>,
    texcoords: &Vec<i64>,
    indices: &Vec<usize>,
) -> (r: Option<Vec<Triangle>>)
    ensures
        r is Some <==> gather_ok_s(
            positions@.len() as int,
            normals@.len() as int,
            texcoords@.len() as int,
            indices@,
        ),
        r is Some ==> ({
            let out = r.unwrap()@;
            out.len() == indices@.len() as int / 3 && forall|f: int|
                0 <= f < out.len() ==> #[trigger] out[f] == gathered_tri_s(
                    positions@,
                    normals@,
                    texcoords@,
                    indices@,
                    f,
                )
        }),
{
    let n_faces = indices.len() / 3;
    let mut out: Vec<Triangle> = Vec::new();
    let mut f: usize = 0;
    while f < n_faces
        invariant
            f <= n_faces,
            n_faces == indices@.len() as int / 3,
            out@.len() == f,
            forall|q: int|
                0 <= q < f ==> #[trigger] out@[q] == gathered_tri_s(
                    positions@,
                    normals@,
                    texcoords@,
                    indices@,
                    q,
                ),
            forall|k: int|
                0 <= k < 3 * f ==> 3 * (#[trigger] indices@[k] as int) + 2 < positions@.len() && (
                normals@.len() != 0 ==> 3 * (indices@[k] as int) + 2 < normals@.len()) && (
                texcoords@.len() != 0 ==> 2 * (indices@[k] as int) + 1 < texcoords@.len()),
        decreases n_faces - f,
    {
        proof {
            assert(3 * (f as int) + 2 < indices@.len() as int) by (nonlinear_arith)
                requires
                    0 <= f as int,
                    (f as int) < indices@.len() as int / 3,
            ;
        }
        let i0 = indices[3 * f];
        let i1 = indices[3 * f + 1];
        let i2 = indices[3 * f + 2];
        let mut ok = true;
        if !(index_fits(i0, positions.len(), 3) && index_fits(i1, positions.len(), 3)
            && index_fits(i2, positions.len(), 3)) {
            ok = false;
        }
        if normals.len() != 0 && !(index_fits(i0, normals.len(), 3) && index_fits(
            i1,
            normals.len(),
            3,
        ) && index_fits(i2, normals.len(), 3)) {
            ok = false;
        }
        if texcoords.len() != 0 && !(index_fits(i0, texcoords.len(), 2) && index_fits(
            i1,
            texcoords.len(),
            2,
        ) && index_fits(i2, texcoords.len(), 2)) {
            ok = false;
        }
        if !ok {
            return None;
        }
        let mut tri = Triangle::new();
        tri.set_vertex(0, V4 { x: positions[3 * i0], y: positions[3 * i0 + 1], z: positions[3 * i0 + 2], w: crate::fixed::FX_ONE });
        tri.set_vertex(1, V4 { x: positions[3 * i1], y: positions[3 * i1 + 1], z: positions[3 * i1 + 2], w: crate::fixed::FX_ONE });
        tri.set_vertex(2, V4 { x: positions[3 * i2], y: positions[3 * i2 + 1], z: positions[3 * i2 + 2], w: crate::fixed::FX_ONE });
        if normals.len() != 0 {
            tri.set_normal(0, V3 { x: normals[3 * i0], y: normals[3 * i0 + 1], z: normals[3 * i0 + 2] });
            tri.set_normal(1, V3 { x: normals[3 * i1], y: normals[3 * i1 + 1], z: normals[3 * i1 + 2] });
            tri.set_normal(2, V3 { x: normals[3 * i2], y: normals[3 * i2 + 1], z: normals[3 * i2 + 2] });
        }
        if texcoords.len() != 0 {
            tri.set_tex_coord(0, texcoords[2 * i0], texcoords[2 * i0 + 1]);
            tri.set_tex_coord(1, texcoords[2 * i1], texcoords[2 * i1 + 1]);
            tri.set_tex_coord(2, texcoords[2 * i2], texcoords[2 * i2 + 1]);
        }
        proof {
            assert(tri.v =~= gathered_tri_s(positions@, normals@, texcoords@, indices@, f as int).v);
            assert(tri.color =~= gathered_tri_s(positions@, normals@, texcoords@, indices@, f as int).color);
            assert(tri.normal =~= gathered_tri_s(positions@, normals@, texcoords@, indices@, f as int).normal);
            assert(tri.tex_coords =~= gathered_tri_s(positions@, normals@, texcoords@, indices@, f as int).tex_coords);
        }
        out.push(tri);
        f = f + 1;
    }
    proof {
        assert(3 * (indices@.len() as int / 3) <= indices@.len() as int) by (nonlinear_arith);
    }
    Some(out)
}

/// Whether index `i`, with `stride` entries per vertex, fits an array.
fn index_fits(i: usize, len: usize, stride: usize) -> (r: bool)
    requires
        stride == 2 || stride == 3,
    ensures
        r == (stride * (i as int) + (stride - 1) < len as int),
{
    let q = len / stride;
    if i < q {
        proof {
            assert(stride * (i as int) + (stride - 1) < len as int) by (nonlinear_arith)
                requires
                    0 <= i as int,
                    (i as int) < (len as int) / (stride as int),
                    stride == 2 || stride == 3,
            ;
        }
        true
    } else {
        proof {
            assert(!(stride * (i as int) + (stride - 1) < len as int)) by (nonlinear_arith)
                requires
                    (i as int) >= (len as int) / (stride as int),
                    stride == 2 || stride == 3,
            ;
        }
        false
    }
}

/// A triangle: three vertex attribute bundles, indexed 0 to 2. It is
/// created by a mesh-loading collaborator or directly, and stays immutable
/// during a rasterization pass (the engine derives a screen-space copy).
#[derive(Clone, Copy, Debug)]
pub struct Triangle {
    /// Homogeneous vertex positions.
    pub v: [V4; 3],
    /// Per-vertex colors.
    pub color: [V3; 3],
    /// Per-vertex texture coordinates.
    pub tex_coords: [V2; 3],
    /// Per-vertex normals.
    pub normal: [V3; 3],
}

impl Triangle {
    /// A triangle with every attribute zeroed and unit `w` on each vertex.
    pub fn new() -> (r: Triangle)
        ensures
            forall|i: int|
                0 <= i < 3 ==> r.v[i] == (V4 { x: 0, y: 0, z: 0, w: crate::fixed::FX_ONE }),
            forall|i: int| 0 <= i < 3 ==> r.color[i] == (V3 { x: 0, y: 0, z: 0 }),
            forall|i: int| 0 <= i < 3 ==> r.tex_coords[i] == (V2 { x: 0, y: 0 }),
            forall|i: int| 0 <= i < 3 ==> r.normal[i] == (V3 { x: 0, y: 0, z: 0 }),
    {
        let z4 = V4 { x: 0, y: 0, z: 0, w: crate::fixed::FX_ONE };
        let z3 = V3 { x: 0, y: 0, z: 0 };
        let z2 = V2 { x: 0, y: 0 };
        Triangle { v: [z4, z4, z4], color: [z3, z3, z3], tex_coords: [z2, z2, z2], normal: [
            z3,
            z3,
            z3,
        ] }
    }

    /// Replaces vertex `ind`'s position.
    pub fn set_vertex(&mut self, ind: usize, vert: V4)
        requires
            ind < 3,
        ensures
            final(self).v@ == old(self).v@.update(ind as int, vert),
            final(self).color == old(self).color,
            final(self).tex_coords == old(self).tex_coords,
            final(self).normal == old(self).normal,
    {
        self.v[ind] = vert;
    }

    /// Replaces vertex `ind`'s normal.
    pub fn set_normal(&mut self, ind: usize, n: V3)
        requires
            ind < 3,
        ensures
            final(self).normal@ == old(self).normal@.update(ind as int, n),
            final(self).color == old(self).color,
            final(self).tex_coords == old(self).tex_coords,
            final(self).v == old(self).v,
    {
        self.normal[ind] = n;
    }

    /// Replaces vertex `ind`'s color channels.
    pub fn set_color(&mut self, ind: usize, r: i64, g: i64, b: i64)
        requires
            ind < 3,
        ensures
            final(self).color@ == old(self).color@.update(ind as int, V3 { x: r, y: g, z: b }),
            final(self).v == old(self).v,
            final(self).tex_coords == old(self).tex_coords,
            final(self).normal == old(self).normal,
    {
        self.color[ind] = V3 { x: r, y: g, z: b };
    }

    /// Replaces vertex `ind`'s texture coordinate.
    pub fn set_tex_coord(&mut self, ind: usize, u: i64, v: i64)
        requires
            ind < 3,
        ensures
            final(self).tex_coords@ == old(self).tex_coords@.update(ind as int, V2 { x: u, y: v }),
            final(self).v == old(self).v,
            final(self).color == old(self).color,
            final(self).normal == old(self).normal,
    {
        self.tex_coords[ind] = V2 { x: u, y: v };
    }

    /// The triangle's flat color: the color of its first vertex.
    pub fn get_color(&self) -> (r: V3)
        ensures
            r == self.color[0],
    {
        self.color[0]
    }
}

} // verus!
