// End-to-end checks of the fixed-point rasterization pipeline: transform
// builders, the inside test, depth ordering, multi-sample coverage, the
// post-process pass and texture sampling.

use softraster::fixed::{FX_ONE, fxmul, fxdiv, isqrt_u64, pow_fx, avg4, min, max};
use softraster::matrix::{V2, V3, V4, M4, m4_identity, mat_mul, mat_vec_mul, transpose, elemul};
use softraster::transform::{
    get_view_matrix, get_model_matrix, get_model_matrix_y, get_projection_matrix, get_jitter,
    get_rotation, get_rotation_0,
};
use softraster::triangle::Triangle;
use softraster::rasterizer::{
    Rasterizer, Buffer, Primitive, RasterError, inside_triangle, compute_barycentric2d, DEPTH_INF,
};
use softraster::texture::{Texture, lerp1, lerp2};
use softraster::shader::{
    FragmentShaderPayload, FragmentShaderKind, VertexShaderKind, vertex_shader,
    VertexShaderPayload, normal_fragment_shader, phong_fragment_shader, texture_fragment_shader,
    bump_fragment_shader, displacement_fragment_shader, choose_shader_texture,
    run_fragment_shader, length,
};

const S: i64 = FX_ONE;

fn v3(x: i64, y: i64, z: i64) -> V3 {
    V3 { x, y, z }
}

#[test]
fn fixed_point_basics() {
    assert_eq!(fxmul(2 * S, 3 * S), 6 * S);
    assert_eq!(fxmul(-2 * S, 3 * S), -6 * S);
    assert_eq!(fxdiv(6 * S, 3 * S), 2 * S);
    assert_eq!(fxdiv(-6 * S, 3 * S), -2 * S);
    assert_eq!(isqrt_u64(144), 12);
    assert_eq!(isqrt_u64(145), 12);
    assert_eq!(pow_fx(S, 150), S);
    assert_eq!(pow_fx(0, 150), 0);
    assert_eq!(pow_fx(S / 2, 2), S / 4);
    assert_eq!(avg4(4, 8, 12, 16), 10);
    assert_eq!(min(3, 7), 3);
    assert_eq!(max(3, 7), 7);
}

#[test]
fn rotation_zero_angle_is_identity() {
    let axis = v3(S, 0, 0);
    let id = m4_identity();
    let r = get_rotation(axis, S, 0);
    assert_eq!(r, id);
    let r0 = get_rotation_0(v3(0, S, 0));
    assert_eq!(r0, id);
    let rz = get_rotation_0(v3(0, 0, S));
    assert_eq!(rz, id);
}

#[test]
fn rotation_quarter_turn_about_z() {
    // cos 90 deg = 0, sin 90 deg = 1.
    let r = get_rotation(v3(0, 0, S), 0, S);
    assert_eq!(r.r0, V4 { x: 0, y: -S, z: 0, w: 0 });
    assert_eq!(r.r1, V4 { x: S, y: 0, z: 0, w: 0 });
    assert_eq!(r.r2, V4 { x: 0, y: 0, z: S, w: 0 });
    assert_eq!(r.r3, V4 { x: 0, y: 0, z: 0, w: S });
    // Orthogonality on the concrete matrix: transpose(R) * R == I.
    let rtr = mat_mul(&transpose(&r), &r);
    assert_eq!(rtr, m4_identity());
}

#[test]
fn view_and_model_matrices() {
    let v = get_view_matrix(v3(S, 2 * S, 3 * S));
    assert_eq!(v.r0.w, -S);
    assert_eq!(v.r1.w, -2 * S);
    assert_eq!(v.r2.w, -3 * S);
    let m = get_model_matrix(0, S);
    assert_eq!(m.r0, V4 { x: 0, y: -S, z: 0, w: 0 });
    assert_eq!(m.r1, V4 { x: S, y: 0, z: 0, w: 0 });
    let my = get_model_matrix_y(S, 0, 2 * S);
    assert_eq!(my.r0.x, 2 * S);
    assert_eq!(my.r1.y, 2 * S);
}

#[test]
fn projection_matrix_entries() {
    // tan(fov/2) = 1, aspect 1, near 1, far 3:
    // t = -1, r = -1, so the diagonal is (-1, -1), the z row
    // ((1+3)/(1-3), -(2*3*1)/(1-3)) = (-2, 3), and the last row (0,0,1,0).
    let p = get_projection_matrix(S, S, S, 3 * S);
    assert_eq!(p.r0.x, -S);
    assert_eq!(p.r1.y, -S);
    assert_eq!(p.r2.z, -2 * S);
    assert_eq!(p.r2.w, 3 * S);
    assert_eq!(p.r3, V4 { x: 0, y: 0, z: S, w: 0 });
    assert_eq!(p.r0.y, 0);
    assert_eq!(p.r2.x, 0);
}

#[test]
fn jitter_advances_cursor_and_perturbs() {
    let mut cursor: u64 = 0;
    let j0 = get_jitter(S, S, S, 3 * S, &mut cursor);
    assert_eq!(cursor, 1);
    // The offsets land in the top two rows; step 0 has a zero x offset
    // and a nonzero y offset, and the depth rows stay unjittered.
    let base = get_projection_matrix(S, S, S, 3 * S);
    assert_eq!(j0.r0.z, 0);
    assert_ne!(j0.r1.z, 0);
    assert_eq!(j0.r0.x, base.r0.x);
    assert_eq!(j0.r1.y, base.r1.y);
    assert_eq!(j0.r2, base.r2);
    assert_eq!(j0.r3, base.r3);
    let mut c7: u64 = 7;
    let _ = get_jitter(S, S, S, 3 * S, &mut c7);
    assert_eq!(c7, 0);
}

#[test]
fn inside_triangle_edge_exclusive() {
    let tri = [
        V4 { x: 0, y: 0, z: 0, w: S },
        V4 { x: 10 * S, y: 0, z: 0, w: S },
        V4 { x: 5 * S, y: 10 * S, z: 0, w: S },
    ];
    assert!(inside_triangle(5 * S, 5 * S, &tri));
    assert!(!inside_triangle(5 * S, -S, &tri));
    // A point exactly on an edge is outside.
    assert!(!inside_triangle(5 * S, 0, &tri));
    // Swapped winding gives the same answer.
    let tri_ccw = [tri[1], tri[0], tri[2]];
    assert!(inside_triangle(5 * S, 5 * S, &tri_ccw));
    assert!(!inside_triangle(5 * S, 0, &tri_ccw));
}

#[test]
fn barycentric_weights() {
    let tri = [
        V4 { x: 0, y: 0, z: 0, w: S },
        V4 { x: 10 * S, y: 0, z: 0, w: S },
        V4 { x: 0, y: 10 * S, z: 0, w: S },
    ];
    let (a, b, c) = compute_barycentric2d(0, 0, &tri);
    assert_eq!((a, b, c), (S, 0, 0));
    let (a, b, c) = compute_barycentric2d(5 * S, 5 * S, &tri);
    assert_eq!(a, 0);
    assert_eq!(b, S / 2);
    assert_eq!(c, S / 2);
}

fn big_triangle(color: V3, z: i64) -> Triangle {
    let mut t = Triangle::new();
    t.set_vertex(0, V4 { x: -20 * S, y: -20 * S, z, w: S });
    t.set_vertex(1, V4 { x: 40 * S, y: -20 * S, z, w: S });
    t.set_vertex(2, V4 { x: -20 * S, y: 40 * S, z, w: S });
    t.set_color(0, color.x, color.y, color.z);
    t.set_color(1, color.x, color.y, color.z);
    t.set_color(2, color.x, color.y, color.z);
    t
}

#[test]
fn depth_test_nearer_wins_either_order() {
    let red = v3(255 * S, 0, 0);
    let blue = v3(0, 0, 255 * S);
    let a = big_triangle(red, S / 2);
    let b = big_triangle(blue, 3 * S / 10);
    // A then B: the nearer B wins.
    let mut r = Rasterizer::new(2, 2);
    r.rasterize_triangle_msaa(&a);
    r.rasterize_triangle_msaa(&b);
    assert_eq!(r.frame_buffer()[0], blue);
    // B then A: B still wins.
    let mut r2 = Rasterizer::new(2, 2);
    r2.rasterize_triangle_msaa(&b);
    r2.rasterize_triangle_msaa(&a);
    assert_eq!(r2.frame_buffer()[0], blue);
}

#[test]
fn msaa_single_subsample_blend() {
    // A triangle covering exactly the (1/4, 1/4) sub-sample of the only
    // pixel: the pixel becomes 1/4 triangle color + 3/4 background.
    let mut t = Triangle::new();
    t.set_vertex(0, V4 { x: 0, y: 0, z: S / 2, w: S });
    t.set_vertex(1, V4 { x: 6 * S / 10, y: 0, z: S / 2, w: S });
    t.set_vertex(2, V4 { x: 0, y: 6 * S / 10, z: S / 2, w: S });
    t.set_color(0, 255 * S, 0, 100 * S);
    t.set_color(1, 255 * S, 0, 100 * S);
    t.set_color(2, 255 * S, 0, 100 * S);
    let mut r = Rasterizer::new(1, 1);
    r.rasterize_triangle_msaa(&t);
    let px = r.frame_buffer()[0];
    assert_eq!(px.x, 255 * S / 4);
    assert_eq!(px.y, 0);
    assert_eq!(px.z, 100 * S / 4);
}

#[test]
fn msaa_full_coverage_keeps_flat_color() {
    let green = v3(0, 200 * S, 0);
    let t = big_triangle(green, S / 2);
    let mut r = Rasterizer::new(2, 2);
    r.rasterize_triangle_msaa(&t);
    for px in r.frame_buffer().iter() {
        assert_eq!(*px, green);
    }
}

#[test]
fn fxaa_uniform_frame_unchanged() {
    // A freshly cleared frame is uniform; the pass must copy it through.
    let mut r = Rasterizer::new(4, 4);
    assert!(r.fxaa_pass().is_ok());
    for px in r.frame_buffer().iter() {
        assert_eq!(*px, v3(0, 0, 0));
    }
    // A uniform non-black frame, via a triangle covering every pixel.
    let grey = v3(100 * S, 100 * S, 100 * S);
    let mut r2 = Rasterizer::new(4, 4);
    r2.rasterize_triangle(&big_triangle(grey, S / 2));
    assert!(r2.fxaa_pass().is_ok());
    for px in r2.frame_buffer().iter() {
        assert_eq!(*px, grey);
    }
}

#[test]
fn draw_validates_and_rasterizes() {
    let mut r = Rasterizer::new(4, 4);
    // Identity transforms: positions pass straight through projection.
    r.set_model(m4_identity());
    r.set_view(m4_identity());
    r.set_projection(m4_identity());
    let positions = vec![v3(-3 * S, -3 * S, 0), v3(3 * S, -3 * S, 0), v3(-3 * S, 3 * S, 0)];
    let colors = vec![v3(255 * S, 0, 0); 3];
    let inds = vec![(0usize, 1usize, 2usize)];
    let ph = r.load_position(&positions);
    let ih = r.load_indices(&inds);
    let ch = r.load_colors(&colors);
    assert!(r.draw(ph, ih, ch, Primitive::Triangle).is_ok());
    // An unknown handle is rejected without touching anything.
    let bad = softraster::rasterizer::PosBufId(99);
    assert_eq!(r.draw(bad, ih, ch, Primitive::Triangle), Err(RasterError::InvalidHandle));
    // A dangling index triple is rejected.
    let ih2 = r.load_indices(&vec![(0usize, 1usize, 9usize)]);
    assert_eq!(r.draw(ph, ih2, ch, Primitive::Triangle), Err(RasterError::IndexOutOfBounds));
    // A zero projection row makes every vertex degenerate.
    let mut rz = Rasterizer::new(4, 4);
    rz.set_model(m4_identity());
    rz.set_view(m4_identity());
    let mut zero_w = m4_identity();
    zero_w.r3 = V4 { x: 0, y: 0, z: 0, w: 0 };
    rz.set_projection(zero_w);
    let ph2 = rz.load_position(&positions);
    let ih3 = rz.load_indices(&inds);
    let ch2 = rz.load_colors(&colors);
    assert_eq!(rz.draw(ph2, ih3, ch2, Primitive::Triangle), Err(RasterError::Degenerate));
}

#[test]
fn draw_then_fxaa_full_coverage_uniform() {
    let mut r = Rasterizer::new(4, 4);
    r.set_model(m4_identity());
    r.set_view(m4_identity());
    r.set_projection(m4_identity());
    let positions = vec![v3(-40 * S, -40 * S, 0), v3(80 * S, -40 * S, 0), v3(-40 * S, 80 * S, 0)];
    let teal = v3(0, 120 * S, 120 * S);
    let colors = vec![teal; 3];
    let ph = r.load_position(&positions);
    let ih = r.load_indices(&vec![(0usize, 1usize, 2usize)]);
    let ch = r.load_colors(&colors);
    assert!(r.draw(ph, ih, ch, Primitive::Triangle).is_ok());
    assert!(r.fxaa_pass().is_ok());
    for px in r.frame_buffer().iter() {
        assert_eq!(*px, teal);
    }
}

#[test]
fn clear_resets_buffers() {
    let grey = v3(9 * S, 9 * S, 9 * S);
    let mut r = Rasterizer::new(2, 2);
    r.rasterize_triangle_msaa(&big_triangle(grey, S / 2));
    r.clear(Buffer::Both);
    for px in r.frame_buffer().iter() {
        assert_eq!(*px, v3(0, 0, 0));
    }
    let _ = DEPTH_INF;
}

fn checker_texture() -> Texture {
    // 2x2 grid, stored in decoder (b, g, r) order.
    let data = vec![
        v3(255 * S, 0, 0),
        v3(0, 255 * S, 0),
        v3(0, 0, 255 * S),
        v3(255 * S, 255 * S, 0),
    ];
    Texture::new(data, 2, 2)
}

#[test]
fn bilinear_exact_at_texel() {
    let t = checker_texture();
    // (u, v) = (0, 1) maps exactly onto texel (0, 0): channel-swapped out.
    let c = t.getColorBilinear(0, S);
    assert_eq!(c, v3(0, 0, 255 * S));
    // (u, v) = (1, 1) maps onto texel (0, 1) after edge clamping.
    let c2 = t.getColorBilinear(S, S);
    assert_eq!(c2, v3(0, 255 * S, 0));
    // (u, v) = (0, 0) maps to the bottom row, texel (1, 0).
    let c3 = t.getColorBilinear(0, 0);
    assert_eq!(c3, v3(255 * S, 0, 0));
    // Out-of-range UV is clamped, not rejected.
    let c4 = t.getColorBilinear(-5 * S, 2 * S);
    assert_eq!(c4, c);
}

#[test]
fn texture_copy_preserves_grid() {
    let t = checker_texture();
    let d = t.duplicate();
    assert_eq!(d.width, t.width);
    assert_eq!(d.height, t.height);
    for i in 0..t.img_data.len() {
        assert_eq!(d.img_data[i], t.img_data[i]);
    }
    assert!(t.in_range());
}

#[test]
fn bilinear_midpoint_mixes() {
    let data = vec![v3(0, 0, 0), v3(100 * S, 100 * S, 100 * S)];
    let t = Texture::new(data, 2, 1);
    // A quarter along u: halfway between the two texels' contributions.
    let c = t.getColorBilinear(S / 4, S);
    assert_eq!(c, v3(50 * S, 50 * S, 50 * S));
    let a = v3(0, 0, 0);
    let b = v3(100 * S, 100 * S, 100 * S);
    let m = lerp1(S / 2, &a, &b);
    assert_eq!(m, v3(50 * S, 50 * S, 50 * S));
    let m2 = lerp2(0, &a, &b);
    assert_eq!(m2, a);
}

#[test]
fn shader_selection_by_name() {
    assert_eq!(choose_shader_texture("normal"), FragmentShaderKind::Normal);
    assert_eq!(choose_shader_texture("texture"), FragmentShaderKind::Texture);
    assert_eq!(choose_shader_texture("phong"), FragmentShaderKind::Phong);
    assert_eq!(choose_shader_texture("bump"), FragmentShaderKind::Bump);
    assert_eq!(choose_shader_texture("displacement"), FragmentShaderKind::Displacement);
    // Anything else falls back to Phong.
    assert_eq!(choose_shader_texture("nonsense"), FragmentShaderKind::Phong);
    assert_eq!(choose_shader_texture(""), FragmentShaderKind::Phong);
}

#[test]
fn vertex_shader_is_identity() {
    let p = VertexShaderPayload { position: v3(S, 2 * S, 3 * S) };
    assert_eq!(vertex_shader(&p), v3(S, 2 * S, 3 * S));
}

#[test]
fn normal_shader_maps_axis_to_channel() {
    let payload = FragmentShaderPayload::new(
        v3(0, 0, 0),
        v3(0, 0, S),
        v3(0, 0, 0),
        V2 { x: 0, y: 0 },
    );
    let c = normal_fragment_shader(&payload);
    // A +z unit normal maps to (0.5, 0.5, 1.0) * 255.
    assert_eq!(c.x, 255 * S / 2);
    assert_eq!(c.y, 255 * S / 2);
    assert_eq!(c.z, 255 * S);
    assert_eq!(length(v3(3 * S, 4 * S, 0)), 5 * S);
}

#[test]
fn phong_shader_lights_a_facing_surface() {
    let payload = FragmentShaderPayload::new(
        v3(148 * S, 121 * S, 92 * S),
        v3(0, 0, S),
        v3(0, 0, 0),
        V2 { x: 0, y: 0 },
    );
    let lit = phong_fragment_shader(&payload);
    // Both lights sit in front of the surface: every channel accumulates
    // ambient plus positive diffuse and specular light.
    assert!(lit.x > 0);
    assert!(lit.y > 0);
    assert!(lit.z > 0);
    // More diffuse reflectance means more light on the red channel.
    let dimmer = FragmentShaderPayload::new(
        v3(10 * S, 121 * S, 92 * S),
        v3(0, 0, S),
        v3(0, 0, 0),
        V2 { x: 0, y: 0 },
    );
    let dim = phong_fragment_shader(&dimmer);
    assert!(dim.x < lit.x);
    assert_eq!(dim.y, lit.y);
    // A zero normal is guarded, not a crash.
    let degenerate = FragmentShaderPayload::new(
        v3(148 * S, 121 * S, 92 * S),
        v3(0, 0, 0),
        v3(0, 0, 0),
        V2 { x: 0, y: 0 },
    );
    assert_eq!(phong_fragment_shader(&degenerate), v3(0, 0, 0));
}

#[test]
fn texture_shader_uses_sample_or_black() {
    let payload = FragmentShaderPayload::new(
        v3(148 * S, 121 * S, 92 * S),
        v3(0, 0, S),
        v3(0, 0, 0),
        V2 { x: 0, y: S },
    );
    let tex = checker_texture();
    let with_tex = texture_fragment_shader(&payload, Some(&tex));
    let without = texture_fragment_shader(&payload, None);
    // The bound texture's red texel lights the red channel harder than
    // the black fallback does.
    assert!(with_tex.z > without.z);
    let dispatched = run_fragment_shader(FragmentShaderKind::Texture, &payload, Some(&tex));
    assert_eq!(dispatched, with_tex);
}

#[test]
fn stub_shaders() {
    let payload = FragmentShaderPayload::new(
        v3(10 * S, 20 * S, 30 * S),
        v3(1000, 2000, 3000),
        v3(0, 0, 0),
        V2 { x: 0, y: 0 },
    );
    assert_eq!(bump_fragment_shader(&payload), v3(255000, 510000, 765000));
    assert_eq!(displacement_fragment_shader(&payload), v3(0, 0, 0));
}

#[test]
fn matrix_and_vector_helpers() {
    let id = m4_identity();
    let m = mat_mul(&id, &id);
    assert_eq!(m, id);
    let p = mat_vec_mul(&id, &V4 { x: 3 * S, y: -2 * S, z: S, w: S });
    assert_eq!(p, V4 { x: 3 * S, y: -2 * S, z: S, w: S });
    assert_eq!(elemul(v3(2 * S, 3 * S, 4 * S), v3(S / 2, S, 2 * S)), v3(S, 3 * S, 8 * S));
    let t = transpose(&get_view_matrix(v3(S, 0, 0)));
    assert_eq!(t.r3.x, -S);
}

#[test]
fn triangle_setters() {
    let mut t = Triangle::new();
    t.set_vertex(1, V4 { x: S, y: 2 * S, z: 3 * S, w: S });
    t.set_normal(2, v3(0, S, 0));
    t.set_color(0, 1, 2, 3);
    t.set_tex_coord(1, S / 2, S / 4);
    assert_eq!(t.v[1].y, 2 * S);
    assert_eq!(t.normal[2].y, S);
    assert_eq!(t.get_color(), v3(1, 2, 3));
    assert_eq!(t.tex_coords[1], V2 { x: S / 2, y: S / 4 });
}

#[test]
fn barycentric_variants_and_interpolation() {
    let s = FX_ONE;
    let tri4 = [
        V4 { x: 0, y: 0, z: 0, w: s },
        V4 { x: 10 * s, y: 0, z: 0, w: s },
        V4 { x: 0, y: 10 * s, z: 0, w: s },
    ];
    let tri3 = [v3(0, 0, 0), v3(10 * s, 0, 0), v3(0, 10 * s, 0)];
    let a = softraster::rasterizer::compute_barycentric2d_1(2 * s, 2 * s, &tri4);
    let b = softraster::rasterizer::compute_barycentric2d_2(2 * s, 2 * s, &tri3);
    assert_eq!(a, b);
    // Each weight rounds toward zero, so the sum may sit just under one.
    assert!((a.0 + a.1 + a.2 - s).abs() <= 3);
    // Equal weights average the attributes; a unit weight divides away.
    let third = s / 3;
    let m = Rasterizer::interpolate_vec3(third, third, third, v3(3 * s, 0, 0), v3(6 * s, 0, 0), v3(9 * s, 0, 0), s);
    assert!((m.x - 6 * s).abs() <= 8);
    let uv = Rasterizer::interpolate_vec2(s, 0, 0, V2 { x: 7, y: 9 }, V2 { x: 0, y: 0 }, V2 { x: 0, y: 0 }, s);
    assert_eq!(uv, V2 { x: 7, y: 9 });
}

#[test]
fn mesh_gather_assembles_triangles() {
    let s = FX_ONE;
    let positions = vec![0, 0, 0, 2 * s, 0, 0, 0, 2 * s, 0];
    let normals = vec![0, 0, s, 0, 0, s, 0, 0, s];
    let texcoords: Vec<i64> = vec![];
    let indices = vec![0usize, 1, 2];
    let tris = softraster::triangle::assemble_triangles(&positions, &normals, &texcoords, &indices)
        .expect("gather");
    assert_eq!(tris.len(), 1);
    assert_eq!(tris[0].v[1], V4 { x: 2 * s, y: 0, z: 0, w: s });
    assert_eq!(tris[0].normal[2], v3(0, 0, s));
    assert_eq!(tris[0].tex_coords[0], V2 { x: 0, y: 0 });
    // A dangling index leaves nothing behind.
    let bad = vec![0usize, 1, 7];
    assert!(softraster::triangle::assemble_triangles(&positions, &normals, &texcoords, &bad)
        .is_none());
}

#[test]
fn shader_driven_draw_renders_normals() {
    let s = FX_ONE;
    let mut r = Rasterizer::new(4, 4);
    r.set_model(m4_identity());
    r.set_view(m4_identity());
    r.set_projection(m4_identity());
    r.set_fragment_shader(FragmentShaderKind::Normal);
    r.set_vertex_shader(VertexShaderKind::Identity);
    let mut t = Triangle::new();
    t.set_vertex(0, V4 { x: -s / 2, y: -s / 2, z: 0, w: s });
    t.set_vertex(1, V4 { x: s / 2, y: -s / 2, z: 0, w: s });
    t.set_vertex(2, V4 { x: -s / 2, y: s / 2, z: 0, w: s });
    t.set_normal(0, v3(0, 0, s));
    t.set_normal(1, v3(0, 0, s));
    t.set_normal(2, v3(0, 0, s));
    let tris = vec![t];
    assert!(r.draw_triangles(&tris, &m4_identity()).is_ok());
    // Screen vertices are (1,1), (3,1), (1,3); pixel (1,1) is inside and
    // shows the +z unit normal as (0.5, 0.5, 1.0) * 255.
    let px = r.frame_buffer()[(4 - 1 - 1) * 4 + 1];
    assert_eq!(px.x, 255 * s / 2);
    assert_eq!(px.y, 255 * s / 2);
    assert_eq!(px.z, 255 * s);
    // A pixel outside the triangle keeps the background.
    let bg = r.frame_buffer()[(4 - 1 - 3) * 4 + 3];
    assert_eq!(bg, v3(0, 0, 0));
    // A non-affine vertex is rejected whole, buffers untouched.
    let mut t2 = Triangle::new();
    t2.set_vertex(0, V4 { x: 0, y: 0, z: 0, w: 0 });
    assert_eq!(
        r.draw_triangles(&vec![t2], &m4_identity()),
        Err(RasterError::OutOfRange)
    );
}

#[test]
fn derive_screen_triangle() {
    let s = FX_ONE;
    let mut t = Triangle::new();
    t.set_vertex(0, V4 { x: 0, y: 0, z: 0, w: s });
    t.set_vertex(1, V4 { x: s / 2, y: 0, z: 0, w: s });
    t.set_vertex(2, V4 { x: 0, y: s / 2, z: 0, w: s });
    t.set_normal(0, v3(0, 0, s));
    t.set_normal(1, v3(0, 0, s));
    t.set_normal(2, v3(0, 0, s));
    let id = m4_identity();
    let (tri, vp) = Rasterizer::get_new_tri(&t, &id, &id, &id, &id, 4, 4).expect("derive");
    // The origin maps to the viewport center (2, 2) with unit w.
    assert_eq!(tri.v[0], V4 { x: 2 * s, y: 2 * s, z: softraster::rasterizer::DEPTH_F2, w: s });
    // The flat base color is (148, 121, 92) at scale.
    assert_eq!(tri.color[0], v3(148 * s, 121 * s, 92 * s));
    // View-space positions pass through identity transforms.
    assert_eq!(vp[1], v3(s / 2, 0, 0));
    // Normals pass through the identity normal transform.
    assert_eq!(tri.normal[0], v3(0, 0, s));
}

#[test]
fn handles_share_one_counter() {
    let s = FX_ONE;
    let mut r = Rasterizer::new(2, 2);
    let positions = vec![v3(0, 0, 0), v3(s, 0, 0), v3(0, s, 0)];
    let colors = vec![v3(s, 0, 0); 3];
    let inds = vec![(0usize, 1usize, 2usize)];
    // Loads of any kind mint strictly increasing ids, never reused.
    let ph = r.load_position(&positions);
    let ih = r.load_indices(&inds);
    let ch = r.load_colors(&colors);
    let ph2 = r.load_position(&positions);
    assert_eq!(ph.0, 0);
    assert_eq!(ih.0, 1);
    assert_eq!(ch.0, 2);
    assert_eq!(ph2.0, 3);
    // A handle of the wrong kind names no loaded buffer of that kind.
    r.set_model(m4_identity());
    r.set_view(m4_identity());
    r.set_projection(m4_identity());
    let wrong = softraster::rasterizer::PosBufId(ih.0);
    assert_eq!(r.draw(wrong, ih, ch, Primitive::Triangle), Err(RasterError::InvalidHandle));
    assert!(r.draw(ph, ih, ch, Primitive::Triangle).is_ok());
}
