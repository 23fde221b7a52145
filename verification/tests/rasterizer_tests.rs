use rasterizer::Bary;
use rasterizer::Mat4;
use rasterizer::Painter;
use rasterizer::Vec2;
use rasterizer::Vec3;
use rasterizer::Vertex;
use rasterizer::create_model;
use rasterizer::get_cube_model;
use rasterizer::max;
use rasterizer::min;
use rasterizer::project_model;
use rasterizer::tranform_model;

const FP: i64 = 65536;
const HALF: i64 = 32768;

fn v2(x: i64, y: i64) -> Vec2 {
    Vec2 { x, y }
}

fn px(x: i64) -> i64 {
    x * FP
}

fn vert(x: i64, y: i64, z: i64, r: i64, g: i64, b: i64) -> Vertex {
    Vertex { pos: Vec3 { x, y, z }, colour: Vec3 { x: r, y: g, z: b } }
}

fn edge64(v0: (i64, i64), v1: (i64, i64), p: (i64, i64)) -> i64 {
    (p.0 - v0.0) * (v1.1 - v0.1) - (p.1 - v0.1) * (v1.0 - v0.0)
}

fn interp(w0: i64, w1: i64, w2: i64, area: i64, a: i64, b: i64, c: i64) -> i64 {
    (((w0 as i128) * (a as i128) + (w1 as i128) * (b as i128) + (w2 as i128) * (c as i128))
        / (area as i128)) as i64
}

/// The oracle: what one pixel must hold after one triangle on a fresh
/// buffer, computed straight from the documented weight formula.
fn expected_at(a: &Vertex, b: &Vertex, c: &Vertex, x: u32, y: u32) -> Option<(u8, u8, u8, i64)> {
    let cx = (x as i64) * FP + HALF;
    let cy = (y as i64) * FP + HALF;
    let pa = (a.pos.x, a.pos.y);
    let pb = (b.pos.x, b.pos.y);
    let pc = (c.pos.x, c.pos.y);
    let area = edge64(pa, pb, pc);
    let w0 = edge64(pb, pc, (cx, cy));
    let w1 = edge64(pc, pa, (cx, cy));
    let w2 = edge64(pa, pb, (cx, cy));
    if area > 0 && w0 >= 0 && w1 >= 0 && w2 >= 0 {
        let rc = interp(w0, w1, w2, area, a.colour.x, b.colour.x, c.colour.x);
        let gc = interp(w0, w1, w2, area, a.colour.y, b.colour.y, c.colour.y);
        let bc = interp(w0, w1, w2, area, a.colour.z, b.colour.z, c.colour.z);
        let z = interp(w0, w1, w2, area, a.pos.z, b.pos.z, c.pos.z);
        Some((
            ((255 * rc) / FP) as u8,
            ((255 * gc) / FP) as u8,
            ((255 * bc) / FP) as u8,
            z,
        ))
    } else {
        None
    }
}

fn at(p: &Painter, x: u32, y: u32) -> (u8, u8, u8, i64) {
    let i = (y * 512 + x) as usize;
    let c = p.frame_buffer[i];
    (c.r, c.g, c.b, p.depth_buffer[i])
}

#[test]
fn min_max_basics() {
    assert_eq!(min(3, 5), 3);
    assert_eq!(min(5, 3), 3);
    assert_eq!(max(3, 5), 5);
    assert_eq!(max(-7, -9), -7);
    assert_eq!(min(-7, -9), -9);
}

#[test]
fn edge_sign_flips_on_swap() {
    let a = v2(0, 0);
    let b = v2(0, px(4));
    let c = v2(px(4), 0);
    let e = Painter::edge(&a, &b, &c);
    assert!(e > 0);
    assert_eq!(Painter::edge(&b, &a, &c), -e);
    assert_eq!(Painter::edge(&a, &c, &b), -e);
    assert_eq!(Painter::edge(&c, &b, &a), -e);
}

#[test]
fn barycentric_partition_of_unity() {
    let a = v2(0, 0);
    let b = v2(0, px(4));
    let c = v2(px(4), 0);
    let p = v2(px(1) + HALF, px(1) + HALF);
    let w = Painter::map_triangle_pos(&p, &a, &b, &c).expect("point is inside");
    assert!(w.area > 0);
    assert_eq!(w.w0 + w.w1 + w.w2, w.area);
    assert!(w.w0 >= 0 && w.w0 <= w.area);
    assert!(w.w1 >= 0 && w.w1 <= w.area);
    assert!(w.w2 >= 0 && w.w2 <= w.area);
}

#[test]
fn map_triangle_pos_rejects_outside_and_reversed() {
    let a = v2(0, 0);
    let b = v2(0, px(4));
    let c = v2(px(4), 0);
    let outside = v2(px(5), px(5));
    assert!(Painter::map_triangle_pos(&outside, &a, &b, &c).is_none());
    // reversed winding: negative area, containment always fails
    let inside = v2(px(1), px(1));
    assert!(Painter::map_triangle_pos(&inside, &a, &c, &b).is_none());
}

#[test]
fn vertex_reproduction() {
    let a = vert(px(1), px(2), -px(3), FP, 0, FP / 2);
    let b = vert(px(4), -px(5), px(6), 0, FP, FP / 4);
    let c = vert(-px(7), px(8), px(9), FP / 8, FP / 2, 0);
    let ra = Vertex::interpolate(&a, &b, &c, &Bary { w0: 7, w1: 0, w2: 0, area: 7 });
    assert_eq!(ra, a);
    let rb = Vertex::interpolate(&a, &b, &c, &Bary { w0: 0, w1: 7, w2: 0, area: 7 });
    assert_eq!(rb, b);
    let rc = Vertex::interpolate(&a, &b, &c, &Bary { w0: 0, w1: 0, w2: 7, area: 7 });
    assert_eq!(rc, c);
}

#[test]
fn depth_order_independent() {
    // two solid-colour triangles covering pixel (5, 5); T1 is nearer
    let t1 = [
        vert(0, 0, 1000, FP, 0, 0),
        vert(0, px(16), 1000, FP, 0, 0),
        vert(px(16), 0, 1000, FP, 0, 0),
    ];
    let t2 = [
        vert(0, 0, 2000, 0, FP, 0),
        vert(0, px(16), 2000, 0, FP, 0),
        vert(px(16), 0, 2000, 0, FP, 0),
    ];
    let mut p1 = Painter::new(16, 16);
    p1.draw_triangle(&t1[0], &t1[1], &t1[2]);
    p1.draw_triangle(&t2[0], &t2[1], &t2[2]);
    let mut p2 = Painter::new(16, 16);
    p2.draw_triangle(&t2[0], &t2[1], &t2[2]);
    p2.draw_triangle(&t1[0], &t1[1], &t1[2]);
    let i = (5 * 16 + 5) as usize;
    assert_eq!(p1.frame_buffer[i], p2.frame_buffer[i]);
    assert_eq!(p1.depth_buffer[i], 1000);
    assert_eq!(p2.depth_buffer[i], 1000);
    assert_eq!(p1.frame_buffer[i].r, 255);
    assert_eq!(p1.frame_buffer[i].g, 0);
    for j in 0..(16 * 16) as usize {
        assert_eq!(p1.frame_buffer[j], p2.frame_buffer[j]);
        assert_eq!(p1.depth_buffer[j], p2.depth_buffer[j]);
    }
}

#[test]
fn bounding_box_clamped() {
    assert_eq!(Painter::clamp(px(10000), 512), 511);
    assert_eq!(Painter::clamp(-px(5), 512), 0);
    assert_eq!(Painter::clamp(px(3) + 100, 512), 3);
    assert_eq!(Painter::clamp(px(511), 512), 511);
    // a vertex far outside the buffer is cropped, not a crash
    let a = vert(0, 0, 0, FP, 0, 0);
    let b = vert(0, px(300), 0, FP, 0, 0);
    let c = vert(px(10000), 0, 0, FP, 0, 0);
    let mut p = Painter::new(512, 512);
    p.draw_triangle(&a, &b, &c);
    let (r, g, bl, z) = at(&p, 5, 5);
    assert_eq!((r, g, bl), (255, 0, 0));
    assert_eq!(z, 0);
}

#[test]
fn degenerate_triangle_noop() {
    let a = vert(px(10), px(10), 0, FP, 0, 0);
    let b = vert(px(20), px(20), 0, 0, FP, 0);
    let c = vert(px(30), px(30), 0, 0, 0, FP);
    let mut p = Painter::new(64, 64);
    p.draw_triangle(&a, &b, &c);
    // coincident corners too
    p.draw_triangle(&a, &a, &a);
    for j in 0..(64 * 64) as usize {
        assert_eq!(p.frame_buffer[j].r, 0);
        assert_eq!(p.frame_buffer[j].g, 0);
        assert_eq!(p.frame_buffer[j].b, 0);
        assert_eq!(p.depth_buffer[j], i64::MAX);
    }
}

#[test]
fn end_to_end_triangle() {
    let a = vert(px(10), px(10), 0, FP, 0, 0);
    let b = vert(px(10), px(500), 0, 0, FP, 0);
    let c = vert(px(500), px(10), 0, 0, 0, FP);
    let mut p = Painter::new(512, 512);
    p.draw_triangle(&a, &b, &c);
    // outside the bounding box the background is untouched
    assert_eq!(at(&p, 0, 0), (0, 0, 0, i64::MAX));
    assert_eq!(at(&p, 5, 5), (0, 0, 0, i64::MAX));
    assert_eq!(at(&p, 505, 505), (0, 0, 0, i64::MAX));
    // (15, 15): near corner (10, 10), so weighted toward red
    let (er, eg, eb, ez) = expected_at(&a, &b, &c, 15, 15).expect("pixel inside");
    assert_eq!(at(&p, 15, 15), (er, eg, eb, ez));
    assert!(er > eg && er > eb);
    // (490, 15): nearest the blue corner (500, 10)
    let (er2, eg2, eb2, ez2) = expected_at(&a, &b, &c, 490, 15).expect("pixel inside");
    assert_eq!(at(&p, 490, 15), (er2, eg2, eb2, ez2));
    assert!(eb2 > er2 && eb2 > eg2);
    // a pixel inside the bounding box but outside the triangle stays background
    assert!(expected_at(&a, &b, &c, 499, 499).is_none());
    assert_eq!(at(&p, 499, 499), (0, 0, 0, i64::MAX));
}

fn fixed(v: f32) -> i64 {
    ((v as f64) * 65536.0).round() as i64
}

fn mat_fixed(m: &cgmath::Matrix4<f32>) -> Mat4 {
    Mat4 {
        m00: fixed(m.x.x),
        m01: fixed(m.y.x),
        m02: fixed(m.z.x),
        m03: fixed(m.w.x),
        m10: fixed(m.x.y),
        m11: fixed(m.y.y),
        m12: fixed(m.z.y),
        m13: fixed(m.w.y),
        m20: fixed(m.x.z),
        m21: fixed(m.y.z),
        m22: fixed(m.z.z),
        m23: fixed(m.w.z),
        m30: fixed(m.x.w),
        m31: fixed(m.y.w),
        m32: fixed(m.z.w),
        m33: fixed(m.w.w),
    }
}

#[test]
fn transform_model_affine() {
    let mut m = vec![vert(px(1), px(2), px(3), FP, 0, 0)];
    let identity = Mat4 {
        m00: FP,
        m01: 0,
        m02: 0,
        m03: 0,
        m10: 0,
        m11: FP,
        m12: 0,
        m13: 0,
        m20: 0,
        m21: 0,
        m22: FP,
        m23: 0,
        m30: 0,
        m31: 0,
        m32: 0,
        m33: FP,
    };
    tranform_model(&mut m, identity);
    assert_eq!(m[0], vert(px(1), px(2), px(3), FP, 0, 0));
    let translate = Mat4 { m03: 2 * FP, m13: -FP, m23: FP / 2, ..identity };
    tranform_model(&mut m, translate);
    assert_eq!(m[0].pos, Vec3 { x: px(3), y: px(1), z: px(3) + FP / 2 });
    assert_eq!(m[0].colour, Vec3 { x: FP, y: 0, z: 0 });
}

#[test]
fn project_model_divides_by_w() {
    let mut m = vec![vert(FP, -FP, HALF, 0, FP, 0)];
    // identity on x, y, z; w row makes w == 2.0
    let mat = Mat4 {
        m00: FP,
        m01: 0,
        m02: 0,
        m03: 0,
        m10: 0,
        m11: FP,
        m12: 0,
        m13: 0,
        m20: 0,
        m21: 0,
        m22: FP,
        m23: 0,
        m30: 0,
        m31: 0,
        m32: 0,
        m33: 2 * FP,
    };
    project_model(&mut m, mat);
    assert_eq!(m[0].pos, Vec3 { x: HALF, y: -HALF, z: HALF / 2 });
}

#[test]
fn create_model_picks_by_index() {
    let positions = vec![Vec3 { x: 1, y: 2, z: 3 }, Vec3 { x: 4, y: 5, z: 6 }];
    let colours = vec![Vec3 { x: FP, y: 0, z: 0 }, Vec3 { x: 0, y: FP, z: 0 }];
    let indices: Vec<usize> = vec![1, 0, 1];
    let m = create_model(&positions, &colours, &indices);
    assert_eq!(m.len(), 3);
    assert_eq!(m[0].pos, positions[1]);
    assert_eq!(m[0].colour, colours[1]);
    assert_eq!(m[1].pos, positions[0]);
    assert_eq!(m[2].pos, positions[1]);
}

#[test]
fn cube_model_shape() {
    let m = get_cube_model();
    assert_eq!(m.len(), 36);
    assert_eq!(m[0].pos, Vec3 { x: -FP, y: -FP, z: -FP });
    assert_eq!(m[0].colour, Vec3 { x: FP, y: 0, z: 0 });
    assert_eq!(m[1].pos, Vec3 { x: FP, y: -FP, z: -FP });
    assert_eq!(m[1].colour, Vec3 { x: 0, y: FP, z: 0 });
    assert_eq!(m[2].pos, Vec3 { x: FP, y: FP, z: -FP });
    assert_eq!(m[2].colour, Vec3 { x: 0, y: 0, z: FP });
    for v in &m {
        assert!(v.pos.x.abs() == FP && v.pos.y.abs() == FP && v.pos.z.abs() == FP);
        assert!(v.colour.x >= 0 && v.colour.x <= FP);
    }
}

#[test]
fn raster_space_mapping() {
    let p = Painter::new(512, 512);
    let v = vert(0, 0, 77, FP, 0, 0);
    let r = p.to_raster_space(&v);
    assert_eq!(r.pos, Vec3 { x: 256 * FP, y: 256 * FP, z: 77 });
    assert_eq!(r.colour, v.colour);
    let lo = p.to_raster_space(&vert(-FP, -FP, 5, 0, 0, 0));
    assert_eq!(lo.pos, Vec3 { x: 0, y: 0, z: 5 });
    let hi = p.to_raster_space(&vert(FP, FP, 5, 0, 0, 0));
    assert_eq!(hi.pos, Vec3 { x: 512 * FP, y: 512 * FP, z: 5 });
}

#[test]
fn cube_projection_scene() {
    #[allow(deprecated)]
    let view = cgmath::Matrix4::look_at(
        cgmath::Point3::new(1.5, -3.0, -2.0),
        cgmath::Point3::new(0.0, 0.0, 0.0),
        cgmath::Vector3::new(0.0, 0.0, 1.0),
    );
    let proj = cgmath::perspective(cgmath::Deg(90.0f32), 1.0, 0.01, 10.0);
    let mut model = get_cube_model();
    tranform_model(&mut model, mat_fixed(&view));
    project_model(&mut model, mat_fixed(&proj));
    for v in &model {
        assert!(v.pos.x.abs() <= rasterizer::NDC_MAX && v.pos.y.abs() <= rasterizer::NDC_MAX);
    }
    let mut p = Painter::new(512, 512);
    p.draw(&model);
    // the cube encloses the view axis: the image centre is covered and
    // carries a finite (nearest-face) depth
    let (r, g, b, z) = at(&p, 256, 256);
    assert!(r > 0 || g > 0 || b > 0);
    assert!(z < i64::MAX);
    // the silhouette does not reach the corner
    assert_eq!(at(&p, 5, 5), (0, 0, 0, i64::MAX));
    // depth ordering makes the image independent of triangle order
    let mut reversed: Vec<Vertex> = Vec::new();
    for t in (0..12).rev() {
        reversed.push(model[3 * t]);
        reversed.push(model[3 * t + 1]);
        reversed.push(model[3 * t + 2]);
    }
    let mut p2 = Painter::new(512, 512);
    p2.draw(&reversed);
    assert_eq!(at(&p2, 256, 256), (r, g, b, z));
}
