use vstd::prelude::*;

verus! {

use crate::fixed::COORD_MAX;
use crate::fixed::FP;
use crate::fixed::HALF;
use crate::fixed::NDC_MAX;
use crate::fixed::div_signed;
use crate::fixed::lemma_abs_mul_bound;
use crate::fixed::lemma_mul_cancel_pos;
use crate::fixed::lemma_mul_mono;
use crate::fixed::lemma_tdiv_bound;
use crate::fixed::tdiv;
use crate::model::Bary;
use crate::model::Model;
use crate::model::Vec2;
use crate::model::Vec3;
use crate::model::Vertex;
use crate::model::interp_val;
use crate::model::vec3_bounded;
use crate::model::vec3_in_unit;
use crate::utils;
use vstd::arithmetic::div_mod::lemma_div_is_ordered;
use vstd::arithmetic::mul::lemma_mul_is_commutative;
use vstd::arithmetic::mul::lemma_mul_is_distributive_add;
use vstd::arithmetic::mul::lemma_mul_is_distributive_sub;
use vstd::arithmetic::div_mod::lemma_fundamental_div_mod;
use vstd::arithmetic::div_mod::lemma_fundamental_div_mod_converse;
use vstd::arithmetic::div_mod::lemma_mod_bound;

/// An output pixel: one byte per colour channel.
#[derive(Clone, Copy, Debug, PartialEq, Eq, Structural)]
pub struct Pixel {
    pub r: u8,
    pub g: u8,
    pub b: u8,
}

/// Largest frame-buffer side length, in pixels. The representation
/// would allow a little more, but 8192 keeps every pixel-centre
/// coordinate comfortably inside `COORD_MAX` and the flat buffer index
/// (at three bytes per pixel) inside a 32-bit `usize`.
pub const MAX_DIM: u32 = 8192;

/// The edge function of the directed line `v0 -> v1` at point `p`:
/// twice the signed area of the triangle `(v0, v1, p)`. Positive when
/// `p` lies to the left of the line, zero on it, negative to the right.
pub open spec fn edge_s(v0x: int, v0y: int, v1x: int, v1y: int, px: int, py: int) -> int {
    (px - v0x) * (v1y - v0y) - (py - v0y) * (v1x - v0x)
}

/// The edge function over raster-space points.
pub open spec fn edge_v(v0: Vec2, v1: Vec2, p: Vec2) -> int {
    edge_s(v0.x as int, v0.y as int, v1.x as int, v1.y as int, p.x as int, p.y as int)
}

/// The x and y of a position, as a raster-space point.
pub open spec fn xy_of(v: Vec3) -> Vec2 {
    Vec2 { x: v.x, y: v.y }
}

/// The fixed-point coordinate of the centre of pixel row or column `i`:
/// `i + 0.5`.
pub open spec fn centre_of(i: int) -> int {
    i * (FP as int) + (HALF as int)
}

/// Twice the signed area of a triangle's raster-space projection.
pub open spec fn area_of(a: Vertex, b: Vertex, c: Vertex) -> int {
    edge_s(a.pos.x as int, a.pos.y as int, b.pos.x as int, b.pos.y as int, c.pos.x as int, c.pos.y as int)
}

/// Weight numerator of vertex `a` at the centre of pixel `(x, y)`.
pub open spec fn w0_at(a: Vertex, b: Vertex, c: Vertex, x: int, y: int) -> int {
    edge_s(b.pos.x as int, b.pos.y as int, c.pos.x as int, c.pos.y as int, centre_of(x), centre_of(y))
}

/// Weight numerator of vertex `b` at the centre of pixel `(x, y)`.
pub open spec fn w1_at(a: Vertex, b: Vertex, c: Vertex, x: int, y: int) -> int {
    edge_s(c.pos.x as int, c.pos.y as int, a.pos.x as int, a.pos.y as int, centre_of(x), centre_of(y))
}

/// Weight numerator of vertex `c` at the centre of pixel `(x, y)`.
pub open spec fn w2_at(a: Vertex, b: Vertex, c: Vertex, x: int, y: int) -> int {
    edge_s(a.pos.x as int, a.pos.y as int, b.pos.x as int, b.pos.y as int, centre_of(x), centre_of(y))
}

/// The barycentric weights of the centre of pixel `(x, y)`.
pub open spec fn bary_at(a: Vertex, b: Vertex, c: Vertex, x: int, y: int) -> Bary {
    Bary {
        w0: w0_at(a, b, c, x, y) as i64,
        w1: w1_at(a, b, c, x, y) as i64,
        w2: w2_at(a, b, c, x, y) as i64,
        area: area_of(a, b, c) as i64,
    }
}

/// The triangle covers pixel `(x, y)`: its signed area is positive (the
/// fixed winding convention; a degenerate triangle covers nothing) and
/// the pixel's centre is inside or on the boundary.
pub open spec fn covers(a: Vertex, b: Vertex, c: Vertex, x: int, y: int) -> bool {
    &&& area_of(a, b, c) > 0
    &&& w0_at(a, b, c, x, y) >= 0
    &&& w1_at(a, b, c, x, y) >= 0
    &&& w2_at(a, b, c, x, y) >= 0
}

/// The interpolated depth of the triangle at the centre of pixel `(x, y)`.
pub open spec fn depth_of(a: Vertex, b: Vertex, c: Vertex, x: int, y: int) -> int {
    interp_val(bary_at(a, b, c, x, y), a.pos.z as int, b.pos.z as int, c.pos.z as int)
}

/// One colour channel scaled from `[0, FP]` fixed point to `[0, 255]`.
pub open spec fn scale255(c: int) -> u8 {
    ((255 * c) / (FP as int)) as u8
}

/// The interpolated, byte-scaled colour of the triangle at the centre of
/// pixel `(x, y)`.
pub open spec fn shade_of(a: Vertex, b: Vertex, c: Vertex, x: int, y: int) -> Pixel {
    let w = bary_at(a, b, c, x, y);
    Pixel {
        r: scale255(interp_val(w, a.colour.x as int, b.colour.x as int, c.colour.x as int)),
        g: scale255(interp_val(w, a.colour.y as int, b.colour.y as int, c.colour.y as int)),
        b: scale255(interp_val(w, a.colour.z as int, b.colour.z as int, c.colour.z as int)),
    }
}

/// The depth value at one pixel after one triangle: the interpolated
/// depth where the triangle covers the pixel and wins the strict depth
/// test against the previous value `d0`, otherwise `d0` unchanged.
pub open spec fn tri_pixel_depth(a: Vertex, b: Vertex, c: Vertex, x: int, y: int, d0: int) -> int {
    if covers(a, b, c, x, y) && depth_of(a, b, c, x, y) < d0 {
        depth_of(a, b, c, x, y)
    } else {
        d0
    }
}

/// The colour at one pixel after one triangle, under the same test.
pub open spec fn tri_pixel_colour(
    a: Vertex,
    b: Vertex,
    c: Vertex,
    x: int,
    y: int,
    d0: int,
    p0: Pixel,
) -> Pixel {
    if covers(a, b, c, x, y) && depth_of(a, b, c, x, y) < d0 {
        shade_of(a, b, c, x, y)
    } else {
        p0
    }
}

/// The clamped bounding-box pixel index of a fixed-point coordinate:
/// floor to a pixel index, then clamp into `[0, d - 1]`.
pub open spec fn clamp_spec(v: int, d: int) -> int {
    if v < 0 {
        0
    } else if v / (FP as int) < d {
        v / (FP as int)
    } else {
        d - 1
    }
}

/// The weight numerators of any point sum to the triangle's area.
#[verifier::rlimit(100)]
proof fn lemma_edge_sum_raw(ax: int, ay: int, bx: int, by: int, cx: int, cy: int, px: int, py: int)
    ensures
        edge_s(bx, by, cx, cy, px, py) + edge_s(cx, cy, ax, ay, px, py) + edge_s(
            ax,
            ay,
            bx,
            by,
            px,
            py,
        ) == edge_s(ax, ay, bx, by, cx, cy),
{
    lemma_edge_translate(bx, by, cx, cy, px, py, px, py);
    lemma_edge_translate(cx, cy, ax, ay, px, py, px, py);
    lemma_edge_translate(ax, ay, bx, by, px, py, px, py);
    lemma_edge_translate(ax, ay, bx, by, cx, cy, px, py);
    let qax = ax - px;
    let qay = ay - py;
    let qbx = bx - px;
    let qby = by - py;
    let qcx = cx - px;
    let qcy = cy - py;
    assert((0 - qbx) * (qcy - qby) - (0 - qby) * (qcx - qbx) == qby * qcx - qbx * qcy)
        by (nonlinear_arith);
    assert((0 - qcx) * (qay - qcy) - (0 - qcy) * (qax - qcx) == qcy * qax - qcx * qay)
        by (nonlinear_arith);
    assert((0 - qax) * (qby - qay) - (0 - qay) * (qbx - qax) == qay * qbx - qax * qby)
        by (nonlinear_arith);
    assert((qcx - qax) * (qby - qay) - (qcy - qay) * (qbx - qax) == qcx * qby - qcx * qay - qax
        * qby - qcy * qbx + qcy * qax + qay * qbx) by (nonlinear_arith);
    assert(edge_s(qax, qay, qbx, qby, qcx, qcy) == edge_s(ax, ay, bx, by, cx, cy));
}

/// With the sample point at the origin, the weighted corners cancel
/// exactly (a pure polynomial identity; every monomial cancels).
#[verifier::rlimit(50)]
proof fn lemma_origin_reconstruct(ax: int, ay: int, bx: int, by: int, cx: int, cy: int)
    ensures
        (by * cx - bx * cy) * ax + (cy * ax - cx * ay) * bx + (ay * bx - ax * by) * cx == 0,
        (by * cx - bx * cy) * ay + (cy * ax - cx * ay) * by + (ay * bx - ax * by) * cy == 0,
{
    assert((by * cx - bx * cy) * ax + (cy * ax - cx * ay) * bx + (ay * bx - ax * by) * cx == 0)
        by (nonlinear_arith);
    assert((by * cx - bx * cy) * ay + (cy * ax - cx * ay) * by + (ay * bx - ax * by) * cy == 0)
        by (nonlinear_arith);
}

/// An edge value is unchanged by translating all three points
/// (a pure degree-two polynomial identity).
#[verifier::rlimit(50)]
proof fn lemma_edge_translate(v0x: int, v0y: int, v1x: int, v1y: int, px: int, py: int, tx: int, ty: int)
    ensures
        edge_s(v0x - tx, v0y - ty, v1x - tx, v1y - ty, px - tx, py - ty) == edge_s(
            v0x,
            v0y,
            v1x,
            v1y,
            px,
            py,
        ),
{
    assert(((px - tx) - (v0x - tx)) * ((v1y - ty) - (v0y - ty)) - ((py - ty) - (v0y - ty)) * ((v1x
        - tx) - (v0x - tx)) == (px - v0x) * (v1y - v0y) - (py - v0y) * (v1x - v0x))
        by (nonlinear_arith);
}

/// The algebraic identities of the edge function: the three weight
/// numerators of any point sum to the triangle's area, and they
/// reconstruct the point's coordinates.
pub proof fn lemma_edge_identities(
    ax: int,
    ay: int,
    bx: int,
    by: int,
    cx: int,
    cy: int,
    px: int,
    py: int,
)
    ensures
        edge_s(bx, by, cx, cy, px, py) + edge_s(cx, cy, ax, ay, px, py) + edge_s(
            ax,
            ay,
            bx,
            by,
            px,
            py,
        ) == edge_s(ax, ay, bx, by, cx, cy),
        edge_s(bx, by, cx, cy, px, py) * ax + edge_s(cx, cy, ax, ay, px, py) * bx + edge_s(
            ax,
            ay,
            bx,
            by,
            px,
            py,
        ) * cx == px * edge_s(ax, ay, bx, by, cx, cy),
        edge_s(bx, by, cx, cy, px, py) * ay + edge_s(cx, cy, ax, ay, px, py) * by + edge_s(
            ax,
            ay,
            bx,
            by,
            px,
            py,
        ) * cy == py * edge_s(ax, ay, bx, by, cx, cy),
{
    lemma_edge_sum_raw(ax, ay, bx, by, cx, cy, px, py);
    let w0 = edge_s(bx, by, cx, cy, px, py);
    let w1 = edge_s(cx, cy, ax, ay, px, py);
    let w2 = edge_s(ax, ay, bx, by, px, py);
    let qax = ax - px;
    let qay = ay - py;
    let qbx = bx - px;
    let qby = by - py;
    let qcx = cx - px;
    let qcy = cy - py;
    lemma_origin_reconstruct(qax, qay, qbx, qby, qcx, qcy);
    lemma_edge_translate(bx, by, cx, cy, px, py, px, py);
    lemma_edge_translate(cx, cy, ax, ay, px, py, px, py);
    lemma_edge_translate(ax, ay, bx, by, px, py, px, py);
    assert(edge_s(qbx, qby, qcx, qcy, 0, 0) == qby * qcx - qbx * qcy) by (nonlinear_arith);
    assert(edge_s(qcx, qcy, qax, qay, 0, 0) == qcy * qax - qcx * qay) by (nonlinear_arith);
    assert(edge_s(qax, qay, qbx, qby, 0, 0) == qay * qbx - qax * qby) by (nonlinear_arith);
    assert(w0 * qax + w1 * qbx + w2 * qcx == 0);
    assert(w0 * qay + w1 * qby + w2 * qcy == 0);
    lemma_mul_is_distributive_sub(w0, ax, px);
    lemma_mul_is_distributive_sub(w1, bx, px);
    lemma_mul_is_distributive_sub(w2, cx, px);
    lemma_mul_is_distributive_sub(w0, ay, py);
    lemma_mul_is_distributive_sub(w1, by, py);
    lemma_mul_is_distributive_sub(w2, cy, py);
    lemma_mul_is_distributive_add(px, w0 + w1, w2);
    lemma_mul_is_distributive_add(px, w0, w1);
    lemma_mul_is_distributive_add(py, w0 + w1, w2);
    lemma_mul_is_distributive_add(py, w0, w1);
}

/// Swapping any two arguments of the edge function flips its sign;
/// the function itself *is* twice the signed area, so a positively
/// wound triangle has a positive edge value by definition.
pub proof fn lemma_edge_swap(v0: Vec2, v1: Vec2, p: Vec2)
    ensures
        edge_v(v1, v0, p) == -edge_v(v0, v1, p),
        edge_v(v0, p, v1) == -edge_v(v0, v1, p),
        edge_v(p, v1, v0) == -edge_v(v0, v1, p),
{
    let ax = v0.x as int;
    let ay = v0.y as int;
    let bx = v1.x as int;
    let by = v1.y as int;
    let px = p.x as int;
    let py = p.y as int;
    assert((px - bx) * (ay - by) - (py - by) * (ax - bx) == -((px - ax) * (by - ay) - (py - ay) * (
    bx - ax))) by (nonlinear_arith);
    assert((bx - ax) * (py - ay) - (by - ay) * (px - ax) == -((px - ax) * (by - ay) - (py - ay) * (
    bx - ax))) by (nonlinear_arith);
    assert((ax - px) * (by - py) - (ay - py) * (bx - px) == -((px - ax) * (by - ay) - (py - ay) * (
    bx - ax))) by (nonlinear_arith);
}

/// For any pixel a triangle covers, the three weight numerators sum to
/// the triangle's area, so the normalized weights are each in `[0, 1]`
/// and partition unity.
pub proof fn lemma_barycentric_partition(a: Vertex, b: Vertex, c: Vertex, x: int, y: int)
    requires
        covers(a, b, c, x, y),
    ensures
        w0_at(a, b, c, x, y) + w1_at(a, b, c, x, y) + w2_at(a, b, c, x, y) == area_of(a, b, c),
        0 <= w0_at(a, b, c, x, y) <= area_of(a, b, c),
        0 <= w1_at(a, b, c, x, y) <= area_of(a, b, c),
        0 <= w2_at(a, b, c, x, y) <= area_of(a, b, c),
{
    lemma_edge_identities(
        a.pos.x as int,
        a.pos.y as int,
        b.pos.x as int,
        b.pos.y as int,
        c.pos.x as int,
        c.pos.y as int,
        centre_of(x),
        centre_of(y),
    );
}

/// A triangle that is degenerate (zero signed area: coincident or
/// collinear corners) covers no pixel, so it changes no depth value and
/// no colour: a guaranteed no-op.
pub proof fn lemma_degenerate_no_op(
    a: Vertex,
    b: Vertex,
    c: Vertex,
    x: int,
    y: int,
    d0: int,
    p0: Pixel,
)
    requires
        area_of(a, b, c) <= 0,
    ensures
        !covers(a, b, c, x, y),
        tri_pixel_depth(a, b, c, x, y, d0) == d0,
        tri_pixel_colour(a, b, c, x, y, d0, p0) == p0,
{
}

/// Rasterization order does not matter where depths differ: if two
/// triangles cover the same pixel and the first is strictly nearer
/// (and nearer than what the buffers already hold), the pixel ends with
/// the first triangle's depth and colour whichever triangle is drawn
/// first.
pub proof fn lemma_depth_order_independent(
    a1: Vertex,
    b1: Vertex,
    c1: Vertex,
    a2: Vertex,
    b2: Vertex,
    c2: Vertex,
    x: int,
    y: int,
    d0: int,
    p0: Pixel,
)
    requires
        covers(a1, b1, c1, x, y),
        covers(a2, b2, c2, x, y),
        depth_of(a1, b1, c1, x, y) < depth_of(a2, b2, c2, x, y),
        depth_of(a1, b1, c1, x, y) < d0,
    ensures
        tri_pixel_depth(a2, b2, c2, x, y, tri_pixel_depth(a1, b1, c1, x, y, d0)) == depth_of(
            a1,
            b1,
            c1,
            x,
            y,
        ),
        tri_pixel_colour(
            a2,
            b2,
            c2,
            x,
            y,
            tri_pixel_depth(a1, b1, c1, x, y, d0),
            tri_pixel_colour(a1, b1, c1, x, y, d0, p0),
        ) == shade_of(a1, b1, c1, x, y),
        tri_pixel_depth(a1, b1, c1, x, y, tri_pixel_depth(a2, b2, c2, x, y, d0)) == depth_of(
            a1,
            b1,
            c1,
            x,
            y,
        ),
        tri_pixel_colour(
            a1,
            b1,
            c1,
            x,
            y,
            tri_pixel_depth(a2, b2, c2, x, y, d0),
            tri_pixel_colour(a2, b2, c2, x, y, d0, p0),
        ) == shade_of(a1, b1, c1, x, y),
{
}

/// The rasterizer: owns the colour and depth buffers it fills. Both are
/// flat row-major grids of `width * height` entries; pixel `(x, y)`
/// lives at index `y * width + x`.
pub struct Painter {
    pub width: u32,
    pub height: u32,
    pub frame_buffer: Vec<Pixel>,
    pub depth_buffer: Vec<i64>,
}

impl Painter {
    /// Buffers exist and match the stated dimensions.
    pub open spec fn wf(self) -> bool {
        &&& 1 <= self.width <= MAX_DIM
        &&& 1 <= self.height <= MAX_DIM
        &&& self.frame_buffer@.len() == (self.width as int) * (self.height as int)
        &&& self.depth_buffer@.len() == (self.width as int) * (self.height as int)
    }

    /// The stored depth of pixel `(x, y)`.
    pub open spec fn depth_px(self, x: int, y: int) -> int {
        self.depth_buffer@[y * (self.width as int) + x] as int
    }

    /// The stored colour of pixel `(x, y)`.
    pub open spec fn colour_px(self, x: int, y: int) -> Pixel {
        self.frame_buffer@[y * (self.width as int) + x]
    }

    /// A painter with every depth at the far sentinel (nothing drawn can
    /// be farther) and every pixel at the black background.
    pub fn new(width: u32, height: u32) -> (p: Painter)
        requires
            1 <= width <= MAX_DIM,
            1 <= height <= MAX_DIM,
        ensures
            p.wf(),
            p.width == width,
            p.height == height,
            forall|x: int, y: int|
                0 <= x < width && 0 <= y < height ==> #[trigger] p.depth_px(x, y) == i64::MAX,
            forall|x: int, y: int|
                0 <= x < width && 0 <= y < height ==> #[trigger] p.colour_px(x, y) == (Pixel {
                    r: 0,
                    g: 0,
                    b: 0,
                }),
    {
        proof {
            lemma_abs_mul_bound(width as int, height as int, MAX_DIM as int, MAX_DIM as int);
        }
        let n: usize = (width as usize) * (height as usize);
        let mut frame: Vec<Pixel> = Vec::new();
        let mut depth: Vec<i64> = Vec::new();
        let mut k: usize = 0;
        while k < n
            invariant
                k <= n,
                frame@.len() == k,
                depth@.len() == k,
                forall|i: int| 0 <= i < k ==> #[trigger] depth@[i] == i64::MAX,
                forall|i: int| 0 <= i < k ==> #[trigger] frame@[i] == (Pixel { r: 0, g: 0, b: 0 }),
            decreases n - k,
        {
            frame.push(Pixel { r: 0, g: 0, b: 0 });
            depth.push(i64::MAX);
            k = k + 1;
        }
        let p = Painter { width, height, frame_buffer: frame, depth_buffer: depth };
        proof {
            assert forall|x: int, y: int| 0 <= x < width && 0 <= y < height implies #[trigger] p
                .depth_px(x, y) == i64::MAX by {
                lemma_flat_index_of(width as int, height as int, x, y);
            }
            assert forall|x: int, y: int| 0 <= x < width && 0 <= y < height implies #[trigger] p
                .colour_px(x, y) == (Pixel { r: 0, g: 0, b: 0 }) by {
                lemma_flat_index_of(width as int, height as int, x, y);
            }
        }
        p
    }

    /// The edge function, computed exactly.
    pub fn edge(v0: &Vec2, v1: &Vec2, p: &Vec2) -> (r: i64)
        requires
            -COORD_MAX <= v0.x <= COORD_MAX,
            -COORD_MAX <= v0.y <= COORD_MAX,
            -COORD_MAX <= v1.x <= COORD_MAX,
            -COORD_MAX <= v1.y <= COORD_MAX,
            -COORD_MAX <= p.x <= COORD_MAX,
            -COORD_MAX <= p.y <= COORD_MAX,
        ensures
            r == edge_v(*v0, *v1, *p),
            -8_000_000_000_000_000_000 <= r <= 8_000_000_000_000_000_000,
    {
        let axx = p.x - v0.x;
        let ayy = p.y - v0.y;
        let bxx = v1.x - v0.x;
        let byy = v1.y - v0.y;
        proof {
            lemma_abs_mul_bound(axx as int, byy as int, 2 * COORD_MAX, 2 * COORD_MAX);
            lemma_abs_mul_bound(ayy as int, bxx as int, 2 * COORD_MAX, 2 * COORD_MAX);
        }
        (axx * byy) - (ayy * bxx)
    }

    /// Map a raster-space point `p` to its barycentric weights in the
    /// triangle `a -> b -> c`, exactly when the triangle encloses `p`
    /// under the positive-winding convention. A degenerate triangle
    /// (zero area) encloses nothing: the explicit guard reproduces the
    /// reference behaviour of skipping such triangles.
    pub fn map_triangle_pos(p: &Vec2, a: &Vec2, b: &Vec2, c: &Vec2) -> (r: Option<Bary>)
        requires
            -COORD_MAX <= p.x <= COORD_MAX,
            -COORD_MAX <= p.y <= COORD_MAX,
            -COORD_MAX <= a.x <= COORD_MAX,
            -COORD_MAX <= a.y <= COORD_MAX,
            -COORD_MAX <= b.x <= COORD_MAX,
            -COORD_MAX <= b.y <= COORD_MAX,
            -COORD_MAX <= c.x <= COORD_MAX,
            -COORD_MAX <= c.y <= COORD_MAX,
        ensures
            r is Some <==> edge_v(*a, *b, *c) > 0 && edge_v(*b, *c, *p) >= 0 && edge_v(*c, *a, *p)
                >= 0 && edge_v(*a, *b, *p) >= 0,
            r matches Some(w) ==> {
                &&& w.w0 == edge_v(*b, *c, *p)
                &&& w.w1 == edge_v(*c, *a, *p)
                &&& w.w2 == edge_v(*a, *b, *p)
                &&& w.area == edge_v(*a, *b, *c)
                &&& w.wf()
            },
    {
        let area = Self::edge(a, b, c);
        let w0 = Self::edge(b, c, p);
        let w1 = Self::edge(c, a, p);
        let w2 = Self::edge(a, b, p);
        if area > 0 && w0 >= 0 && w1 >= 0 && w2 >= 0 {
            proof {
                lemma_edge_identities(
                    a.x as int,
                    a.y as int,
                    b.x as int,
                    b.y as int,
                    c.x as int,
                    c.y as int,
                    p.x as int,
                    p.y as int,
                );
            }
            Some(Bary { w0, w1, w2, area })
        } else {
            None
        }
    }
}

/// Pixel `(x, y)` of a `width * height` grid lies at flat index
/// `y * width + x`, inside the buffer.
pub proof fn lemma_flat_index_of(w: int, h: int, x: int, y: int)
    requires
        0 < w,
        0 < h,
        0 <= x < w,
        0 <= y < h,
    ensures
        0 <= y * w + x < w * h,
        (y * w + x) % w == x,
        (y * w + x) / w == y,
{
    assert(0 <= y * w + x < w * h) by (nonlinear_arith)
        requires
            0 <= x < w,
            0 <= y < h,
    ;
    lemma_fundamental_div_mod_converse(y * w + x, w, y, x);
}

/// A flat buffer index names the pixel `(i % w, i / w)`.
pub proof fn lemma_index_flat(w: int, h: int, i: int)
    requires
        0 < w,
        0 < h,
        0 <= i < w * h,
    ensures
        0 <= i % w < w,
        0 <= i / w < h,
        w * (i / w) + (i % w) == i,
        (i / w) * w + (i % w) == i,
{
    lemma_fundamental_div_mod(i, w);
    lemma_mod_bound(i, w);
    lemma_mul_is_commutative(w, i / w);
    assert(i / w < h) by (nonlinear_arith)
        requires
            0 < w,
            0 <= i < w * h,
            i == w * (i / w) + (i % w),
            0 <= i % w < w,
    ;
}

/// The smallest of three coordinates.
pub open spec fn min3(a: int, b: int, c: int) -> int {
    if a <= b && a <= c {
        a
    } else if b <= c {
        b
    } else {
        c
    }
}

/// The largest of three coordinates.
pub open spec fn max3(a: int, b: int, c: int) -> int {
    if a >= b && a >= c {
        a
    } else if b >= c {
        b
    } else {
        c
    }
}

/// Every pixel whose centre a triangle covers lies inside the clamped
/// bounding box that the scan visits, so scanning only that box misses
/// nothing.
pub proof fn lemma_covers_in_bbox(a: Vertex, b: Vertex, c: Vertex, x: int, y: int, w: int, h: int)
    requires
        covers(a, b, c, x, y),
        0 <= x < w,
        0 <= y < h,
    ensures
        clamp_spec(min3(a.pos.x as int, b.pos.x as int, c.pos.x as int), w) <= x,
        x <= clamp_spec(max3(a.pos.x as int, b.pos.x as int, c.pos.x as int), w),
        clamp_spec(min3(a.pos.y as int, b.pos.y as int, c.pos.y as int), h) <= y,
        y <= clamp_spec(max3(a.pos.y as int, b.pos.y as int, c.pos.y as int), h),
{
    let px = centre_of(x);
    let py = centre_of(y);
    lemma_coord_in_range(a, b, c, x, y);
    lemma_fundamental_div_mod_converse(px, FP as int, x, HALF as int);
    lemma_fundamental_div_mod_converse(py, FP as int, y, HALF as int);
    lemma_div_is_ordered(min3(a.pos.x as int, b.pos.x as int, c.pos.x as int), px, FP as int);
    lemma_div_is_ordered(px, max3(a.pos.x as int, b.pos.x as int, c.pos.x as int), FP as int);
    lemma_div_is_ordered(min3(a.pos.y as int, b.pos.y as int, c.pos.y as int), py, FP as int);
    lemma_div_is_ordered(py, max3(a.pos.y as int, b.pos.y as int, c.pos.y as int), FP as int);
}

/// A covered pixel's centre lies between the least and greatest corner
/// coordinate, on each axis.
proof fn lemma_coord_in_range(a: Vertex, b: Vertex, c: Vertex, x: int, y: int)
    requires
        covers(a, b, c, x, y),
    ensures
        min3(a.pos.x as int, b.pos.x as int, c.pos.x as int) <= centre_of(x) <= max3(
            a.pos.x as int,
            b.pos.x as int,
            c.pos.x as int,
        ),
        min3(a.pos.y as int, b.pos.y as int, c.pos.y as int) <= centre_of(y) <= max3(
            a.pos.y as int,
            b.pos.y as int,
            c.pos.y as int,
        ),
{
    let px = centre_of(x);
    let py = centre_of(y);
    let ar = area_of(a, b, c);
    let w0 = w0_at(a, b, c, x, y);
    let w1 = w1_at(a, b, c, x, y);
    let w2 = w2_at(a, b, c, x, y);
    lemma_edge_identities(
        a.pos.x as int,
        a.pos.y as int,
        b.pos.x as int,
        b.pos.y as int,
        c.pos.x as int,
        c.pos.y as int,
        px,
        py,
    );
    lemma_axis_bound(w0, w1, w2, a.pos.x as int, b.pos.x as int, c.pos.x as int, px, ar);
    lemma_axis_bound(w0, w1, w2, a.pos.y as int, b.pos.y as int, c.pos.y as int, py, ar);
}

/// A weighted average with non-negative weights lies between the least
/// and greatest of the averaged values.
proof fn lemma_axis_bound(w0: int, w1: int, w2: int, va: int, vb: int, vc: int, p: int, ar: int)
    requires
        w0 >= 0,
        w1 >= 0,
        w2 >= 0,
        w0 + w1 + w2 == ar,
        ar > 0,
        w0 * va + w1 * vb + w2 * vc == p * ar,
    ensures
        min3(va, vb, vc) <= p <= max3(va, vb, vc),
{
    let lo = min3(va, vb, vc);
    let hi = max3(va, vb, vc);
    lemma_mul_mono(w0, lo, va);
    lemma_mul_mono(w1, lo, vb);
    lemma_mul_mono(w2, lo, vc);
    lemma_mul_mono(w0, va, hi);
    lemma_mul_mono(w1, vb, hi);
    lemma_mul_mono(w2, vc, hi);
    assert((w0 + w1 + w2) * lo == w0 * lo + w1 * lo + w2 * lo) by (nonlinear_arith);
    assert((w0 + w1 + w2) * hi == w0 * hi + w1 * hi + w2 * hi) by (nonlinear_arith);
    assert(ar * lo == lo * ar && ar * hi == hi * ar && p * ar == p * ar);
    lemma_mul_cancel_pos(lo, p, ar);
    lemma_mul_cancel_pos(p, hi, ar);
}

/// One value mapped from normalized device coordinates `[-1, 1]` to
/// raster coordinates `[0, d]`: `((v + 1) / 2) * d`.
pub open spec fn raster_c(v: int, d: int) -> int {
    tdiv((v + FP) * d, 2)
}

/// A vertex after the viewport transform of a `w * h` buffer: x and y
/// mapped to raster coordinates, depth and colour passed through.
pub open spec fn raster_vertex(v: Vertex, w: int, h: int) -> Vertex {
    Vertex {
        pos: Vec3 { x: raster_c(v.pos.x as int, w) as i64, y: raster_c(v.pos.y as int, h) as i64, z: v.pos.z },
        colour: v.colour,
    }
}

/// The depth buffer after scan-converting one raster-space triangle.
pub open spec fn tri_apply_depth(a: Vertex, b: Vertex, c: Vertex, w: int, d: Seq<i64>) -> Seq<i64> {
    Seq::new(d.len(), |i: int| tri_pixel_depth(a, b, c, i % w, i / w, d[i] as int) as i64)
}

/// The frame buffer after scan-converting one raster-space triangle
/// against the depth buffer `d` as it stood before the triangle.
pub open spec fn tri_apply_colour(
    a: Vertex,
    b: Vertex,
    c: Vertex,
    w: int,
    d: Seq<i64>,
    f: Seq<Pixel>,
) -> Seq<Pixel> {
    Seq::new(f.len(), |i: int| tri_pixel_colour(a, b, c, i % w, i / w, d[i] as int, f[i]))
}

/// The depth buffer after drawing the first `k` triangles of a model
/// through the viewport transform of a `w * h` buffer.
pub open spec fn draw_depth_upto(model: Seq<Vertex>, k: nat, w: int, h: int, d: Seq<i64>) -> Seq<
    i64,
>
    decreases k,
{
    if k == 0 {
        d
    } else {
        tri_apply_depth(
            raster_vertex(model[3 * (k - 1)], w, h),
            raster_vertex(model[3 * (k - 1) + 1], w, h),
            raster_vertex(model[3 * (k - 1) + 2], w, h),
            w,
            draw_depth_upto(model, (k - 1) as nat, w, h, d),
        )
    }
}

/// The frame buffer after drawing the first `k` triangles of a model.
pub open spec fn draw_colour_upto(
    model: Seq<Vertex>,
    k: nat,
    w: int,
    h: int,
    d: Seq<i64>,
    f: Seq<Pixel>,
) -> Seq<Pixel>
    decreases k,
{
    if k == 0 {
        f
    } else {
        tri_apply_colour(
            raster_vertex(model[3 * (k - 1)], w, h),
            raster_vertex(model[3 * (k - 1) + 1], w, h),
            raster_vertex(model[3 * (k - 1) + 2], w, h),
            w,
            draw_depth_upto(model, (k - 1) as nat, w, h, d),
            draw_colour_upto(model, (k - 1) as nat, w, h, d, f),
        )
    }
}

/// The raster-space projection of a position.
fn xy(v: &Vec3) -> (r: Vec2)
    ensures
        r == xy_of(*v),
{
    Vec2 { x: v.x, y: v.y }
}

/// Scale one interpolated colour channel to a byte.
fn scale_channel(c: i64) -> (r: u8)
    requires
        0 <= c <= FP,
    ensures
        r == scale255(c as int),
{
    proof {
        lemma_div_is_ordered(255 * (c as int), 255 * (FP as int), FP as int);
    }
    ((255u64 * (c as u64)) / (FP as u64)) as u8
}

impl Painter {
    /// Clamp a fixed-point coordinate to a pixel index in `[0, max - 1]`:
    /// floor, clamp below at 0, clamp above at `max - 1`.
    pub fn clamp(value: i64, max: u32) -> (r: u32)
        requires
            1 <= max,
        ensures
            r as int == clamp_spec(value as int, max as int),
            r < max,
    {
        if value < 0 {
            0
        } else {
            let q: u64 = (value as u64) / (FP as u64);
            let m: u64 = (max - 1) as u64;
            if q < m {
                q as u32
            } else {
                m as u32
            }
        }
    }

    /// Apply the viewport transform: map x and y from `[-1, 1]` to
    /// `[0, width]` and `[0, height]`; the z component is passed through
    /// unchanged as the depth value. Produces a new vertex.
    pub fn to_raster_space(&self, vtx: &Vertex) -> (r: Vertex)
        requires
            self.wf(),
            -NDC_MAX <= vtx.pos.x <= NDC_MAX,
            -NDC_MAX <= vtx.pos.y <= NDC_MAX,
        ensures
            r == raster_vertex(*vtx, self.width as int, self.height as int),
            -COORD_MAX <= r.pos.x <= COORD_MAX,
            -COORD_MAX <= r.pos.y <= COORD_MAX,
            r.pos.z == vtx.pos.z,
            r.colour == vtx.colour,
    {
        let rx = raster_one(vtx.pos.x, self.width);
        let ry = raster_one(vtx.pos.y, self.height);
        Vertex { pos: Vec3 { x: rx, y: ry, z: vtx.pos.z }, colour: vtx.colour }
    }
}

/// Map one coordinate from normalized device space to raster space.
fn raster_one(v: i64, d: u32) -> (r: i64)
    requires
        -NDC_MAX <= v <= NDC_MAX,
        1 <= d <= MAX_DIM,
    ensures
        r == raster_c(v as int, d as int),
        -COORD_MAX <= r <= COORD_MAX,
{
    proof {
        lemma_abs_mul_bound(v + FP as int, d as int, NDC_MAX as int + FP as int, MAX_DIM as int);
    }
    let n: i128 = ((v + FP) as i128) * (d as i128);
    proof {
        lemma_tdiv_bound(n as int, 2, COORD_MAX as int);
    }
    let q: i128 = div_signed(n, 2);
    q as i64
}

/// The three raster-space points are the x-y projections of the three
/// corners (what the scan loops carry about their precomputed points).
spec fn projected_corners(a: Vertex, b: Vertex, c: Vertex, pa: Vec2, pb: Vec2, pc: Vec2) -> bool {
    &&& pa == xy_of(a.pos)
    &&& pb == xy_of(b.pos)
    &&& pc == xy_of(c.pos)
}

/// A vertex the pipeline can feed through the viewport transform and
/// the rasterizer: x and y in the accepted device range, depth within
/// the raster range, colour channels in `[0, FP]`.
pub open spec fn vertex_in_ndc(v: Vertex) -> bool {
    &&& -NDC_MAX <= v.pos.x <= NDC_MAX
    &&& -NDC_MAX <= v.pos.y <= NDC_MAX
    &&& -COORD_MAX <= v.pos.z <= COORD_MAX
    &&& vec3_in_unit(v.colour, FP as int)
}

impl Painter {
    /// Scan-convert one raster-space triangle `a -> b -> c`: for every
    /// pixel of the clamped bounding box whose centre the triangle
    /// covers, interpolate depth and colour, and where the fragment is
    /// strictly nearer than the stored depth write both buffers; every
    /// other pixel of the two buffers keeps its value.
    pub fn draw_triangle(&mut self, a: &Vertex, b: &Vertex, c: &Vertex)
        requires
            old(self).wf(),
            vec3_bounded(a.pos, COORD_MAX as int),
            vec3_bounded(b.pos, COORD_MAX as int),
            vec3_bounded(c.pos, COORD_MAX as int),
            vec3_in_unit(a.colour, FP as int),
            vec3_in_unit(b.colour, FP as int),
            vec3_in_unit(c.colour, FP as int),
        ensures
            final(self).wf(),
            final(self).width == old(self).width,
            final(self).height == old(self).height,
            forall|px: int, py: int|
                0 <= px < old(self).width && 0 <= py < old(self).height ==> #[trigger] final(self).depth_px(px, py) == tri_pixel_depth(*a, *b, *c, px, py, old(self).depth_px(px, py)),
            forall|px: int, py: int|
                0 <= px < old(self).width && 0 <= py < old(self).height ==> #[trigger] final(self).colour_px(px, py) == tri_pixel_colour(
                    *a,
                    *b,
                    *c,
                    px,
                    py,
                    old(self).depth_px(px, py),
                    old(self).colour_px(px, py),
                ),
    {
        let pa = xy(&a.pos);
        let pb = xy(&b.pos);
        let pc = xy(&c.pos);
        let area = Painter::edge(&pa, &pb, &pc);
        if area <= 0 {
            return ;
        }
        let w = self.width;
        let h = self.height;
        let xmin_c = utils::min(a.pos.x, utils::min(b.pos.x, c.pos.x));
        let xmax_c = utils::max(a.pos.x, utils::max(b.pos.x, c.pos.x));
        let ymin_c = utils::min(a.pos.y, utils::min(b.pos.y, c.pos.y));
        let ymax_c = utils::max(a.pos.y, utils::max(b.pos.y, c.pos.y));
        let xmin = Painter::clamp(xmin_c, w);
        let xmax = Painter::clamp(xmax_c, w);
        let ymin = Painter::clamp(ymin_c, h);
        let ymax = Painter::clamp(ymax_c, h);
        let mut y = ymin;
        while y <= ymax
            invariant
                self.wf(),
                self.width == w,
                self.height == h,
                old(self).wf(),
                old(self).width == w,
                old(self).height == h,
                vec3_bounded(a.pos, COORD_MAX as int),
                vec3_bounded(b.pos, COORD_MAX as int),
                vec3_bounded(c.pos, COORD_MAX as int),
                vec3_in_unit(a.colour, FP as int),
                vec3_in_unit(b.colour, FP as int),
                vec3_in_unit(c.colour, FP as int),
                projected_corners(*a, *b, *c, pa, pb, pc),
                area_of(*a, *b, *c) > 0,
                projected_corners(*a, *b, *c, pa, pb, pc),
                xmin as int == clamp_spec(min3(a.pos.x as int, b.pos.x as int, c.pos.x as int), w as int),
                xmax as int == clamp_spec(max3(a.pos.x as int, b.pos.x as int, c.pos.x as int), w as int),
                ymin as int == clamp_spec(min3(a.pos.y as int, b.pos.y as int, c.pos.y as int), h as int),
                ymax as int == clamp_spec(max3(a.pos.y as int, b.pos.y as int, c.pos.y as int), h as int),
                xmin <= xmax < w,
                ymin <= y <= ymax + 1,
                ymax < h,
                forall|px: int, py: int|
                    0 <= px < w && 0 <= py < h ==> #[trigger] self.depth_px(px, py) == (if ymin
                        <= py < y && xmin <= px <= xmax {
                        tri_pixel_depth(*a, *b, *c, px, py, old(self).depth_px(px, py))
                    } else {
                        old(self).depth_px(px, py)
                    }),
                forall|px: int, py: int|
                    0 <= px < w && 0 <= py < h ==> #[trigger] self.colour_px(px, py) == (if ymin
                        <= py < y && xmin <= px <= xmax {
                        tri_pixel_colour(
                            *a,
                            *b,
                            *c,
                            px,
                            py,
                            old(self).depth_px(px, py),
                            old(self).colour_px(px, py),
                        )
                    } else {
                        old(self).colour_px(px, py)
                    }),
            decreases ymax + 1 - y,
        {
            let mut x = xmin;
            while x <= xmax
                invariant
                    self.wf(),
                    self.width == w,
                    self.height == h,
                    old(self).wf(),
                    old(self).width == w,
                    old(self).height == h,
                    vec3_bounded(a.pos, COORD_MAX as int),
                    vec3_bounded(b.pos, COORD_MAX as int),
                    vec3_bounded(c.pos, COORD_MAX as int),
                    vec3_in_unit(a.colour, FP as int),
                    vec3_in_unit(b.colour, FP as int),
                    vec3_in_unit(c.colour, FP as int),
                    projected_corners(*a, *b, *c, pa, pb, pc),
                    area_of(*a, *b, *c) > 0,
                    projected_corners(*a, *b, *c, pa, pb, pc),
                    xmin <= x <= xmax + 1,
                    xmax < w,
                    ymin <= y <= ymax,
                    ymax < h,
                    forall|px: int, py: int|
                        0 <= px < w && 0 <= py < h ==> #[trigger] self.depth_px(px, py) == (if (
                        ymin <= py < y && xmin <= px <= xmax) || (py == y && xmin <= px < x) {
                            tri_pixel_depth(*a, *b, *c, px, py, old(self).depth_px(px, py))
                        } else {
                            old(self).depth_px(px, py)
                        }),
                    forall|px: int, py: int|
                        0 <= px < w && 0 <= py < h ==> #[trigger] self.colour_px(px, py) == (if (
                        ymin <= py < y && xmin <= px <= xmax) || (py == y && xmin <= px < x) {
                            tri_pixel_colour(
                                *a,
                                *b,
                                *c,
                                px,
                                py,
                                old(self).depth_px(px, py),
                                old(self).colour_px(px, py),
                            )
                        } else {
                            old(self).colour_px(px, py)
                        }),
                decreases xmax + 1 - x,
            {
                let cpt = Vec2 { x: (x as i64) * FP + HALF, y: (y as i64) * FP + HALF };
                proof {
                    lemma_flat_index_of(w as int, h as int, x as int, y as int);
                    lemma_abs_mul_bound(y as int, w as int, MAX_DIM as int, MAX_DIM as int);
                }
                let idx: usize = (y as usize) * (w as usize) + (x as usize);
                let ghost prev = *self;
                let ghost xi = x as int;
                let ghost yi = y as int;
                let ghost d0 = old(self).depth_px(xi, yi);
                let ghost p0 = old(self).colour_px(xi, yi);
                proof {
                    assert(self.depth_px(xi, yi) == d0);
                    assert(self.colour_px(xi, yi) == p0);
                }
                match Painter::map_triangle_pos(&cpt, &pa, &pb, &pc) {
                    Some(bw) => {
                        proof {
                            assert(bw == bary_at(*a, *b, *c, xi, yi));
                            assert(covers(*a, *b, *c, xi, yi));
                        }
                        let v = Vertex::interpolate(a, b, c, &bw);
                        proof {
                            assert(v.pos.z == depth_of(*a, *b, *c, xi, yi));
                        }
                        if v.pos.z < self.depth_buffer[idx] {
                            self.depth_buffer[idx] = v.pos.z;
                            let shade = Pixel {
                                r: scale_channel(v.colour.x),
                                g: scale_channel(v.colour.y),
                                b: scale_channel(v.colour.z),
                            };
                            self.frame_buffer[idx] = shade;
                            proof {
                                assert(shade == shade_of(*a, *b, *c, xi, yi));
                                assert(self.depth_px(xi, yi) == tri_pixel_depth(
                                    *a,
                                    *b,
                                    *c,
                                    xi,
                                    yi,
                                    d0,
                                ));
                                assert(self.colour_px(xi, yi) == tri_pixel_colour(
                                    *a,
                                    *b,
                                    *c,
                                    xi,
                                    yi,
                                    d0,
                                    p0,
                                ));
                            }
                        } else {
                            proof {
                                assert(!(depth_of(*a, *b, *c, xi, yi) < d0));
                                assert(self.depth_px(xi, yi) == tri_pixel_depth(
                                    *a,
                                    *b,
                                    *c,
                                    xi,
                                    yi,
                                    d0,
                                ));
                                assert(self.colour_px(xi, yi) == tri_pixel_colour(
                                    *a,
                                    *b,
                                    *c,
                                    xi,
                                    yi,
                                    d0,
                                    p0,
                                ));
                            }
                        }
                    },
                    None => {
                        proof {
                            assert(!covers(*a, *b, *c, xi, yi));
                            assert(self.depth_px(xi, yi) == tri_pixel_depth(*a, *b, *c, xi, yi, d0));
                            assert(self.colour_px(xi, yi) == tri_pixel_colour(
                                *a,
                                *b,
                                *c,
                                xi,
                                yi,
                                d0,
                                p0,
                            ));
                        }
                    },
                }
                proof {
                    assert forall|px: int, py: int| 0 <= px < w && 0 <= py < h implies #[trigger] self
                        .depth_px(px, py) == (if (ymin <= py < y && xmin <= px <= xmax) || (py == y
                        && xmin <= px < x + 1) {
                        tri_pixel_depth(*a, *b, *c, px, py, old(self).depth_px(px, py))
                    } else {
                        old(self).depth_px(px, py)
                    }) by {
                        if !(px == xi && py == yi) {
                            lemma_flat_index_of(w as int, h as int, px, py);
                            lemma_flat_index_of(w as int, h as int, xi, yi);
                            assert(self.depth_px(px, py) == prev.depth_px(px, py));
                        }
                    }
                    assert forall|px: int, py: int| 0 <= px < w && 0 <= py < h implies #[trigger] self
                        .colour_px(px, py) == (if (ymin <= py < y && xmin <= px <= xmax) || (py == y
                        && xmin <= px < x + 1) {
                        tri_pixel_colour(
                            *a,
                            *b,
                            *c,
                            px,
                            py,
                            old(self).depth_px(px, py),
                            old(self).colour_px(px, py),
                        )
                    } else {
                        old(self).colour_px(px, py)
                    }) by {
                        if !(px == xi && py == yi) {
                            lemma_flat_index_of(w as int, h as int, px, py);
                            lemma_flat_index_of(w as int, h as int, xi, yi);
                            assert(self.colour_px(px, py) == prev.colour_px(px, py));
                        }
                    }
                }
                x = x + 1;
            }
            y = y + 1;
        }
        proof {
            assert forall|px: int, py: int| 0 <= px < w && 0 <= py < h && !(ymin <= py <= ymax
                && xmin <= px <= xmax) implies !covers(*a, *b, *c, px, py) by {
                if covers(*a, *b, *c, px, py) {
                    lemma_covers_in_bbox(*a, *b, *c, px, py, w as int, h as int);
                }
            }
        }
    }

    /// Draw every triangle of a transformed model: each consecutive
    /// vertex triple is taken through the viewport transform and
    /// scan-converted, in order.
    pub fn draw(&mut self, model: &Model)
        requires
            old(self).wf(),
            model@.len() % 3 == 0,
            forall|i: int| 0 <= i < model@.len() ==> vertex_in_ndc(#[trigger] model@[i]),
        ensures
            final(self).wf(),
            final(self).width == old(self).width,
            final(self).height == old(self).height,
            final(self).depth_buffer@ == draw_depth_upto(
                model@,
                (model@.len() / 3) as nat,
                old(self).width as int,
                old(self).height as int,
                old(self).depth_buffer@,
            ),
            final(self).frame_buffer@ == draw_colour_upto(
                model@,
                (model@.len() / 3) as nat,
                old(self).width as int,
                old(self).height as int,
                old(self).depth_buffer@,
                old(self).frame_buffer@,
            ),
    {
        let w = self.width;
        let h = self.height;
        let mut i: usize = 0;
        while i < model.len()
            invariant
                self.wf(),
                self.width == w,
                self.height == h,
                old(self).wf(),
                old(self).width == w,
                old(self).height == h,
                i % 3 == 0,
                i <= model@.len(),
                model@.len() % 3 == 0,
                forall|j: int| 0 <= j < model@.len() ==> vertex_in_ndc(#[trigger] model@[j]),
                self.depth_buffer@ == draw_depth_upto(
                    model@,
                    (i / 3) as nat,
                    w as int,
                    h as int,
                    old(self).depth_buffer@,
                ),
                self.frame_buffer@ == draw_colour_upto(
                    model@,
                    (i / 3) as nat,
                    w as int,
                    h as int,
                    old(self).depth_buffer@,
                    old(self).frame_buffer@,
                ),
            decreases model@.len() - i,
        {
            let a = self.to_raster_space(&model[i]);
            let b = self.to_raster_space(&model[i + 1]);
            let c = self.to_raster_space(&model[i + 2]);
            let ghost prev_d = self.depth_buffer@;
            let ghost prev_f = self.frame_buffer@;
            proof {
                assert(prev_d.len() == (w as int) * (h as int));
                assert(prev_f.len() == (w as int) * (h as int));
            }
            self.draw_triangle(&a, &b, &c);
            proof {
                assert(self.depth_buffer@ =~= tri_apply_depth(a, b, c, w as int, prev_d)) by {
                    assert forall|j: int| 0 <= j < prev_d.len() implies self.depth_buffer@[j]
                        == tri_apply_depth(a, b, c, w as int, prev_d)[j] by {
                        lemma_index_flat(w as int, h as int, j);
                        assert((j / (w as int)) * (w as int) + j % (w as int) == j);
                        assert(self.depth_px(j % (w as int), j / (w as int)) == tri_pixel_depth(
                            a,
                            b,
                            c,
                            j % (w as int),
                            j / (w as int),
                            prev_d[j] as int,
                        ));
                    }
                }
                assert(self.frame_buffer@ =~= tri_apply_colour(a, b, c, w as int, prev_d, prev_f))
                    by {
                    assert forall|j: int| 0 <= j < prev_f.len() implies self.frame_buffer@[j]
                        == tri_apply_colour(a, b, c, w as int, prev_d, prev_f)[j] by {
                        lemma_index_flat(w as int, h as int, j);
                        assert((j / (w as int)) * (w as int) + j % (w as int) == j);
                        assert(self.depth_px(j % (w as int), j / (w as int)) == tri_pixel_depth(
                            a,
                            b,
                            c,
                            j % (w as int),
                            j / (w as int),
                            prev_d[j] as int,
                        ));
                        assert(self.colour_px(j % (w as int), j / (w as int)) == tri_pixel_colour(
                            a,
                            b,
                            c,
                            j % (w as int),
                            j / (w as int),
                            prev_d[j] as int,
                            prev_f[j],
                        ));
                    }
                }
                assert(a == raster_vertex(model@[i as int], w as int, h as int));
                assert(b == raster_vertex(model@[i as int + 1], w as int, h as int));
                assert(c == raster_vertex(model@[i as int + 2], w as int, h as int));
                assert((i + 3) / 3 == i / 3 + 1);
            }
            i = i + 3;
        }
    }
}

} // verus!
