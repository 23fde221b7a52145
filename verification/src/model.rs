use vstd::prelude::*;

verus! {

use crate::fixed::COORD_MAX;
use crate::fixed::FP;
use crate::fixed::div_signed;
use crate::fixed::lemma_abs_mul_bound;
use crate::fixed::lemma_tdiv_abs_le;
use crate::fixed::lemma_tdiv_bound;
use crate::fixed::lemma_tdiv_multiples_vanish;
use crate::fixed::lemma_weighted_bound;
use crate::fixed::tdiv;

/// A 2D fixed-point vector (a point in raster space).
#[derive(Clone, Copy, Debug, PartialEq, Eq, Structural)]
pub struct Vec2 {
    pub x: i64,
    pub y: i64,
}

/// A 3D fixed-point vector.
#[derive(Clone, Copy, Debug, PartialEq, Eq, Structural)]
pub struct Vec3 {
    pub x: i64,
    pub y: i64,
    pub z: i64,
}

/// All three components lie within `[-b, b]`.
pub open spec fn vec3_bounded(v: Vec3, b: int) -> bool {
    &&& -b <= v.x <= b
    &&& -b <= v.y <= b
    &&& -b <= v.z <= b
}

/// All three components lie within `[0, b]`.
pub open spec fn vec3_in_unit(v: Vec3, b: int) -> bool {
    &&& 0 <= v.x <= b
    &&& 0 <= v.y <= b
    &&& 0 <= v.z <= b
}

/// A vertex: a position and a colour, both fixed point. Colour channels
/// conceptually lie in `[0, FP]`, standing for 0.0 through 1.0.
#[derive(Clone, Copy, Debug, PartialEq, Eq, Structural)]
pub struct Vertex {
    pub pos: Vec3,
    pub colour: Vec3,
}

/// Barycentric weights of a point with respect to a triangle, kept as
/// exact rationals: numerators `w0`, `w1`, `w2` over the common
/// denominator `area` (twice the triangle's signed area).
#[derive(Clone, Copy, Debug, PartialEq, Eq, Structural)]
pub struct Bary {
    pub w0: i64,
    pub w1: i64,
    pub w2: i64,
    pub area: i64,
}

impl Bary {
    /// Well-formed weights: each numerator is non-negative and they sum
    /// to the positive denominator, so each normalized weight lies in
    /// `[0, 1]` and the three sum to exactly 1.
    pub open spec fn wf(self) -> bool {
        &&& self.area > 0
        &&& self.w0 >= 0
        &&& self.w1 >= 0
        &&& self.w2 >= 0
        &&& self.w0 + self.w1 + self.w2 == self.area
    }
}

/// The barycentric blend of one attribute: `(w0*va + w1*vb + w2*vc) / area`
/// with truncating division.
pub open spec fn interp_val(w: Bary, va: int, vb: int, vc: int) -> int {
    tdiv(w.w0 * va + w.w1 * vb + w.w2 * vc, w.area as int)
}

/// A barycentric blend of values in `[0, b]` stays in `[0, b]`
/// (convexity of interpolation).
pub proof fn lemma_interp_convex(w: Bary, va: int, vb: int, vc: int, b: int)
    requires
        w.wf(),
        0 <= b,
        -b <= va <= b,
        -b <= vb <= b,
        -b <= vc <= b,
    ensures
        -b <= interp_val(w, va, vb, vc) <= b,
        va >= 0 && vb >= 0 && vc >= 0 ==> interp_val(w, va, vb, vc) >= 0,
{
    lemma_weighted_bound(w.w0 as int, va, b);
    lemma_weighted_bound(w.w1 as int, vb, b);
    lemma_weighted_bound(w.w2 as int, vc, b);
    let n = w.w0 * va + w.w1 * vb + w.w2 * vc;
    assert((w.w0 + w.w1 + w.w2) * b == w.w0 * b + w.w1 * b + w.w2 * b) by (nonlinear_arith);
    assert(-(w.area * b) <= n <= w.area * b);
    lemma_tdiv_bound(n, w.area as int, b);
}

/// Blend one attribute of three vertices with exact rational weights.
fn interp1(va: i64, vb: i64, vc: i64, w: &Bary) -> (r: i64)
    requires
        w.wf(),
        -COORD_MAX <= va <= COORD_MAX,
        -COORD_MAX <= vb <= COORD_MAX,
        -COORD_MAX <= vc <= COORD_MAX,
    ensures
        r == interp_val(*w, va as int, vb as int, vc as int),
        -COORD_MAX <= r <= COORD_MAX,
{
    proof {
        lemma_weighted_bound(w.w0 as int, va as int, COORD_MAX as int);
        lemma_weighted_bound(w.w1 as int, vb as int, COORD_MAX as int);
        lemma_weighted_bound(w.w2 as int, vc as int, COORD_MAX as int);
    }
    let n: i128 = (w.w0 as i128) * (va as i128) + (w.w1 as i128) * (vb as i128) + (w.w2 as i128)
        * (vc as i128);
    proof {
        lemma_tdiv_bound(n as int, w.area as int, COORD_MAX as int);
    }
    let q: i128 = div_signed(n, w.area as i128);
    q as i64
}

impl Vertex {
    /// Blend three vertices' positions and colours with barycentric
    /// weights; each attribute is interpolated independently.
    pub fn interpolate(a: &Vertex, b: &Vertex, c: &Vertex, weights: &Bary) -> (r: Vertex)
        requires
            weights.wf(),
            vec3_bounded(a.pos, COORD_MAX as int),
            vec3_bounded(b.pos, COORD_MAX as int),
            vec3_bounded(c.pos, COORD_MAX as int),
            vec3_bounded(a.colour, COORD_MAX as int),
            vec3_bounded(b.colour, COORD_MAX as int),
            vec3_bounded(c.colour, COORD_MAX as int),
        ensures
            r.pos.x == interp_val(*weights, a.pos.x as int, b.pos.x as int, c.pos.x as int),
            r.pos.y == interp_val(*weights, a.pos.y as int, b.pos.y as int, c.pos.y as int),
            r.pos.z == interp_val(*weights, a.pos.z as int, b.pos.z as int, c.pos.z as int),
            r.colour.x == interp_val(
                *weights,
                a.colour.x as int,
                b.colour.x as int,
                c.colour.x as int,
            ),
            r.colour.y == interp_val(
                *weights,
                a.colour.y as int,
                b.colour.y as int,
                c.colour.y as int,
            ),
            r.colour.z == interp_val(
                *weights,
                a.colour.z as int,
                b.colour.z as int,
                c.colour.z as int,
            ),
            vec3_bounded(r.pos, COORD_MAX as int),
            vec3_bounded(r.colour, COORD_MAX as int),
            vec3_in_unit(a.colour, FP as int) && vec3_in_unit(b.colour, FP as int)
                && vec3_in_unit(c.colour, FP as int) ==> vec3_in_unit(r.colour, FP as int),
    {
        let r = Vertex {
            pos: Vec3 {
                x: interp1(a.pos.x, b.pos.x, c.pos.x, weights),
                y: interp1(a.pos.y, b.pos.y, c.pos.y, weights),
                z: interp1(a.pos.z, b.pos.z, c.pos.z, weights),
            },
            colour: Vec3 {
                x: interp1(a.colour.x, b.colour.x, c.colour.x, weights),
                y: interp1(a.colour.y, b.colour.y, c.colour.y, weights),
                z: interp1(a.colour.z, b.colour.z, c.colour.z, weights),
            },
        };
        proof {
            if vec3_in_unit(a.colour, FP as int) && vec3_in_unit(b.colour, FP as int)
                && vec3_in_unit(c.colour, FP as int) {
                lemma_interp_convex(
                    *weights,
                    a.colour.x as int,
                    b.colour.x as int,
                    c.colour.x as int,
                    FP as int,
                );
                lemma_interp_convex(
                    *weights,
                    a.colour.y as int,
                    b.colour.y as int,
                    c.colour.y as int,
                    FP as int,
                );
                lemma_interp_convex(
                    *weights,
                    a.colour.z as int,
                    b.colour.z as int,
                    c.colour.z as int,
                    FP as int,
                );
            }
        }
        r
    }
}

/// Interpolating with normalized weights (1,0,0), (0,1,0) or (0,0,1) —
/// numerators (area,0,0) and so on — reproduces the matching vertex's
/// attribute exactly.
pub proof fn lemma_vertex_reproduction(w: Bary, va: int, vb: int, vc: int)
    requires
        w.wf(),
    ensures
        w.w1 == 0 && w.w2 == 0 ==> interp_val(w, va, vb, vc) == va,
        w.w0 == 0 && w.w2 == 0 ==> interp_val(w, va, vb, vc) == vb,
        w.w0 == 0 && w.w1 == 0 ==> interp_val(w, va, vb, vc) == vc,
{
    if w.w1 == 0 && w.w2 == 0 {
        assert(w.w0 * va + w.w1 * vb + w.w2 * vc == w.area * va);
        lemma_tdiv_multiples_vanish(va, w.area as int);
    }
    if w.w0 == 0 && w.w2 == 0 {
        assert(w.w0 * va + w.w1 * vb + w.w2 * vc == w.area * vb);
        lemma_tdiv_multiples_vanish(vb, w.area as int);
    }
    if w.w0 == 0 && w.w1 == 0 {
        assert(w.w0 * va + w.w1 * vb + w.w2 * vc == w.area * vc);
        lemma_tdiv_multiples_vanish(vc, w.area as int);
    }
}

/// A 4x4 fixed-point matrix, row major: `mRC` is row `R`, column `C`.
#[derive(Clone, Copy, Debug, PartialEq, Eq, Structural)]
pub struct Mat4 {
    pub m00: i64,
    pub m01: i64,
    pub m02: i64,
    pub m03: i64,
    pub m10: i64,
    pub m11: i64,
    pub m12: i64,
    pub m13: i64,
    pub m20: i64,
    pub m21: i64,
    pub m22: i64,
    pub m23: i64,
    pub m30: i64,
    pub m31: i64,
    pub m32: i64,
    pub m33: i64,
}

/// Every entry lies within `[-b, b]`.
pub open spec fn mat_bounded(m: Mat4, b: int) -> bool {
    &&& -b <= m.m00 <= b
    &&& -b <= m.m01 <= b
    &&& -b <= m.m02 <= b
    &&& -b <= m.m03 <= b
    &&& -b <= m.m10 <= b
    &&& -b <= m.m11 <= b
    &&& -b <= m.m12 <= b
    &&& -b <= m.m13 <= b
    &&& -b <= m.m20 <= b
    &&& -b <= m.m21 <= b
    &&& -b <= m.m22 <= b
    &&& -b <= m.m23 <= b
    &&& -b <= m.m30 <= b
    &&& -b <= m.m31 <= b
    &&& -b <= m.m32 <= b
    &&& -b <= m.m33 <= b
}

/// Largest magnitude a transformed coordinate can reach when matrix
/// entries and input coordinates are within `COORD_MAX`.
pub const TRANS_MAX: i64 = 50_000_000_000_000;

/// One row of a homogeneous matrix-vector product with `w == 1`:
/// `(e0*x + e1*y + e2*z + e3*1.0) in fixed point`, rescaled by `FP`.
pub open spec fn row_apply(e0: int, e1: int, e2: int, e3: int, p: Vec3) -> int {
    tdiv(e0 * p.x + e1 * p.y + e2 * p.z + e3 * (FP as int), FP as int)
}

/// The affine action of a matrix's first three rows on a position,
/// lifted to homogeneous coordinates with `w == 1`; no perspective
/// divide.
pub open spec fn mat_apply_pos(m: Mat4, p: Vec3) -> Vec3 {
    Vec3 {
        x: row_apply(m.m00 as int, m.m01 as int, m.m02 as int, m.m03 as int, p) as i64,
        y: row_apply(m.m10 as int, m.m11 as int, m.m12 as int, m.m13 as int, p) as i64,
        z: row_apply(m.m20 as int, m.m21 as int, m.m22 as int, m.m23 as int, p) as i64,
    }
}

/// The `w` component the matrix assigns to a position.
pub open spec fn mat_apply_w(m: Mat4, p: Vec3) -> int {
    row_apply(m.m30 as int, m.m31 as int, m.m32 as int, m.m33 as int, p)
}

/// The full projective action: matrix multiply, then division of x, y
/// and z by the resulting `w` (the perspective divide). A position whose
/// `w` lands exactly on 0 is left undivided: the design performs no
/// clipping, and geometry crossing `w == 0` is an accepted limitation.
pub open spec fn project_pos(m: Mat4, p: Vec3) -> Vec3 {
    let t = mat_apply_pos(m, p);
    let w = mat_apply_w(m, p);
    if w == 0 {
        t
    } else {
        Vec3 {
            x: tdiv(t.x * (FP as int), w) as i64,
            y: tdiv(t.y * (FP as int), w) as i64,
            z: tdiv(t.z * (FP as int), w) as i64,
        }
    }
}

/// One row of the matrix-vector product, executed on wide intermediates.
fn apply_row(e0: i64, e1: i64, e2: i64, e3: i64, p: &Vec3) -> (r: i64)
    requires
        -COORD_MAX <= e0 <= COORD_MAX,
        -COORD_MAX <= e1 <= COORD_MAX,
        -COORD_MAX <= e2 <= COORD_MAX,
        -COORD_MAX <= e3 <= COORD_MAX,
        vec3_bounded(*p, COORD_MAX as int),
    ensures
        r == row_apply(e0 as int, e1 as int, e2 as int, e3 as int, *p),
        -TRANS_MAX <= r <= TRANS_MAX,
{
    proof {
        lemma_abs_mul_bound(e0 as int, p.x as int, COORD_MAX as int, COORD_MAX as int);
        lemma_abs_mul_bound(e1 as int, p.y as int, COORD_MAX as int, COORD_MAX as int);
        lemma_abs_mul_bound(e2 as int, p.z as int, COORD_MAX as int, COORD_MAX as int);
        lemma_abs_mul_bound(e3 as int, FP as int, COORD_MAX as int, FP as int);
    }
    let n: i128 = (e0 as i128) * (p.x as i128) + (e1 as i128) * (p.y as i128) + (e2 as i128) * (
    p.z as i128) + (e3 as i128) * (FP as i128);
    proof {
        lemma_tdiv_bound(n as int, FP as int, TRANS_MAX as int);
    }
    let q: i128 = div_signed(n, FP as i128);
    q as i64
}

/// The affine transform of one position.
fn mat_pos(m: &Mat4, p: &Vec3) -> (r: Vec3)
    requires
        mat_bounded(*m, COORD_MAX as int),
        vec3_bounded(*p, COORD_MAX as int),
    ensures
        r == mat_apply_pos(*m, *p),
        vec3_bounded(r, TRANS_MAX as int),
{
    Vec3 {
        x: apply_row(m.m00, m.m01, m.m02, m.m03, p),
        y: apply_row(m.m10, m.m11, m.m12, m.m13, p),
        z: apply_row(m.m20, m.m21, m.m22, m.m23, p),
    }
}

/// One fixed-point division of a coordinate by a `w` component.
fn fixdiv(a: i64, w: i64) -> (r: i64)
    requires
        -TRANS_MAX <= a <= TRANS_MAX,
        w != 0,
    ensures
        r == tdiv(a * (FP as int), w as int),
{
    let n: i128 = (a as i128) * (FP as i128);
    proof {
        lemma_abs_mul_bound(a as int, FP as int, TRANS_MAX as int, FP as int);
        lemma_tdiv_abs_le(n as int, w as int);
    }
    let q: i128 = div_signed(n, w as i128);
    q as i64
}

/// Rewrite every vertex position as its image under the matrix (an
/// affine transform with `w == 1` and no divide); colours are untouched.
/// Used for world-to-view and any other affine stage.
pub fn tranform_model(model: &mut Model, matrix: Mat4)
    requires
        mat_bounded(matrix, COORD_MAX as int),
        forall|i: int|
            0 <= i < old(model)@.len() ==> vec3_bounded(
                #[trigger] old(model)@[i].pos,
                COORD_MAX as int,
            ),
    ensures
        final(model)@.len() == old(model)@.len(),
        forall|i: int|
            0 <= i < final(model)@.len() ==> #[trigger] final(model)@[i] == (Vertex {
                pos: mat_apply_pos(matrix, old(model)@[i].pos),
                colour: old(model)@[i].colour,
            }),
{
    let mut k: usize = 0;
    while k < model.len()
        invariant
            k <= model@.len(),
            model@.len() == old(model)@.len(),
            mat_bounded(matrix, COORD_MAX as int),
            forall|i: int|
                0 <= i < old(model)@.len() ==> vec3_bounded(
                    #[trigger] old(model)@[i].pos,
                    COORD_MAX as int,
                ),
            forall|i: int| k <= i < model@.len() ==> #[trigger] model@[i] == old(model)@[i],
            forall|i: int|
                0 <= i < k ==> #[trigger] model@[i] == (Vertex {
                    pos: mat_apply_pos(matrix, old(model)@[i].pos),
                    colour: old(model)@[i].colour,
                }),
        decreases model@.len() - k,
    {
        let v = model[k];
        let np = mat_pos(&matrix, &v.pos);
        model[k] = Vertex { pos: np, colour: v.colour };
        k = k + 1;
    }
}

/// Rewrite every vertex position as its image under the matrix followed
/// by the perspective divide by the resulting `w`; colours are
/// untouched. Used once, with a projection matrix, to reach normalized
/// device coordinates.
pub fn project_model(model: &mut Model, matrix: Mat4)
    requires
        mat_bounded(matrix, COORD_MAX as int),
        forall|i: int|
            0 <= i < old(model)@.len() ==> vec3_bounded(
                #[trigger] old(model)@[i].pos,
                COORD_MAX as int,
            ),
    ensures
        final(model)@.len() == old(model)@.len(),
        forall|i: int|
            0 <= i < final(model)@.len() ==> #[trigger] final(model)@[i] == (Vertex {
                pos: project_pos(matrix, old(model)@[i].pos),
                colour: old(model)@[i].colour,
            }),
{
    let mut k: usize = 0;
    while k < model.len()
        invariant
            k <= model@.len(),
            model@.len() == old(model)@.len(),
            mat_bounded(matrix, COORD_MAX as int),
            forall|i: int|
                0 <= i < old(model)@.len() ==> vec3_bounded(
                    #[trigger] old(model)@[i].pos,
                    COORD_MAX as int,
                ),
            forall|i: int| k <= i < model@.len() ==> #[trigger] model@[i] == old(model)@[i],
            forall|i: int|
                0 <= i < k ==> #[trigger] model@[i] == (Vertex {
                    pos: project_pos(matrix, old(model)@[i].pos),
                    colour: old(model)@[i].colour,
                }),
        decreases model@.len() - k,
    {
        let v = model[k];
        let t = mat_pos(&matrix, &v.pos);
        let tw = apply_row(matrix.m30, matrix.m31, matrix.m32, matrix.m33, &v.pos);
        let np = if tw != 0 {
            Vec3 { x: fixdiv(t.x, tw), y: fixdiv(t.y, tw), z: fixdiv(t.z, tw) }
        } else {
            t
        };
        model[k] = Vertex { pos: np, colour: v.colour };
        k = k + 1;
    }
}

/// A model: an ordered vertex list, grouped implicitly in consecutive
/// triples, each triple one triangle.
pub type Model = Vec<Vertex>;

/// Build a model from shared position and colour arrays and an index
/// list; entry `j` of the result takes position and colour number
/// `indices[j]`. The index list's length must be a multiple of 3, so the
/// triangle grouping invariant holds from construction.
pub fn create_model(positions: &Vec<Vec3>, colours: &Vec<Vec3>, indices: &Vec<usize>) -> (m: Model)
    requires
        positions@.len() == colours@.len(),
        forall|j: int| 0 <= j < indices@.len() ==> indices@[j] < positions@.len(),
        indices@.len() % 3 == 0,
    ensures
        m@.len() == indices@.len(),
        forall|j: int|
            0 <= j < indices@.len() ==> #[trigger] m@[j] == (Vertex {
                pos: positions@[indices@[j] as int],
                colour: colours@[indices@[j] as int],
            }),
{
    let mut vts: Vec<Vertex> = Vec::new();
    let mut k: usize = 0;
    while k < indices.len()
        invariant
            k <= indices@.len(),
            positions@.len() == colours@.len(),
            forall|j: int| 0 <= j < indices@.len() ==> indices@[j] < positions@.len(),
            vts@.len() == k,
            forall|j: int|
                0 <= j < k ==> #[trigger] vts@[j] == (Vertex {
                    pos: positions@[indices@[j] as int],
                    colour: colours@[indices@[j] as int],
                }),
        decreases indices@.len() - k,
    {
        let i = indices[k];
        vts.push(Vertex { pos: positions[i], colour: colours[i] });
        k = k + 1;
    }
    vts
}


/// The 8-corner, 12-triangle cube: corners at coordinate -1.0 or 1.0,
/// with the fixed per-corner colour scheme (red, green, blue, white on
/// each of the front and back faces).
/// Corner `i` of the cube: each coordinate is -1.0 or 1.0 in fixed
/// point, numbered front face first (0 to 3), then the back face.
pub open spec fn cube_corner(i: int) -> Vec3 {
    Vec3 {
        x: if i == 0 || i == 3 || i == 4 || i == 7 {
            (-FP) as i64
        } else {
            FP
        },
        y: if i == 0 || i == 1 || i == 4 || i == 5 {
            (-FP) as i64
        } else {
            FP
        },
        z: if i < 4 {
            (-FP) as i64
        } else {
            FP
        },
    }
}

/// The palette of corner `i`: red, green, blue, white on each face.
pub open spec fn cube_colour(i: int) -> Vec3 {
    if i % 4 == 0 {
        Vec3 { x: FP, y: 0, z: 0 }
    } else if i % 4 == 1 {
        Vec3 { x: 0, y: FP, z: 0 }
    } else if i % 4 == 2 {
        Vec3 { x: 0, y: 0, z: FP }
    } else {
        Vec3 { x: FP, y: FP, z: FP }
    }
}

/// The cube's index list: two triangles for each of the six faces.
pub open spec fn cube_indices() -> Seq<int> {
    seq![
        0int, 1, 2, 2, 3, 0,
        1, 5, 6, 6, 2, 1,
        7, 6, 5, 5, 4, 7,
        4, 0, 3, 3, 7, 4,
        4, 5, 1, 1, 0, 4,
        3, 2, 6, 6, 7, 3,
    ]
}

/// Vertex `j` of the cube model: the corner and colour that entry `j`
/// of the index list selects.
pub open spec fn cube_vertex(j: int) -> Vertex {
    Vertex { pos: cube_corner(cube_indices()[j]), colour: cube_colour(cube_indices()[j]) }
}

pub fn get_cube_model() -> (m: Model)
    ensures
        m@.len() == 36,
        forall|j: int| 0 <= j < 36 ==> #[trigger] m@[j] == cube_vertex(j),
        forall|j: int|
            0 <= j < m@.len() ==> vec3_bounded(#[trigger] m@[j].pos, FP as int) && vec3_in_unit(
                m@[j].colour,
                FP as int,
            ),
{
    let nf: i64 = -FP;
    let positions: Vec<Vec3> = vec![
        Vec3 { x: nf, y: nf, z: nf },
        Vec3 { x: FP, y: nf, z: nf },
        Vec3 { x: FP, y: FP, z: nf },
        Vec3 { x: nf, y: FP, z: nf },
        Vec3 { x: nf, y: nf, z: FP },
        Vec3 { x: FP, y: nf, z: FP },
        Vec3 { x: FP, y: FP, z: FP },
        Vec3 { x: nf, y: FP, z: FP },
    ];
    let colours: Vec<Vec3> = vec![
        Vec3 { x: FP, y: 0, z: 0 },
        Vec3 { x: 0, y: FP, z: 0 },
        Vec3 { x: 0, y: 0, z: FP },
        Vec3 { x: FP, y: FP, z: FP },
        Vec3 { x: FP, y: 0, z: 0 },
        Vec3 { x: 0, y: FP, z: 0 },
        Vec3 { x: 0, y: 0, z: FP },
        Vec3 { x: FP, y: FP, z: FP },
    ];
    let indices: Vec<usize> = vec![
        0, 1, 2, 2, 3, 0,
        1, 5, 6, 6, 2, 1,
        7, 6, 5, 5, 4, 7,
        4, 0, 3, 3, 7, 4,
        4, 5, 1, 1, 0, 4,
        3, 2, 6, 6, 7, 3,
    ];
    proof {
        assert(forall|j: int| 0 <= j < indices@.len() ==> #[trigger] indices@[j] < 8);
        assert(forall|j: int|
            0 <= j < indices@.len() ==> #[trigger] indices@[j] as int == cube_indices()[j]);
        assert(forall|k: int|
            0 <= k < positions@.len() ==> #[trigger] positions@[k] == cube_corner(k));
        assert(forall|k: int| 0 <= k < colours@.len() ==> #[trigger] colours@[k] == cube_colour(k));
        assert(forall|k: int|
            0 <= k < positions@.len() ==> vec3_bounded(#[trigger] positions@[k], FP as int));
        assert(forall|k: int|
            0 <= k < colours@.len() ==> vec3_in_unit(#[trigger] colours@[k], FP as int));
    }
    let m = create_model(&positions, &colours, &indices);
    proof {
        assert forall|j: int| 0 <= j < 36 implies #[trigger] m@[j] == cube_vertex(j) by {
            assert(indices@[j] < 8);
            assert(indices@[j] as int == cube_indices()[j]);
        }
    }
    m
}

} // verus!
