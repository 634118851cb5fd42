//! Fixed-point 4x4 matrices, the model transform they apply to vertices, and
//! the per-frame uniform state composed as translation x rotation x scale.

use vstd::prelude::*;
use vstd::arithmetic::div_mod::lemma_div_multiples_vanish;
use vstd::arithmetic::mul::lemma_mul_by_zero_is_zero;
use crate::fixed::FX_ONE;
use crate::fixed::FX_MAX_POS;
use crate::fixed::FX_LIMIT;
use crate::fixed::fdiv;
use crate::fixed::dot4_spec;
use crate::fixed::dot4_bounded;
use crate::fixed::lemma_mul_bound;
use crate::fixed::lemma_fdiv_bound;
use crate::vertex::Vec3;
use crate::vertex::Vertex;

verus! {

/// Magnitude bound on the translation components `Uniforms::new` accepts.
pub const FX_MAX_TRANS: i64 = 0x40_0000_0000;

/// Magnitude bound on the rotation-matrix entries `Uniforms::new` accepts;
/// entries of a rotation lie in `[-FX_ONE, FX_ONE]`, with slack allowed.
pub const FX_MAX_ROT: i64 = 0x2_0000;

/// Magnitude bound on the scale factor `Uniforms::new` accepts.
pub const FX_MAX_SCALE: i64 = 0x2_0000_0000;

/// A 4x4 matrix of fixed-point entries; `mRC` is row `R`, column `C`.
#[derive(Clone, Copy, Debug, PartialEq, Eq, Structural)]
pub struct Mat4 {
    pub m00: i64, pub m01: i64, pub m02: i64, pub m03: i64,
    pub m10: i64, pub m11: i64, pub m12: i64, pub m13: i64,
    pub m20: i64, pub m21: i64, pub m22: i64, pub m23: i64,
    pub m30: i64, pub m31: i64, pub m32: i64, pub m33: i64,
}

/// One entry of a fixed-point matrix product: a 4-term dot product rescaled
/// by `FX_ONE` with floor rounding.
pub open spec fn mul_entry(a0: i64, b0: i64, a1: i64, b1: i64, a2: i64, b2: i64, a3: i64, b3: i64) -> i64 {
    fdiv(
        dot4_spec(
            a0 as int, b0 as int, a1 as int, b1 as int,
            a2 as int, b2 as int, a3 as int, b3 as int,
        ),
        FX_ONE as int,
    ) as i64
}

/// The fixed-point product of two matrices, entry by entry.
pub open spec fn mat4_mul_spec(a: Mat4, b: Mat4) -> Mat4 {
    Mat4 {
        m00: mul_entry(a.m00, b.m00, a.m01, b.m10, a.m02, b.m20, a.m03, b.m30),
        m01: mul_entry(a.m00, b.m01, a.m01, b.m11, a.m02, b.m21, a.m03, b.m31),
        m02: mul_entry(a.m00, b.m02, a.m01, b.m12, a.m02, b.m22, a.m03, b.m32),
        m03: mul_entry(a.m00, b.m03, a.m01, b.m13, a.m02, b.m23, a.m03, b.m33),
        m10: mul_entry(a.m10, b.m00, a.m11, b.m10, a.m12, b.m20, a.m13, b.m30),
        m11: mul_entry(a.m10, b.m01, a.m11, b.m11, a.m12, b.m21, a.m13, b.m31),
        m12: mul_entry(a.m10, b.m02, a.m11, b.m12, a.m12, b.m22, a.m13, b.m32),
        m13: mul_entry(a.m10, b.m03, a.m11, b.m13, a.m12, b.m23, a.m13, b.m33),
        m20: mul_entry(a.m20, b.m00, a.m21, b.m10, a.m22, b.m20, a.m23, b.m30),
        m21: mul_entry(a.m20, b.m01, a.m21, b.m11, a.m22, b.m21, a.m23, b.m31),
        m22: mul_entry(a.m20, b.m02, a.m21, b.m12, a.m22, b.m22, a.m23, b.m32),
        m23: mul_entry(a.m20, b.m03, a.m21, b.m13, a.m22, b.m23, a.m23, b.m33),
        m30: mul_entry(a.m30, b.m00, a.m31, b.m10, a.m32, b.m20, a.m33, b.m30),
        m31: mul_entry(a.m30, b.m01, a.m31, b.m11, a.m32, b.m21, a.m33, b.m31),
        m32: mul_entry(a.m30, b.m02, a.m31, b.m12, a.m32, b.m22, a.m33, b.m32),
        m33: mul_entry(a.m30, b.m03, a.m31, b.m13, a.m32, b.m23, a.m33, b.m33),
    }
}

/// The translation matrix: the identity with `t` in the last column.
pub open spec fn translation_spec(t: Vec3) -> Mat4 {
    Mat4 {
        m00: FX_ONE, m01: 0, m02: 0, m03: t.x,
        m10: 0, m11: FX_ONE, m12: 0, m13: t.y,
        m20: 0, m21: 0, m22: FX_ONE, m23: t.z,
        m30: 0, m31: 0, m32: 0, m33: FX_ONE,
    }
}

/// The uniform scaling matrix with factor `s` on the three axes.
pub open spec fn scaling_spec(s: i64) -> Mat4 {
    Mat4 {
        m00: s, m01: 0, m02: 0, m03: 0,
        m10: 0, m11: s, m12: 0, m13: 0,
        m20: 0, m21: 0, m22: s, m23: 0,
        m30: 0, m31: 0, m32: 0, m33: FX_ONE,
    }
}

/// Every entry has magnitude at most `bound`.
pub open spec fn mat4_abs_le(m: Mat4, bound: int) -> bool {
    &&& -bound <= m.m00 <= bound
    &&& -bound <= m.m01 <= bound
    &&& -bound <= m.m02 <= bound
    &&& -bound <= m.m03 <= bound
    &&& -bound <= m.m10 <= bound
    &&& -bound <= m.m11 <= bound
    &&& -bound <= m.m12 <= bound
    &&& -bound <= m.m13 <= bound
    &&& -bound <= m.m20 <= bound
    &&& -bound <= m.m21 <= bound
    &&& -bound <= m.m22 <= bound
    &&& -bound <= m.m23 <= bound
    &&& -bound <= m.m30 <= bound
    &&& -bound <= m.m31 <= bound
    &&& -bound <= m.m32 <= bound
    &&& -bound <= m.m33 <= bound
}

/// The entry range a model matrix must stay in for the transform stage.
pub open spec fn mat4_bounded(m: Mat4) -> bool {
    mat4_abs_le(m, FX_LIMIT as int)
}

/// A rotation matrix as `Uniforms::new` accepts it: entries within
/// `FX_MAX_ROT` and an affine bottom row `(0, 0, 0, FX_ONE)`.
pub open spec fn rotation_in_range(r: Mat4) -> bool {
    &&& mat4_abs_le(r, FX_MAX_ROT as int)
    &&& r.m30 == 0
    &&& r.m31 == 0
    &&& r.m32 == 0
    &&& r.m33 == FX_ONE
}

impl Mat4 {
    /// The identity matrix.
    pub fn identity() -> (m: Mat4)
        ensures
            m == translation_spec(Vec3 { x: 0, y: 0, z: 0 }),
    {
        Mat4 {
            m00: FX_ONE, m01: 0, m02: 0, m03: 0,
            m10: 0, m11: FX_ONE, m12: 0, m13: 0,
            m20: 0, m21: 0, m22: FX_ONE, m23: 0,
            m30: 0, m31: 0, m32: 0, m33: FX_ONE,
        }
    }

    /// The translation matrix for `t`.
    pub fn new_translation(t: Vec3) -> (m: Mat4)
        ensures
            m == translation_spec(t),
    {
        Mat4 {
            m00: FX_ONE, m01: 0, m02: 0, m03: t.x,
            m10: 0, m11: FX_ONE, m12: 0, m13: t.y,
            m20: 0, m21: 0, m22: FX_ONE, m23: t.z,
            m30: 0, m31: 0, m32: 0, m33: FX_ONE,
        }
    }

    /// The uniform scaling matrix for `s`.
    pub fn new_scaling(s: i64) -> (m: Mat4)
        ensures
            m == scaling_spec(s),
    {
        Mat4 {
            m00: s, m01: 0, m02: 0, m03: 0,
            m10: 0, m11: s, m12: 0, m13: 0,
            m20: 0, m21: 0, m22: s, m23: 0,
            m30: 0, m31: 0, m32: 0, m33: FX_ONE,
        }
    }

    /// Whether every entry is within the range the transform stage accepts.
    pub fn in_range(&self) -> (r: bool)
        ensures
            r == mat4_bounded(*self),
    {
        self.m00 >= -FX_LIMIT && self.m00 <= FX_LIMIT
            && self.m01 >= -FX_LIMIT && self.m01 <= FX_LIMIT
            && self.m02 >= -FX_LIMIT && self.m02 <= FX_LIMIT
            && self.m03 >= -FX_LIMIT && self.m03 <= FX_LIMIT
            && self.m10 >= -FX_LIMIT && self.m10 <= FX_LIMIT
            && self.m11 >= -FX_LIMIT && self.m11 <= FX_LIMIT
            && self.m12 >= -FX_LIMIT && self.m12 <= FX_LIMIT
            && self.m13 >= -FX_LIMIT && self.m13 <= FX_LIMIT
            && self.m20 >= -FX_LIMIT && self.m20 <= FX_LIMIT
            && self.m21 >= -FX_LIMIT && self.m21 <= FX_LIMIT
            && self.m22 >= -FX_LIMIT && self.m22 <= FX_LIMIT
            && self.m23 >= -FX_LIMIT && self.m23 <= FX_LIMIT
            && self.m30 >= -FX_LIMIT && self.m30 <= FX_LIMIT
            && self.m31 >= -FX_LIMIT && self.m31 <= FX_LIMIT
            && self.m32 >= -FX_LIMIT && self.m32 <= FX_LIMIT
            && self.m33 >= -FX_LIMIT && self.m33 <= FX_LIMIT
    }
}

/// Multiplies two matrices whose entries carry magnitude bounds `la` and `lb`
/// small enough for every intermediate product to fit.
fn mat4_mul_bounded(a: &Mat4, b: &Mat4, Ghost(la): Ghost<int>, Ghost(lb): Ghost<int>) -> (m: Mat4)
    requires
        0 <= la,
        0 <= lb,
        la * lb <= 0x1000_0000_0000_0000_0000,
        mat4_abs_le(*a, la),
        mat4_abs_le(*b, lb),
    ensures
        m == mat4_mul_spec(*a, *b),
{
    Mat4 {
        m00: dot4_bounded(a.m00, b.m00, a.m01, b.m10, a.m02, b.m20, a.m03, b.m30, Ghost(la), Ghost(lb)),
        m01: dot4_bounded(a.m00, b.m01, a.m01, b.m11, a.m02, b.m21, a.m03, b.m31, Ghost(la), Ghost(lb)),
        m02: dot4_bounded(a.m00, b.m02, a.m01, b.m12, a.m02, b.m22, a.m03, b.m32, Ghost(la), Ghost(lb)),
        m03: dot4_bounded(a.m00, b.m03, a.m01, b.m13, a.m02, b.m23, a.m03, b.m33, Ghost(la), Ghost(lb)),
        m10: dot4_bounded(a.m10, b.m00, a.m11, b.m10, a.m12, b.m20, a.m13, b.m30, Ghost(la), Ghost(lb)),
        m11: dot4_bounded(a.m10, b.m01, a.m11, b.m11, a.m12, b.m21, a.m13, b.m31, Ghost(la), Ghost(lb)),
        m12: dot4_bounded(a.m10, b.m02, a.m11, b.m12, a.m12, b.m22, a.m13, b.m32, Ghost(la), Ghost(lb)),
        m13: dot4_bounded(a.m10, b.m03, a.m11, b.m13, a.m12, b.m23, a.m13, b.m33, Ghost(la), Ghost(lb)),
        m20: dot4_bounded(a.m20, b.m00, a.m21, b.m10, a.m22, b.m20, a.m23, b.m30, Ghost(la), Ghost(lb)),
        m21: dot4_bounded(a.m20, b.m01, a.m21, b.m11, a.m22, b.m21, a.m23, b.m31, Ghost(la), Ghost(lb)),
        m22: dot4_bounded(a.m20, b.m02, a.m21, b.m12, a.m22, b.m22, a.m23, b.m32, Ghost(la), Ghost(lb)),
        m23: dot4_bounded(a.m20, b.m03, a.m21, b.m13, a.m22, b.m23, a.m23, b.m33, Ghost(la), Ghost(lb)),
        m30: dot4_bounded(a.m30, b.m00, a.m31, b.m10, a.m32, b.m20, a.m33, b.m30, Ghost(la), Ghost(lb)),
        m31: dot4_bounded(a.m30, b.m01, a.m31, b.m11, a.m32, b.m21, a.m33, b.m31, Ghost(la), Ghost(lb)),
        m32: dot4_bounded(a.m30, b.m02, a.m31, b.m12, a.m32, b.m22, a.m33, b.m32, Ghost(la), Ghost(lb)),
        m33: dot4_bounded(a.m30, b.m03, a.m31, b.m13, a.m32, b.m23, a.m33, b.m33, Ghost(la), Ghost(lb)),
    }
}

/// The transformed position of `p` under the model matrix `m`: the matrix
/// applied to `(p, 1)`, with the homogeneous component discarded.
pub open spec fn transform_position_spec(m: Mat4, p: Vec3) -> Vec3 {
    Vec3 {
        x: mul_entry(m.m00, p.x, m.m01, p.y, m.m02, p.z, m.m03, FX_ONE),
        y: mul_entry(m.m10, p.x, m.m11, p.y, m.m12, p.z, m.m13, FX_ONE),
        z: mul_entry(m.m20, p.x, m.m21, p.y, m.m22, p.z, m.m23, FX_ONE),
    }
}

/// The vertex after the transform stage: position and color are kept, the
/// transformed position is recomputed from the model matrix.
pub open spec fn transform_vertex_spec(m: Mat4, v: Vertex) -> Vertex {
    Vertex {
        position: v.position,
        color: v.color,
        transformed_position: transform_position_spec(m, v.position),
    }
}

/// Applies the model matrix to one vertex, returning a new vertex; the
/// object-space position and the color are untouched.
pub fn transform_vertex(m: &Mat4, v: &Vertex) -> (t: Vertex)
    requires
        mat4_bounded(*m),
        v.position.abs_le(FX_MAX_POS as int),
    ensures
        t == transform_vertex_spec(*m, *v),
{
    let p = v.position;
    Vertex {
        position: v.position,
        color: v.color,
        transformed_position: Vec3 {
            x: dot4_bounded(m.m00, p.x, m.m01, p.y, m.m02, p.z, m.m03, FX_ONE, Ghost(FX_LIMIT as int), Ghost(FX_MAX_POS as int)),
            y: dot4_bounded(m.m10, p.x, m.m11, p.y, m.m12, p.z, m.m13, FX_ONE, Ghost(FX_LIMIT as int), Ghost(FX_MAX_POS as int)),
            z: dot4_bounded(m.m20, p.x, m.m21, p.y, m.m22, p.z, m.m23, FX_ONE, Ghost(FX_LIMIT as int), Ghost(FX_MAX_POS as int)),
        },
    }
}

/// Per-frame transform state: the composed model matrix.
pub struct Uniforms {
    pub model_matrix: Mat4,
}

impl Uniforms {
    /// Composes the model matrix as translation x rotation x scale, in that
    /// fixed order, and guarantees its entries stay in the range the
    /// transform stage accepts.
    pub fn new(translation: Vec3, scale: i64, rotation: Mat4) -> (u: Uniforms)
        requires
            translation.abs_le(FX_MAX_TRANS as int),
            -FX_MAX_SCALE <= scale <= FX_MAX_SCALE,
            rotation_in_range(rotation),
        ensures
            u.model_matrix == mat4_mul_spec(
                mat4_mul_spec(translation_spec(translation), rotation),
                scaling_spec(scale),
            ),
            mat4_bounded(u.model_matrix),
    {
        let t = Mat4::new_translation(translation);
        let s = Mat4::new_scaling(scale);
        let a = mat4_mul_bounded(&t, &rotation, Ghost(FX_MAX_TRANS as int), Ghost(FX_MAX_ROT as int));
        proof {
            lemma_translation_times_rotation(translation, rotation);
        }
        let m = mat4_mul_bounded(&a, &s, Ghost(FX_LIMIT as int), Ghost(FX_MAX_SCALE as int));
        proof {
            lemma_model_matrix_bounded(a, scale);
        }
        Uniforms { model_matrix: m }
    }
}

/// Multiplying a translation matrix by an affine rotation keeps the rotation
/// block and adds the translation to the last column.
proof fn lemma_translation_times_rotation(t: Vec3, r: Mat4)
    requires
        t.abs_le(FX_MAX_TRANS as int),
        rotation_in_range(r),
    ensures
        ({
            let a = mat4_mul_spec(translation_spec(t), r);
            &&& a.m00 == r.m00 && a.m01 == r.m01 && a.m02 == r.m02 && a.m03 == r.m03 + t.x
            &&& a.m10 == r.m10 && a.m11 == r.m11 && a.m12 == r.m12 && a.m13 == r.m13 + t.y
            &&& a.m20 == r.m20 && a.m21 == r.m21 && a.m22 == r.m22 && a.m23 == r.m23 + t.z
            &&& a.m30 == 0 && a.m31 == 0 && a.m32 == 0 && a.m33 == FX_ONE
            &&& mat4_abs_le(a, FX_LIMIT as int)
        }),
{
    let one = FX_ONE as int;
    lemma_div_multiples_vanish(r.m00 as int, one);
    lemma_div_multiples_vanish(r.m01 as int, one);
    lemma_div_multiples_vanish(r.m02 as int, one);
    lemma_div_multiples_vanish(r.m03 + t.x, one);
    lemma_div_multiples_vanish(r.m10 as int, one);
    lemma_div_multiples_vanish(r.m11 as int, one);
    lemma_div_multiples_vanish(r.m12 as int, one);
    lemma_div_multiples_vanish(r.m13 + t.y, one);
    lemma_div_multiples_vanish(r.m20 as int, one);
    lemma_div_multiples_vanish(r.m21 as int, one);
    lemma_div_multiples_vanish(r.m22 as int, one);
    lemma_div_multiples_vanish(r.m23 + t.z, one);
    lemma_div_multiples_vanish(0, one);
    lemma_div_multiples_vanish(r.m33 as int, one);
}

/// A model matrix composed with scale zero collapses every position onto the
/// translation point: the transformed position no longer depends on `p`.
pub proof fn lemma_zero_scale_collapses(t: Vec3, r: Mat4, p: Vec3)
    requires
        t.abs_le(FX_MAX_TRANS as int),
        rotation_in_range(r),
    ensures
        ({
            let a = mat4_mul_spec(translation_spec(t), r);
            let m = mat4_mul_spec(a, scaling_spec(0));
            transform_position_spec(m, p) == (Vec3 { x: a.m03, y: a.m13, z: a.m23 })
        }),
{
    lemma_translation_times_rotation(t, r);
    let a = mat4_mul_spec(translation_spec(t), r);
    let m = mat4_mul_spec(a, scaling_spec(0));
    let one = FX_ONE as int;
    lemma_div_multiples_vanish(0, one);
    lemma_div_multiples_vanish(a.m03 as int, one);
    lemma_div_multiples_vanish(a.m13 as int, one);
    lemma_div_multiples_vanish(a.m23 as int, one);
    lemma_mul_by_zero_is_zero(p.x as int);
    lemma_mul_by_zero_is_zero(p.y as int);
    lemma_mul_by_zero_is_zero(p.z as int);
    assert(m.m00 == 0 && m.m01 == 0 && m.m02 == 0 && m.m03 == a.m03);
    assert(m.m10 == 0 && m.m11 == 0 && m.m12 == 0 && m.m13 == a.m13);
    assert(m.m20 == 0 && m.m21 == 0 && m.m22 == 0 && m.m23 == a.m23);
}

/// The composed model matrix stays within the transform stage's entry range.
proof fn lemma_model_matrix_bounded(a: Mat4, s: i64)
    requires
        -FX_MAX_SCALE <= s <= FX_MAX_SCALE,
        mat4_abs_le(a, FX_LIMIT as int),
        -FX_MAX_ROT <= a.m00 <= FX_MAX_ROT,
        -FX_MAX_ROT <= a.m01 <= FX_MAX_ROT,
        -FX_MAX_ROT <= a.m02 <= FX_MAX_ROT,
        -FX_MAX_ROT <= a.m10 <= FX_MAX_ROT,
        -FX_MAX_ROT <= a.m11 <= FX_MAX_ROT,
        -FX_MAX_ROT <= a.m12 <= FX_MAX_ROT,
        -FX_MAX_ROT <= a.m20 <= FX_MAX_ROT,
        -FX_MAX_ROT <= a.m21 <= FX_MAX_ROT,
        -FX_MAX_ROT <= a.m22 <= FX_MAX_ROT,
        a.m30 == 0,
        a.m31 == 0,
        a.m32 == 0,
        a.m33 == FX_ONE,
    ensures
        mat4_bounded(mat4_mul_spec(a, scaling_spec(s))),
{
    let one = FX_ONE as int;
    let rot = FX_MAX_ROT as int;
    let sc = FX_MAX_SCALE as int;
    let lim = 0x4_0000_0000;
    lemma_mul_bound(a.m00 as int, s as int, rot, sc);
    lemma_mul_bound(a.m01 as int, s as int, rot, sc);
    lemma_mul_bound(a.m02 as int, s as int, rot, sc);
    lemma_mul_bound(a.m10 as int, s as int, rot, sc);
    lemma_mul_bound(a.m11 as int, s as int, rot, sc);
    lemma_mul_bound(a.m12 as int, s as int, rot, sc);
    lemma_mul_bound(a.m20 as int, s as int, rot, sc);
    lemma_mul_bound(a.m21 as int, s as int, rot, sc);
    lemma_mul_bound(a.m22 as int, s as int, rot, sc);
    lemma_fdiv_bound(a.m00 * s, one, lim);
    lemma_fdiv_bound(a.m01 * s, one, lim);
    lemma_fdiv_bound(a.m02 * s, one, lim);
    lemma_fdiv_bound(a.m10 * s, one, lim);
    lemma_fdiv_bound(a.m11 * s, one, lim);
    lemma_fdiv_bound(a.m12 * s, one, lim);
    lemma_fdiv_bound(a.m20 * s, one, lim);
    lemma_fdiv_bound(a.m21 * s, one, lim);
    lemma_fdiv_bound(a.m22 * s, one, lim);
    lemma_div_multiples_vanish(a.m03 as int, one);
    lemma_div_multiples_vanish(a.m13 as int, one);
    lemma_div_multiples_vanish(a.m23 as int, one);
    lemma_div_multiples_vanish(a.m33 as int, one);
    lemma_div_multiples_vanish(0, one);
}

} // verus!
