//! The triangle rasterizer.
//!
//! Given three transformed vertices, it walks the integer pixels of the
//! triangle's screen-space bounding box (clipped to non-negative pixels),
//! keeps those whose three barycentric weights are all non-negative, and
//! interpolates depth and color barycentrically, row by row in row-major
//! order. Degenerate (zero-area) triangles yield no fragments.

use vstd::prelude::*;
use vstd::arithmetic::mul::lemma_mul_inequality;
use crate::fixed::FX_ONE;
use crate::fixed::FX_LIMIT;
use crate::fixed::fdiv;
use crate::fixed::cdiv;
use crate::fixed::div_floor_i128;
use crate::fixed::lemma_fdiv_bound;
use crate::fixed::lemma_fdiv_range;
use crate::fixed::lemma_mul_bound;
use crate::color::Color;
use crate::fragment::Fragment;
use crate::vertex::Vertex;

verus! {

/// The x component of a vertex's transformed position.
pub open spec fn vx(v: Vertex) -> int {
    v.transformed_position.x as int
}

/// The y component of a vertex's transformed position.
pub open spec fn vy(v: Vertex) -> int {
    v.transformed_position.y as int
}

/// The z component of a vertex's transformed position.
pub open spec fn vz(v: Vertex) -> int {
    v.transformed_position.z as int
}

/// The edge function: twice the signed area of the triangle `(a, b, p)`.
pub open spec fn edge_spec(ax: int, ay: int, bx: int, by: int, px: int, py: int) -> int {
    (bx - ax) * (py - ay) - (by - ay) * (px - ax)
}

/// Twice the signed area of the triangle, in the xy-plane.
pub open spec fn area_of(v0: Vertex, v1: Vertex, v2: Vertex) -> int {
    edge_spec(vx(v0), vy(v0), vx(v1), vy(v1), vx(v2), vy(v2))
}

/// The unnormalized barycentric weight of `v0` at pixel `(px, py)`.
pub open spec fn w0_at(v0: Vertex, v1: Vertex, v2: Vertex, px: int, py: int) -> int {
    edge_spec(vx(v1), vy(v1), vx(v2), vy(v2), px * FX_ONE, py * FX_ONE)
}

/// The unnormalized barycentric weight of `v1` at pixel `(px, py)`.
pub open spec fn w1_at(v0: Vertex, v1: Vertex, v2: Vertex, px: int, py: int) -> int {
    edge_spec(vx(v2), vy(v2), vx(v0), vy(v0), px * FX_ONE, py * FX_ONE)
}

/// The unnormalized barycentric weight of `v2` at pixel `(px, py)`.
pub open spec fn w2_at(v0: Vertex, v1: Vertex, v2: Vertex, px: int, py: int) -> int {
    edge_spec(vx(v0), vy(v0), vx(v1), vy(v1), px * FX_ONE, py * FX_ONE)
}

/// The inclusive coverage rule: a pixel is covered when all three barycentric
/// weights are non-negative, that is, when the unnormalized weights all carry
/// the sign of the triangle's area. A zero-area triangle covers nothing.
pub open spec fn pixel_covered(v0: Vertex, v1: Vertex, v2: Vertex, px: int, py: int) -> bool {
    let area = area_of(v0, v1, v2);
    if area > 0 {
        w0_at(v0, v1, v2, px, py) >= 0 && w1_at(v0, v1, v2, px, py) >= 0
            && w2_at(v0, v1, v2, px, py) >= 0
    } else if area < 0 {
        w0_at(v0, v1, v2, px, py) <= 0 && w1_at(v0, v1, v2, px, py) <= 0
            && w2_at(v0, v1, v2, px, py) <= 0
    } else {
        false
    }
}

/// Barycentric interpolation of the attribute values `a0, a1, a2` with
/// unnormalized weights and floor rounding; the weights are normalized to the
/// sign of the area first.
pub open spec fn interp_spec(w0: int, w1: int, w2: int, area: int, a0: int, a1: int, a2: int) -> int {
    if area >= 0 {
        fdiv(w0 * a0 + w1 * a1 + w2 * a2, area)
    } else {
        fdiv((-w0) * a0 + (-w1) * a1 + (-w2) * a2, -area)
    }
}

/// Barycentric interpolation of an attribute at pixel `(px, py)`.
pub open spec fn interp_at(v0: Vertex, v1: Vertex, v2: Vertex, px: int, py: int, a0: int, a1: int, a2: int) -> int {
    interp_spec(
        w0_at(v0, v1, v2, px, py),
        w1_at(v0, v1, v2, px, py),
        w2_at(v0, v1, v2, px, py),
        area_of(v0, v1, v2),
        a0,
        a1,
        a2,
    )
}

/// The fragment emitted for covered pixel `(px, py)`: the pixel coordinate
/// with barycentrically interpolated depth and color.
pub open spec fn frag_at(v0: Vertex, v1: Vertex, v2: Vertex, px: int, py: int) -> Fragment {
    Fragment {
        x: px as usize,
        y: py as usize,
        depth: interp_at(v0, v1, v2, px, py, vz(v0), vz(v1), vz(v2)) as i64,
        color: Color {
            r: interp_at(v0, v1, v2, px, py, v0.color.r as int, v1.color.r as int, v2.color.r as int) as i64,
            g: interp_at(v0, v1, v2, px, py, v0.color.g as int, v1.color.g as int, v2.color.g as int) as i64,
            b: interp_at(v0, v1, v2, px, py, v0.color.b as int, v1.color.b as int, v2.color.b as int) as i64,
        },
    }
}

/// The least of three values.
pub open spec fn min3(a: int, b: int, c: int) -> int {
    if a <= b && a <= c {
        a
    } else if b <= c {
        b
    } else {
        c
    }
}

/// The greatest of three values.
pub open spec fn max3(a: int, b: int, c: int) -> int {
    if a >= b && a >= c {
        a
    } else if b >= c {
        b
    } else {
        c
    }
}

/// The first pixel column of the bounding box, clipped to non-negative.
pub open spec fn px_lo_of(v0: Vertex, v1: Vertex, v2: Vertex) -> int {
    let c = cdiv(min3(vx(v0), vx(v1), vx(v2)), FX_ONE as int);
    if c < 0 {
        0
    } else {
        c
    }
}

/// One past the last pixel column of the bounding box.
pub open spec fn px_end_of(v0: Vertex, v1: Vertex, v2: Vertex) -> int {
    let e = fdiv(max3(vx(v0), vx(v1), vx(v2)), FX_ONE as int) + 1;
    let lo = px_lo_of(v0, v1, v2);
    if e < lo {
        lo
    } else {
        e
    }
}

/// The first pixel row of the bounding box, clipped to non-negative.
pub open spec fn py_lo_of(v0: Vertex, v1: Vertex, v2: Vertex) -> int {
    let c = cdiv(min3(vy(v0), vy(v1), vy(v2)), FX_ONE as int);
    if c < 0 {
        0
    } else {
        c
    }
}

/// One past the last pixel row of the bounding box.
pub open spec fn py_end_of(v0: Vertex, v1: Vertex, v2: Vertex) -> int {
    let e = fdiv(max3(vy(v0), vy(v1), vy(v2)), FX_ONE as int) + 1;
    let lo = py_lo_of(v0, v1, v2);
    if e < lo {
        lo
    } else {
        e
    }
}

/// The fragments of one bounding-box row, columns `[px, px_end)` left to right.
pub open spec fn row_frags(v0: Vertex, v1: Vertex, v2: Vertex, py: int, px: int, px_end: int) -> Seq<Fragment>
    decreases px_end - px,
{
    if px_end <= px {
        Seq::empty()
    } else {
        let rest = row_frags(v0, v1, v2, py, px + 1, px_end);
        if pixel_covered(v0, v1, v2, px, py) {
            seq![frag_at(v0, v1, v2, px, py)] + rest
        } else {
            rest
        }
    }
}

/// The fragments of bounding-box rows `[py, py_end)`, top to bottom.
pub open spec fn box_frags(v0: Vertex, v1: Vertex, v2: Vertex, py: int, py_end: int) -> Seq<Fragment>
    decreases py_end - py,
{
    if py_end <= py {
        Seq::empty()
    } else {
        row_frags(v0, v1, v2, py, px_lo_of(v0, v1, v2), px_end_of(v0, v1, v2))
            + box_frags(v0, v1, v2, py + 1, py_end)
    }
}

/// All fragments of a triangle, in row-major order over its clipped
/// bounding box; empty for a degenerate (zero-area) triangle.
pub open spec fn tri_frags(v0: Vertex, v1: Vertex, v2: Vertex) -> Seq<Fragment> {
    if area_of(v0, v1, v2) == 0 {
        Seq::empty()
    } else {
        box_frags(v0, v1, v2, py_lo_of(v0, v1, v2), py_end_of(v0, v1, v2))
    }
}

/// The coordinate and color range the rasterizer accepts, chosen so that all
/// intermediate products of coverage and interpolation fit in `i128`.
pub open spec fn vertex_in_range(v: Vertex) -> bool {
    &&& v.transformed_position.abs_le(FX_LIMIT as int)
    &&& -FX_LIMIT <= v.color.r <= FX_LIMIT
    &&& -FX_LIMIT <= v.color.g <= FX_LIMIT
    &&& -FX_LIMIT <= v.color.b <= FX_LIMIT
}

/// Whether the rasterizer accepts this vertex (see [`vertex_in_range`]).
pub fn vertex_in_range_exec(v: &Vertex) -> (r: bool)
    ensures
        r == vertex_in_range(*v),
{
    let t = v.transformed_position;
    t.x >= -FX_LIMIT && t.x <= FX_LIMIT && t.y >= -FX_LIMIT && t.y <= FX_LIMIT
        && t.z >= -FX_LIMIT && t.z <= FX_LIMIT
        && v.color.r >= -FX_LIMIT && v.color.r <= FX_LIMIT
        && v.color.g >= -FX_LIMIT && v.color.g <= FX_LIMIT
        && v.color.b >= -FX_LIMIT && v.color.b <= FX_LIMIT
}

/// The three edge functions of a triangle sum to the triangle's area at
/// every sample point.
pub proof fn lemma_edge_sum(x0: int, y0: int, x1: int, y1: int, x2: int, y2: int, px: int, py: int)
    ensures
        edge_spec(x1, y1, x2, y2, px, py) + edge_spec(x2, y2, x0, y0, px, py)
            + edge_spec(x0, y0, x1, y1, px, py) == edge_spec(x0, y0, x1, y1, x2, y2),
{
    assert((x2 - x1) * (py - y1) == x2 * py - x2 * y1 - x1 * py + x1 * y1) by (nonlinear_arith);
    assert((y2 - y1) * (px - x1) == y2 * px - y2 * x1 - y1 * px + y1 * x1) by (nonlinear_arith);
    assert((x0 - x2) * (py - y2) == x0 * py - x0 * y2 - x2 * py + x2 * y2) by (nonlinear_arith);
    assert((y0 - y2) * (px - x2) == y0 * px - y0 * x2 - y2 * px + y2 * x2) by (nonlinear_arith);
    assert((x1 - x0) * (py - y0) == x1 * py - x1 * y0 - x0 * py + x0 * y0) by (nonlinear_arith);
    assert((y1 - y0) * (px - x0) == y1 * px - y1 * x0 - y0 * px + y0 * x0) by (nonlinear_arith);
    assert((x1 - x0) * (y2 - y0) == x1 * y2 - x1 * y0 - x0 * y2 + x0 * y0) by (nonlinear_arith);
    assert((y1 - y0) * (x2 - x0) == y1 * x2 - y1 * x0 - y0 * x2 + y0 * x0) by (nonlinear_arith);
    assert(x2 * y1 == y1 * x2 && x1 * y2 == y2 * x1 && x0 * y2 == y2 * x0 && x2 * y0 == y0 * x2
        && x1 * y0 == y0 * x1 && x0 * y1 == y1 * x0 && x1 * y1 == y1 * x1 && x2 * y2 == y2 * x2
        && x0 * y0 == y0 * x0) by (nonlinear_arith);
}

/// A non-negative convex combination of values in `[lo, hi]` stays between
/// `area * lo` and `area * hi`.
proof fn lemma_interp_range(w0: int, w1: int, w2: int, area: int, a0: int, a1: int, a2: int, lo: int, hi: int)
    requires
        w0 >= 0,
        w1 >= 0,
        w2 >= 0,
        w0 + w1 + w2 == area,
        lo <= a0 <= hi,
        lo <= a1 <= hi,
        lo <= a2 <= hi,
    ensures
        area * lo <= w0 * a0 + w1 * a1 + w2 * a2 <= area * hi,
{
    lemma_mul_inequality(a0, hi, w0);
    lemma_mul_inequality(a1, hi, w1);
    lemma_mul_inequality(a2, hi, w2);
    lemma_mul_inequality(lo, a0, w0);
    lemma_mul_inequality(lo, a1, w1);
    lemma_mul_inequality(lo, a2, w2);
    assert((w0 + w1 + w2) * hi == w0 * hi + w1 * hi + w2 * hi) by (nonlinear_arith);
    assert((w0 + w1 + w2) * lo == w0 * lo + w1 * lo + w2 * lo) by (nonlinear_arith);
}

/// A degenerate triangle — zero area, which is what collinear or coincident
/// vertices produce — emits no fragments at all.
pub proof fn lemma_degenerate_triangle_empty(v0: Vertex, v1: Vertex, v2: Vertex)
    requires
        area_of(v0, v1, v2) == 0,
    ensures
        tri_frags(v0, v1, v2) == Seq::<Fragment>::empty(),
{
}

/// Every fragment of one bounding-box row lies in that row, within the
/// column range, and the row emits at most one fragment per column.
proof fn lemma_row_frags_in_box(v0: Vertex, v1: Vertex, v2: Vertex, py: int, px: int, px_end: int)
    requires
        0 <= px,
        0 <= py <= usize::MAX,
        px_end <= usize::MAX,
    ensures
        row_frags(v0, v1, v2, py, px, px_end).len() <= (if px_end >= px {
            px_end - px
        } else {
            0
        }),
        forall|i: int|
            0 <= i < row_frags(v0, v1, v2, py, px, px_end).len() ==> {
                let f = #[trigger] row_frags(v0, v1, v2, py, px, px_end)[i];
                &&& px <= (f.x as int)
                &&& (f.x as int) < px_end
                &&& f.y as int == py
            },
    decreases px_end - px,
{
    if px < px_end {
        lemma_row_frags_in_box(v0, v1, v2, py, px + 1, px_end);
    }
}

/// Every fragment of the bounding-box rows `[py, py_end)` lies inside the
/// box, and the rows together emit at most one fragment per box pixel.
proof fn lemma_box_frags_in_box(v0: Vertex, v1: Vertex, v2: Vertex, py: int, py_end: int)
    requires
        0 <= py,
        py_end <= usize::MAX,
        px_end_of(v0, v1, v2) <= usize::MAX,
    ensures
        box_frags(v0, v1, v2, py, py_end).len() <= (if py_end >= py {
            (py_end - py) * (px_end_of(v0, v1, v2) - px_lo_of(v0, v1, v2))
        } else {
            0
        }),
        forall|i: int|
            0 <= i < box_frags(v0, v1, v2, py, py_end).len() ==> {
                let f = #[trigger] box_frags(v0, v1, v2, py, py_end)[i];
                &&& px_lo_of(v0, v1, v2) <= (f.x as int)
                &&& (f.x as int) < px_end_of(v0, v1, v2)
                &&& py <= (f.y as int)
                &&& (f.y as int) < py_end
            },
    decreases py_end - py,
{
    if py < py_end {
        let cols = px_end_of(v0, v1, v2) - px_lo_of(v0, v1, v2);
        lemma_row_frags_in_box(v0, v1, v2, py, px_lo_of(v0, v1, v2), px_end_of(v0, v1, v2));
        lemma_box_frags_in_box(v0, v1, v2, py + 1, py_end);
        assert((py_end - py) * cols == (py_end - py - 1) * cols + cols) by (nonlinear_arith);
        assert((py_end - py - 1) * cols >= 0) by (nonlinear_arith)
            requires py_end - py - 1 >= 0 && cols >= 0;
    }
}

/// A triangle of positive (nonzero) area emits at most one fragment per pixel
/// of its clipped bounding box — never more than the box's pixel count — and
/// never a fragment outside that box.
pub proof fn lemma_tri_frags_in_bbox(v0: Vertex, v1: Vertex, v2: Vertex)
    requires
        vertex_in_range(v0),
        vertex_in_range(v1),
        vertex_in_range(v2),
    ensures
        tri_frags(v0, v1, v2).len() <= (py_end_of(v0, v1, v2) - py_lo_of(v0, v1, v2)) * (px_end_of(
            v0,
            v1,
            v2,
        ) - px_lo_of(v0, v1, v2)),
        forall|i: int|
            0 <= i < tri_frags(v0, v1, v2).len() ==> {
                let f = #[trigger] tri_frags(v0, v1, v2)[i];
                &&& px_lo_of(v0, v1, v2) <= (f.x as int)
                &&& (f.x as int) < px_end_of(v0, v1, v2)
                &&& py_lo_of(v0, v1, v2) <= (f.y as int)
                &&& (f.y as int) < py_end_of(v0, v1, v2)
            },
{
    let one = FX_ONE as int;
    lemma_fdiv_bound(max3(vx(v0), vx(v1), vx(v2)), one, 0x80_0000);
    lemma_fdiv_bound(min3(vx(v0), vx(v1), vx(v2)) + 0xFFFF, one, 0x80_0001);
    lemma_fdiv_bound(max3(vy(v0), vy(v1), vy(v2)), one, 0x80_0000);
    lemma_fdiv_bound(min3(vy(v0), vy(v1), vy(v2)) + 0xFFFF, one, 0x80_0001);
    if area_of(v0, v1, v2) == 0 {
        assert((py_end_of(v0, v1, v2) - py_lo_of(v0, v1, v2)) * (px_end_of(v0, v1, v2) - px_lo_of(
            v0,
            v1,
            v2,
        )) >= 0) by (nonlinear_arith)
            requires
                py_end_of(v0, v1, v2) >= py_lo_of(v0, v1, v2),
                px_end_of(v0, v1, v2) >= px_lo_of(v0, v1, v2),
        ;
    } else {
        lemma_box_frags_in_box(v0, v1, v2, py_lo_of(v0, v1, v2), py_end_of(v0, v1, v2));
    }
}

/// The least of three fixed-point values.
fn min3_i64(a: i64, b: i64, c: i64) -> (r: i64)
    ensures
        r as int == min3(a as int, b as int, c as int),
{
    if a <= b && a <= c {
        a
    } else if b <= c {
        b
    } else {
        c
    }
}

/// The greatest of three fixed-point values.
fn max3_i64(a: i64, b: i64, c: i64) -> (r: i64)
    ensures
        r as int == max3(a as int, b as int, c as int),
{
    if a >= b && a >= c {
        a
    } else if b >= c {
        b
    } else {
        c
    }
}

/// The pixel at or below a fixed-point coordinate.
fn floor_px(a: i64) -> (r: i64)
    requires
        -FX_LIMIT <= a <= FX_LIMIT,
    ensures
        r as int == fdiv(a as int, FX_ONE as int),
        -0x80_0000 <= r <= 0x80_0000,
{
    proof {
        lemma_fdiv_bound(a as int, FX_ONE as int, 0x80_0000);
    }
    div_floor_i128(a as i128, FX_ONE as i128) as i64
}

/// The pixel at or above a fixed-point coordinate.
fn ceil_px(a: i64) -> (r: i64)
    requires
        -FX_LIMIT <= a <= FX_LIMIT,
    ensures
        r as int == cdiv(a as int, FX_ONE as int),
        -0x80_0001 <= r <= 0x80_0001,
{
    proof {
        lemma_fdiv_bound(a as int + 0xFFFF, FX_ONE as int, 0x80_0001);
    }
    div_floor_i128((a as i128) + 0xFFFF, FX_ONE as i128) as i64
}

/// The edge function of `(a, b)` at the sample point `p`, computed exactly.
fn edge_exec(ax: i64, ay: i64, bx: i64, by: i64, px: i64, py: i64) -> (w: i128)
    requires
        -FX_LIMIT <= ax <= FX_LIMIT,
        -FX_LIMIT <= ay <= FX_LIMIT,
        -FX_LIMIT <= bx <= FX_LIMIT,
        -FX_LIMIT <= by <= FX_LIMIT,
        -FX_LIMIT <= px <= FX_LIMIT,
        -FX_LIMIT <= py <= FX_LIMIT,
    ensures
        w == edge_spec(ax as int, ay as int, bx as int, by as int, px as int, py as int),
        -0x4_0000_0000_0000_0000_0000 <= w <= 0x4_0000_0000_0000_0000_0000,
{
    let dx = (bx as i128) - (ax as i128);
    let dy = (by as i128) - (ay as i128);
    let qx = (px as i128) - (ax as i128);
    let qy = (py as i128) - (ay as i128);
    proof {
        lemma_mul_bound(dx as int, qy as int, 0x100_0000_0000, 0x100_0000_0000);
        lemma_mul_bound(dy as int, qx as int, 0x100_0000_0000, 0x100_0000_0000);
    }
    dx * qy - dy * qx
}

/// Barycentric interpolation of one attribute: normalizes the weights to a
/// positive area, takes the weighted sum exactly in `i128`, and floor-divides
/// by the area. The result stays between the least and greatest attribute.
fn interp_exec(w0: i128, w1: i128, w2: i128, area: i128, a0: i64, a1: i64, a2: i64) -> (r: i64)
    requires
        area != 0,
        w0 + w1 + w2 == area,
        area > 0 ==> w0 >= 0 && w1 >= 0 && w2 >= 0,
        area < 0 ==> w0 <= 0 && w1 <= 0 && w2 <= 0,
        -0x4_0000_0000_0000_0000_0000 <= area <= 0x4_0000_0000_0000_0000_0000,
        -FX_LIMIT <= a0 <= FX_LIMIT,
        -FX_LIMIT <= a1 <= FX_LIMIT,
        -FX_LIMIT <= a2 <= FX_LIMIT,
    ensures
        r as int == interp_spec(w0 as int, w1 as int, w2 as int, area as int, a0 as int, a1 as int, a2 as int),
        min3(a0 as int, a1 as int, a2 as int) <= r as int <= max3(a0 as int, a1 as int, a2 as int),
{
    let ghost lo = min3(a0 as int, a1 as int, a2 as int);
    let ghost hi = max3(a0 as int, a1 as int, a2 as int);
    if area > 0 {
        proof {
            lemma_mul_bound(w0 as int, a0 as int, 0x4_0000_0000_0000_0000_0000, FX_LIMIT as int);
            lemma_mul_bound(w1 as int, a1 as int, 0x4_0000_0000_0000_0000_0000, FX_LIMIT as int);
            lemma_mul_bound(w2 as int, a2 as int, 0x4_0000_0000_0000_0000_0000, FX_LIMIT as int);
        }
        let n = w0 * (a0 as i128) + w1 * (a1 as i128) + w2 * (a2 as i128);
        proof {
            lemma_interp_range(w0 as int, w1 as int, w2 as int, area as int, a0 as int, a1 as int, a2 as int, lo, hi);
            lemma_fdiv_range(n as int, area as int, lo, hi);
        }
        div_floor_i128(n, area) as i64
    } else {
        let u0 = -w0;
        let u1 = -w1;
        let u2 = -w2;
        let pos_area = -area;
        proof {
            lemma_mul_bound(u0 as int, a0 as int, 0x4_0000_0000_0000_0000_0000, FX_LIMIT as int);
            lemma_mul_bound(u1 as int, a1 as int, 0x4_0000_0000_0000_0000_0000, FX_LIMIT as int);
            lemma_mul_bound(u2 as int, a2 as int, 0x4_0000_0000_0000_0000_0000, FX_LIMIT as int);
        }
        let n = u0 * (a0 as i128) + u1 * (a1 as i128) + u2 * (a2 as i128);
        proof {
            lemma_interp_range(u0 as int, u1 as int, u2 as int, pos_area as int, a0 as int, a1 as int, a2 as int, lo, hi);
            lemma_fdiv_range(n as int, pos_area as int, lo, hi);
        }
        div_floor_i128(n, pos_area) as i64
    }
}

/// Rasterizes one triangle: emits the fragment of every covered pixel of the
/// clipped bounding box in row-major order, with barycentrically interpolated
/// depth and color. A degenerate triangle yields no fragments.
pub fn triangle(v0: &Vertex, v1: &Vertex, v2: &Vertex) -> (frags: Vec<Fragment>)
    requires
        vertex_in_range(*v0),
        vertex_in_range(*v1),
        vertex_in_range(*v2),
    ensures
        frags@ == tri_frags(*v0, *v1, *v2),
{
    let t0 = v0.transformed_position;
    let t1 = v1.transformed_position;
    let t2 = v2.transformed_position;
    let mut frags: Vec<Fragment> = Vec::new();
    let area = edge_exec(t0.x, t0.y, t1.x, t1.y, t2.x, t2.y);
    if area == 0 {
        return frags;
    }
    let min_x = min3_i64(t0.x, t1.x, t2.x);
    let max_x = max3_i64(t0.x, t1.x, t2.x);
    let min_y = min3_i64(t0.y, t1.y, t2.y);
    let max_y = max3_i64(t0.y, t1.y, t2.y);
    let cx = ceil_px(min_x);
    let px0: i64 = if cx < 0 {
        0
    } else {
        cx
    };
    let ex = floor_px(max_x) + 1;
    let px_end: i64 = if ex < px0 {
        px0
    } else {
        ex
    };
    let cy = ceil_px(min_y);
    let py0: i64 = if cy < 0 {
        0
    } else {
        cy
    };
    let ey = floor_px(max_y) + 1;
    let py_end: i64 = if ey < py0 {
        py0
    } else {
        ey
    };
    proof {
        assert(frags@ + box_frags(*v0, *v1, *v2, py0 as int, py_end as int) =~= box_frags(
            *v0,
            *v1,
            *v2,
            py0 as int,
            py_end as int,
        ));
    }
    let mut py: i64 = py0;
    while py < py_end
        invariant
            vertex_in_range(*v0),
            vertex_in_range(*v1),
            vertex_in_range(*v2),
            t0 == v0.transformed_position,
            t1 == v1.transformed_position,
            t2 == v2.transformed_position,
            area == area_of(*v0, *v1, *v2),
            area != 0,
            -0x4_0000_0000_0000_0000_0000 <= area <= 0x4_0000_0000_0000_0000_0000,
            px0 as int == px_lo_of(*v0, *v1, *v2),
            px_end as int == px_end_of(*v0, *v1, *v2),
            py0 as int == py_lo_of(*v0, *v1, *v2),
            py_end as int == py_end_of(*v0, *v1, *v2),
            0 <= px0 <= px_end <= 0x80_0001,
            0 <= py0 <= py <= py_end <= 0x80_0001,
            tri_frags(*v0, *v1, *v2) == frags@ + box_frags(*v0, *v1, *v2, py as int, py_end as int),
        decreases py_end - py,
    {
        let sy = py * FX_ONE;
        let mut px: i64 = px0;
        proof {
            assert(box_frags(*v0, *v1, *v2, py as int, py_end as int) == row_frags(
                *v0,
                *v1,
                *v2,
                py as int,
                px0 as int,
                px_end as int,
            ) + box_frags(*v0, *v1, *v2, py as int + 1, py_end as int));
            assert(frags@ + (row_frags(*v0, *v1, *v2, py as int, px0 as int, px_end as int)
                + box_frags(*v0, *v1, *v2, py as int + 1, py_end as int)) =~= frags@ + box_frags(
                *v0,
                *v1,
                *v2,
                py as int,
                py_end as int,
            ));
        }
        while px < px_end
            invariant
                vertex_in_range(*v0),
                vertex_in_range(*v1),
                vertex_in_range(*v2),
                t0 == v0.transformed_position,
                t1 == v1.transformed_position,
                t2 == v2.transformed_position,
                area == area_of(*v0, *v1, *v2),
                area != 0,
                -0x4_0000_0000_0000_0000_0000 <= area <= 0x4_0000_0000_0000_0000_0000,
                0 <= px0 <= px <= px_end <= 0x80_0001,
                0 <= py < py_end <= 0x80_0001,
                sy == py * FX_ONE,
                tri_frags(*v0, *v1, *v2) == frags@ + (row_frags(
                    *v0,
                    *v1,
                    *v2,
                    py as int,
                    px as int,
                    px_end as int,
                ) + box_frags(*v0, *v1, *v2, py as int + 1, py_end as int)),
            decreases px_end - px,
        {
            let sx = px * FX_ONE;
            let w0 = edge_exec(t1.x, t1.y, t2.x, t2.y, sx, sy);
            let w1 = edge_exec(t2.x, t2.y, t0.x, t0.y, sx, sy);
            let w2 = edge_exec(t0.x, t0.y, t1.x, t1.y, sx, sy);
            proof {
                lemma_edge_sum(
                    vx(*v0),
                    vy(*v0),
                    vx(*v1),
                    vy(*v1),
                    vx(*v2),
                    vy(*v2),
                    sx as int,
                    sy as int,
                );
            }
            let inside = if area > 0 {
                w0 >= 0 && w1 >= 0 && w2 >= 0
            } else {
                w0 <= 0 && w1 <= 0 && w2 <= 0
            };
            let ghost frags_before = frags@;
            if inside {
                let depth = interp_exec(w0, w1, w2, area, t0.z, t1.z, t2.z);
                let cr = interp_exec(w0, w1, w2, area, v0.color.r, v1.color.r, v2.color.r);
                let cg = interp_exec(w0, w1, w2, area, v0.color.g, v1.color.g, v2.color.g);
                let cb = interp_exec(w0, w1, w2, area, v0.color.b, v1.color.b, v2.color.b);
                let f = Fragment {
                    x: px as usize,
                    y: py as usize,
                    depth,
                    color: Color { r: cr, g: cg, b: cb },
                };
                proof {
                    assert(f == frag_at(*v0, *v1, *v2, px as int, py as int));
                }
                frags.push(f);
                proof {
                    assert(frags@ + (row_frags(*v0, *v1, *v2, py as int, px as int + 1, px_end as int)
                        + box_frags(*v0, *v1, *v2, py as int + 1, py_end as int)) =~= frags_before
                        + (row_frags(*v0, *v1, *v2, py as int, px as int, px_end as int)
                        + box_frags(*v0, *v1, *v2, py as int + 1, py_end as int)));
                }
            } else {
                proof {
                    assert(row_frags(*v0, *v1, *v2, py as int, px as int, px_end as int)
                        == row_frags(*v0, *v1, *v2, py as int, px as int + 1, px_end as int));
                }
            }
            px = px + 1;
        }
        proof {
            assert(row_frags(*v0, *v1, *v2, py as int, px as int, px_end as int)
                =~= Seq::<Fragment>::empty());
            assert(frags@ + box_frags(*v0, *v1, *v2, py as int + 1, py_end as int) =~= frags@ + (
            row_frags(*v0, *v1, *v2, py as int, px as int, px_end as int) + box_frags(
                *v0,
                *v1,
                *v2,
                py as int + 1,
                py_end as int,
            )));
        }
        py = py + 1;
    }
    proof {
        assert(box_frags(*v0, *v1, *v2, py as int, py_end as int) =~= Seq::<Fragment>::empty());
        assert(frags@ + box_frags(*v0, *v1, *v2, py as int, py_end as int) =~= frags@);
    }
    frags
}

} // verus!
