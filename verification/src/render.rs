//! The render loop: per frame, transform every vertex by the model matrix,
//! rasterize each full group of three consecutive vertices, and composite the
//! fragments into the framebuffer under a strict less-than depth test.

use vstd::prelude::*;
use crate::color::pack_color;
use crate::fixed::FX_MAX_POS;
use crate::fragment::Fragment;
use crate::framebuffer::Framebuffer;
use crate::framebuffer::lemma_pixel_index;
use crate::framebuffer::lemma_pixel_index_injective;
use crate::matrix::Mat4;
use crate::matrix::Uniforms;
use crate::matrix::mat4_bounded;
use crate::matrix::transform_vertex;
use crate::matrix::transform_vertex_spec;
use crate::matrix::FX_MAX_TRANS;
use crate::matrix::lemma_zero_scale_collapses;
use crate::matrix::mat4_mul_spec;
use crate::matrix::rotation_in_range;
use crate::matrix::scaling_spec;
use crate::matrix::translation_spec;
use crate::triangle::area_of;
use crate::triangle::lemma_degenerate_triangle_empty;
use crate::triangle::tri_frags;
use crate::triangle::triangle;
use crate::triangle::vertex_in_range;
use crate::triangle::vertex_in_range_exec;
use crate::triangle::vx;
use crate::triangle::vy;
use crate::vertex::Vec3;
use crate::vertex::Vertex;

verus! {

/// The depth value standing for "infinitely far": no fragment depth reaches
/// it, so a freshly reset pixel accepts the first fragment that targets it.
pub const DEPTH_FAR: i64 = i64::MAX;

/// The vertex sequence after the transform stage.
pub open spec fn transformed_seq(m: Mat4, vs: Seq<Vertex>) -> Seq<Vertex> {
    Seq::new(vs.len(), |i: int| transform_vertex_spec(m, vs[i]))
}

/// Whether a triangle's three vertices are all within the rasterizer's range.
pub open spec fn tri_in_range(a: Vertex, b: Vertex, c: Vertex) -> bool {
    vertex_in_range(a) && vertex_in_range(b) && vertex_in_range(c)
}

/// The fragments of the triangles formed from `tv[t..]`, three consecutive
/// vertices each, in submission order; a trailing group of fewer than three
/// vertices contributes nothing, and a triangle with a vertex outside the
/// rasterizer's range is skipped whole.
pub open spec fn frags_from(tv: Seq<Vertex>, t: int) -> Seq<Fragment>
    decreases tv.len() - t,
{
    if t < 0 || t + 3 > tv.len() {
        Seq::empty()
    } else {
        (if tri_in_range(tv[t], tv[t + 1], tv[t + 2]) {
            tri_frags(tv[t], tv[t + 1], tv[t + 2])
        } else {
            Seq::empty()
        }) + frags_from(tv, t + 3)
    }
}

/// Every fragment of one frame of `vs` under the model matrix `m`.
pub open spec fn scene_frags(m: Mat4, vs: Seq<Vertex>) -> Seq<Fragment> {
    frags_from(transformed_seq(m, vs), 0)
}

/// One fragment composited into the buffers: discarded if out of bounds or
/// not strictly nearer than the stored depth, else written to both buffers.
pub open spec fn composite_step(fb: Seq<u32>, zb: Seq<i64>, f: Fragment, w: int, h: int) -> (Seq<
    u32,
>, Seq<i64>) {
    if f.x < w && f.y < h && f.depth < zb[f.y * w + f.x] {
        (fb.update(f.y * w + f.x, pack_color(f.color) as u32), zb.update(f.y * w + f.x, f.depth))
    } else {
        (fb, zb)
    }
}

/// A fragment sequence composited in order into the buffers.
pub open spec fn composite(fb: Seq<u32>, zb: Seq<i64>, frags: Seq<Fragment>, w: int, h: int) -> (
    Seq<u32>,
    Seq<i64>,
)
    decreases frags.len(),
{
    if frags.len() == 0 {
        (fb, zb)
    } else {
        let s = composite_step(fb, zb, frags[0], w, h);
        composite(s.0, s.1, frags.skip(1), w, h)
    }
}

/// Resets every stored depth to `DEPTH_FAR`.
pub fn clear_depth(z_buffer: &mut Vec<i64>)
    ensures
        final(z_buffer)@ == Seq::new(old(z_buffer)@.len(), |i: int| DEPTH_FAR),
{
    let n = z_buffer.len();
    let mut i: usize = 0;
    while i < n
        invariant
            i <= n,
            z_buffer@.len() == n,
            forall|j: int| 0 <= j < i ==> z_buffer@[j] == DEPTH_FAR,
            forall|j: int| i <= j < n ==> z_buffer@[j] == old(z_buffer)@[j],
        decreases n - i,
    {
        z_buffer[i] = DEPTH_FAR;
        i = i + 1;
    }
    proof {
        assert(z_buffer@ =~= Seq::new(old(z_buffer)@.len(), |i: int| DEPTH_FAR));
    }
}

/// One frame's rasterization and composite: transforms every vertex, forms
/// triangles from each three consecutive transformed vertices (a trailing
/// partial group is dropped), rasterizes them, and composites every fragment
/// in order under the strict less-than depth test. Buffers are not cleared
/// here; the caller resets them at the start of the frame.
pub fn render(
    framebuffer: &mut Framebuffer,
    z_buffer: &mut Vec<i64>,
    uniforms: &Uniforms,
    vertex_array: &[Vertex],
)
    requires
        old(framebuffer).well_formed(),
        old(z_buffer)@.len() == old(framebuffer).width * old(framebuffer).height,
        mat4_bounded(uniforms.model_matrix),
        forall|i: int|
            0 <= i < vertex_array@.len() ==> (#[trigger] vertex_array@[i]).position.abs_le(
                FX_MAX_POS as int,
            ),
        vertex_array@.len() + 3 <= usize::MAX,
    ensures
        final(framebuffer).width == old(framebuffer).width,
        final(framebuffer).height == old(framebuffer).height,
        final(framebuffer).well_formed(),
        final(z_buffer)@.len() == old(z_buffer)@.len(),
        ({
            let r = composite(
                old(framebuffer).buffer@,
                old(z_buffer)@,
                scene_frags(uniforms.model_matrix, vertex_array@),
                old(framebuffer).width as int,
                old(framebuffer).height as int,
            );
            final(framebuffer).buffer@ == r.0 && final(z_buffer)@ == r.1
        }),
{
    let ghost m = uniforms.model_matrix;
    let mut transformed: Vec<Vertex> = Vec::new();
    let mut i: usize = 0;
    while i < vertex_array.len()
        invariant
            i <= vertex_array@.len(),
            transformed@.len() == i,
            mat4_bounded(uniforms.model_matrix),
            forall|j: int|
                0 <= j < vertex_array@.len() ==> (#[trigger] vertex_array@[j]).position.abs_le(
                    FX_MAX_POS as int,
                ),
            forall|j: int|
                0 <= j < i ==> transformed@[j] == transform_vertex_spec(
                    uniforms.model_matrix,
                    vertex_array@[j],
                ),
        decreases vertex_array@.len() - i,
    {
        let tv = transform_vertex(&uniforms.model_matrix, &vertex_array[i]);
        transformed.push(tv);
        i = i + 1;
    }
    proof {
        assert(transformed@ =~= transformed_seq(m, vertex_array@));
    }
    let ghost fb0 = framebuffer.buffer@;
    let ghost zb0 = z_buffer@;
    let ghost all = frags_from(transformed@, 0);
    let w = framebuffer.width;
    let h = framebuffer.height;
    let mut t: usize = 0;
    while t + 2 < transformed.len()
        invariant
            transformed@ == transformed_seq(m, vertex_array@),
            transformed@.len() == vertex_array@.len(),
            vertex_array@.len() + 3 <= usize::MAX,
            t <= transformed@.len(),
            m == uniforms.model_matrix,
            framebuffer.width == w,
            framebuffer.height == h,
            framebuffer.well_formed(),
            z_buffer@.len() == w * h,
            composite(fb0, zb0, all, w as int, h as int) == composite(
                framebuffer.buffer@,
                z_buffer@,
                frags_from(transformed@, t as int),
                w as int,
                h as int,
            ),
        decreases transformed@.len() - t,
    {
        let va = transformed[t];
        let vb = transformed[t + 1];
        let vc = transformed[t + 2];
        let ghost rest = frags_from(transformed@, t as int + 3);
        if vertex_in_range_exec(&va) && vertex_in_range_exec(&vb) && vertex_in_range_exec(&vc) {
            let frags = triangle(&va, &vb, &vc);
            proof {
                assert(frags_from(transformed@, t as int) == tri_frags(va, vb, vc) + rest);
                assert(frags@.skip(0) =~= frags@);
                assert(frags@.skip(0) + rest =~= frags_from(transformed@, t as int));
            }
            let mut k: usize = 0;
            while k < frags.len()
                invariant
                    k <= frags@.len(),
                    framebuffer.width == w,
                    framebuffer.height == h,
                    framebuffer.well_formed(),
                    z_buffer@.len() == w * h,
                    composite(fb0, zb0, all, w as int, h as int) == composite(
                        framebuffer.buffer@,
                        z_buffer@,
                        frags@.skip(k as int) + rest,
                        w as int,
                        h as int,
                    ),
                decreases frags@.len() - k,
            {
                let f = frags[k];
                let ghost fb_before = framebuffer.buffer@;
                let ghost zb_before = z_buffer@;
                let ghost remaining = frags@.skip(k as int) + rest;
                proof {
                    assert(remaining[0] == f);
                    assert(remaining.skip(1) =~= frags@.skip(k as int + 1) + rest);
                }
                if f.x < w && f.y < h {
                    proof {
                        lemma_pixel_index(f.x as int, f.y as int, w as int, h as int);
                    }
                    let _zb_len = z_buffer.len();
                    let index = f.y * w + f.x;
                    if f.depth < z_buffer[index] {
                        z_buffer[index] = f.depth;
                        framebuffer.set_current_color(f.x, f.y, f.color.to_hex());
                    }
                }
                proof {
                    assert((framebuffer.buffer@, z_buffer@) == composite_step(
                        fb_before,
                        zb_before,
                        f,
                        w as int,
                        h as int,
                    ));
                }
                k = k + 1;
            }
            proof {
                assert(frags@.skip(k as int) + rest =~= rest);
            }
        } else {
            proof {
                assert(frags_from(transformed@, t as int) == rest);
            }
        }
        t = t + 3;
    }
    proof {
        assert(frags_from(transformed@, t as int) =~= Seq::<Fragment>::empty());
        assert(composite(
            framebuffer.buffer@,
            z_buffer@,
            frags_from(transformed@, t as int),
            w as int,
            h as int,
        ) == (framebuffer.buffer@, z_buffer@));
    }
}

/// The buffers after one full frame: both cleared, then every fragment of the
/// scene composited in order. A function of the inputs alone.
pub open spec fn frame_spec(clear_color: u32, m: Mat4, vs: Seq<Vertex>, w: int, h: int) -> (
    Seq<u32>,
    Seq<i64>,
) {
    composite(
        Seq::new((w * h) as nat, |i: int| clear_color),
        Seq::new((w * h) as nat, |i: int| DEPTH_FAR),
        scene_frags(m, vs),
        w,
        h,
    )
}

/// One full frame: clears the framebuffer to `clear_color`, resets every
/// depth to `DEPTH_FAR`, then transforms, rasterizes and composites.
///
/// The resulting buffers are a function of the clear color, the uniforms and
/// the vertex array alone: two frames with identical inputs yield
/// byte-identical framebuffers, whatever the buffers held before.
pub fn render_frame(
    framebuffer: &mut Framebuffer,
    z_buffer: &mut Vec<i64>,
    uniforms: &Uniforms,
    vertex_array: &[Vertex],
    clear_color: u32,
)
    requires
        old(framebuffer).well_formed(),
        old(z_buffer)@.len() == old(framebuffer).width * old(framebuffer).height,
        mat4_bounded(uniforms.model_matrix),
        forall|i: int|
            0 <= i < vertex_array@.len() ==> (#[trigger] vertex_array@[i]).position.abs_le(
                FX_MAX_POS as int,
            ),
        vertex_array@.len() + 3 <= usize::MAX,
    ensures
        final(framebuffer).width == old(framebuffer).width,
        final(framebuffer).height == old(framebuffer).height,
        final(framebuffer).well_formed(),
        final(z_buffer)@.len() == old(z_buffer)@.len(),
        ({
            let r = frame_spec(
                clear_color,
                uniforms.model_matrix,
                vertex_array@,
                old(framebuffer).width as int,
                old(framebuffer).height as int,
            );
            final(framebuffer).buffer@ == r.0 && final(z_buffer)@ == r.1
        }),
{
    let ghost w = framebuffer.width as int;
    let ghost h = framebuffer.height as int;
    framebuffer.clear(clear_color);
    clear_depth(z_buffer);
    proof {
        assert(framebuffer.buffer@ =~= Seq::new((w * h) as nat, |i: int| clear_color));
        assert(z_buffer@ =~= Seq::new((w * h) as nat, |i: int| DEPTH_FAR));
    }
    render(framebuffer, z_buffer, uniforms, vertex_array);
}

/// A scene whose transformed vertices all sit at one point yields no
/// fragments: every triangle has zero area.
proof fn lemma_frags_from_collapsed(tv: Seq<Vertex>, t: int)
    requires
        forall|i: int, j: int|
            0 <= i < tv.len() && 0 <= j < tv.len() ==> (#[trigger] tv[i]).transformed_position == (
            #[trigger] tv[j]).transformed_position,
    ensures
        frags_from(tv, t) == Seq::<Fragment>::empty(),
    decreases tv.len() - t,
{
    if !(t < 0 || t + 3 > tv.len()) {
        let a = tv[t];
        let b = tv[t + 1];
        let c = tv[t + 2];
        assert((vx(b) - vx(a)) * (vy(c) - vy(a)) == 0) by (nonlinear_arith)
            requires vx(b) == vx(a);
        assert((vy(b) - vy(a)) * (vx(c) - vx(a)) == 0) by (nonlinear_arith)
            requires vy(b) == vy(a);
        assert(area_of(a, b, c) == 0);
        lemma_degenerate_triangle_empty(a, b, c);
        lemma_frags_from_collapsed(tv, t + 3);
        assert(frags_from(tv, t) =~= Seq::<Fragment>::empty());
    }
}

/// With scale zero the model matrix collapses every vertex onto the
/// translation point, so the rasterizer receives only degenerate triangles
/// and one frame of any scene paints nothing.
pub proof fn lemma_zero_scale_scene_is_empty(t: Vec3, r: Mat4, vs: Seq<Vertex>)
    requires
        t.abs_le(FX_MAX_TRANS as int),
        rotation_in_range(r),
    ensures
        scene_frags(
            mat4_mul_spec(mat4_mul_spec(translation_spec(t), r), scaling_spec(0)),
            vs,
        ) == Seq::<Fragment>::empty(),
{
    let m = mat4_mul_spec(mat4_mul_spec(translation_spec(t), r), scaling_spec(0));
    let tv = transformed_seq(m, vs);
    assert forall|i: int, j: int|
        0 <= i < tv.len() && 0 <= j < tv.len() implies (#[trigger] tv[i]).transformed_position == (
    #[trigger] tv[j]).transformed_position by {
        lemma_zero_scale_collapses(t, r, vs[i].position);
        lemma_zero_scale_collapses(t, r, vs[j].position);
    }
    lemma_frags_from_collapsed(tv, 0);
}

/// The least depth among the fragments that target pixel `(x, y)`, folded
/// left over the sequence starting from `init`.
pub open spec fn least_depth(frags: Seq<Fragment>, x: int, y: int, init: int) -> int
    decreases frags.len(),
{
    if frags.len() == 0 {
        init
    } else {
        let next = if frags[0].x == x && frags[0].y == y && frags[0].depth < init {
            frags[0].depth as int
        } else {
            init
        };
        least_depth(frags.skip(1), x, y, next)
    }
}

/// The depth-test invariant: after compositing, every in-range pixel stores
/// the least depth among the fragments that targeted it, starting from what
/// the depth buffer held before (so `DEPTH_FAR` after a fresh reset).
pub proof fn lemma_composite_depth_is_min(
    fb: Seq<u32>,
    zb: Seq<i64>,
    frags: Seq<Fragment>,
    w: int,
    h: int,
    x: int,
    y: int,
)
    requires
        0 <= x < w,
        0 <= y < h,
        zb.len() == w * h,
    ensures
        composite(fb, zb, frags, w, h).1.len() == w * h,
        composite(fb, zb, frags, w, h).1[y * w + x] == least_depth(
            frags,
            x,
            y,
            zb[y * w + x] as int,
        ),
    decreases frags.len(),
{
    lemma_pixel_index(x, y, w, h);
    if frags.len() > 0 {
        let f = frags[0];
        let s = composite_step(fb, zb, f, w, h);
        if f.x < w && f.y < h && f.depth < zb[f.y * w + f.x] {
            lemma_pixel_index(f.x as int, f.y as int, w, h);
            if !(f.x == x && f.y == y) {
                lemma_pixel_index_injective(x, y, f.x as int, f.y as int, w);
            }
        }
        lemma_composite_depth_is_min(s.0, s.1, frags.skip(1), w, h, x, y);
    }
}

} // verus!
