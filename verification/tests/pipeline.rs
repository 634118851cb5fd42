use rasterizer::color::Color;
use rasterizer::fixed::FX_ONE;
use rasterizer::framebuffer::Framebuffer;
use rasterizer::matrix::Mat4;
use rasterizer::matrix::Uniforms;
use rasterizer::matrix::transform_vertex;
use rasterizer::model::Model3D;
use rasterizer::render::DEPTH_FAR;
use rasterizer::render::clear_depth;
use rasterizer::render::render;
use rasterizer::render::render_frame;
use rasterizer::triangle::triangle;
use rasterizer::vertex::Vec3;
use rasterizer::vertex::Vertex;

fn screen_vertex(x: i64, y: i64, z: i64, color: Color) -> Vertex {
    Vertex {
        position: Vec3::new(0, 0, 0),
        color,
        transformed_position: Vec3::new(x * FX_ONE, y * FX_ONE, z),
    }
}

fn red() -> Color {
    Color::new(FX_ONE, 0, 0)
}

fn blue() -> Color {
    Color::new(0, 0, FX_ONE)
}

#[test]
fn framebuffer_new_is_zeroed() {
    let fb = Framebuffer::new(4, 3);
    assert_eq!(fb.width, 4);
    assert_eq!(fb.height, 3);
    assert_eq!(fb.buffer.len(), 12);
    for p in &fb.buffer {
        assert_eq!(*p, 0);
    }
}

#[test]
fn framebuffer_set_writes_in_bounds() {
    let mut fb = Framebuffer::new(4, 3);
    fb.set_current_color(2, 1, 0xABCDEF);
    assert_eq!(fb.get_pixel(2, 1), 0xABCDEF);
    assert_eq!(fb.get_pixel(1, 2), 0);
}

#[test]
fn framebuffer_set_out_of_bounds_is_a_no_op() {
    let mut fb = Framebuffer::new(4, 3);
    fb.set_current_color(4, 0, 0xABCDEF);
    fb.set_current_color(0, 3, 0xABCDEF);
    fb.set_current_color(usize::MAX, usize::MAX, 0xABCDEF);
    for p in &fb.buffer {
        assert_eq!(*p, 0);
    }
}

#[test]
fn framebuffer_clear_sets_every_pixel() {
    let mut fb = Framebuffer::new(4, 3);
    fb.set_current_color(2, 1, 0xABCDEF);
    fb.clear(0x101010);
    for p in &fb.buffer {
        assert_eq!(*p, 0x101010);
    }
}

#[test]
fn clear_depth_resets_to_far() {
    let mut zb = vec![5i64, -3, 0, 7];
    clear_depth(&mut zb);
    assert_eq!(zb, vec![DEPTH_FAR; 4]);
}

#[test]
fn transform_applies_translation_and_scale() {
    let u = Uniforms::new(
        Vec3::new(10 * FX_ONE, 20 * FX_ONE, 30 * FX_ONE),
        2 * FX_ONE,
        Mat4::identity(),
    );
    let v = Vertex::new(Vec3::new(FX_ONE, 2 * FX_ONE, 3 * FX_ONE), red());
    let t = transform_vertex(&u.model_matrix, &v);
    assert_eq!(t.transformed_position, Vec3::new(12 * FX_ONE, 24 * FX_ONE, 36 * FX_ONE));
    assert_eq!(t.position, v.position);
    assert_eq!(t.color, red());
}

#[test]
fn rasterizer_fills_inclusive_right_triangle() {
    let v0 = screen_vertex(10, 10, FX_ONE / 2, red());
    let v1 = screen_vertex(20, 10, FX_ONE / 2, red());
    let v2 = screen_vertex(10, 20, FX_ONE / 2, red());
    let frags = triangle(&v0, &v1, &v2);
    // the covered pixels are x >= 10, y >= 10, x + y <= 30: 11 + 10 + ... + 1
    assert_eq!(frags.len(), 66);
    for f in &frags {
        assert!(f.x >= 10 && f.x <= 20);
        assert!(f.y >= 10 && f.y <= 20);
        assert!(f.x + f.y <= 30);
        assert_eq!(f.depth, FX_ONE / 2);
        assert_eq!(f.color, red());
    }
}

#[test]
fn rasterizer_stays_inside_bounding_box() {
    let v0 = screen_vertex(3, 1, 0, red());
    let v1 = screen_vertex(9, 4, 0, blue());
    let v2 = screen_vertex(2, 8, 0, red());
    let frags = triangle(&v0, &v1, &v2);
    assert!(frags.len() <= 8 * 8);
    assert!(frags.len() > 0);
    for f in &frags {
        assert!(f.x >= 2 && f.x <= 9);
        assert!(f.y >= 1 && f.y <= 8);
    }
}

#[test]
fn clockwise_winding_fills_the_same_pixels() {
    let v0 = screen_vertex(10, 10, FX_ONE / 2, red());
    let v1 = screen_vertex(20, 10, FX_ONE / 2, red());
    let v2 = screen_vertex(10, 20, FX_ONE / 2, red());
    let counterclockwise = triangle(&v0, &v1, &v2);
    let clockwise = triangle(&v0, &v2, &v1);
    assert_eq!(counterclockwise, clockwise);
}

#[test]
fn negative_coordinates_clip_to_non_negative_pixels() {
    let v0 = screen_vertex(-5, -5, 0, red());
    let v1 = screen_vertex(5, -5, 0, red());
    let v2 = screen_vertex(-5, 5, 0, red());
    // of the covered half-plane x + y <= 0 only pixel (0, 0) is non-negative
    let frags = triangle(&v0, &v1, &v2);
    assert_eq!(frags.len(), 1);
    assert_eq!((frags[0].x, frags[0].y), (0, 0));
}

#[test]
fn render_skips_triangles_out_of_coordinate_range() {
    // a large model under a large scale overflows the rasterizer's
    // coordinate range; the triangle contributes nothing instead of wrapping
    let u = Uniforms::new(Vec3::new(0, 0, 0), 100000 * FX_ONE, Mat4::identity());
    let mut model = Model3D::new();
    model.add_vertex(Vec3::new(1000000 * FX_ONE, 0, 0), red());
    model.add_vertex(Vec3::new(0, 1000000 * FX_ONE, 0), red());
    model.add_vertex(Vec3::new(1000000 * FX_ONE, 1000000 * FX_ONE, 0), red());
    let mut fb = Framebuffer::new(30, 30);
    let mut zb = vec![0i64; 30 * 30];
    render_frame(&mut fb, &mut zb, &u, &model.vertices, CLEAR);
    for y in 0..30usize {
        for x in 0..30usize {
            assert_eq!(fb.get_pixel(x, y), CLEAR);
            assert_eq!(zb[y * 30 + x], DEPTH_FAR);
        }
    }
}

#[test]
fn degenerate_collinear_triangle_is_empty() {
    let v0 = screen_vertex(0, 0, 0, red());
    let v1 = screen_vertex(5, 5, 0, red());
    let v2 = screen_vertex(10, 10, 0, red());
    assert_eq!(triangle(&v0, &v1, &v2).len(), 0);
}

#[test]
fn degenerate_coincident_triangle_is_empty() {
    let v = screen_vertex(7, 7, 0, red());
    assert_eq!(triangle(&v, &v, &v).len(), 0);
}

fn identity_uniforms() -> Uniforms {
    Uniforms::new(Vec3::new(0, 0, 0), FX_ONE, Mat4::identity())
}

fn triangle_model(z: i64, color: Color) -> Model3D {
    let mut m = Model3D::new();
    m.add_vertex(Vec3::new(10 * FX_ONE, 10 * FX_ONE, z), color);
    m.add_vertex(Vec3::new(20 * FX_ONE, 10 * FX_ONE, z), color);
    m.add_vertex(Vec3::new(10 * FX_ONE, 20 * FX_ONE, z), color);
    m
}

const CLEAR: u32 = 0x00101010;

#[test]
fn single_triangle_frame_paints_exactly_its_pixels() {
    let u = identity_uniforms();
    let model = triangle_model(FX_ONE / 2, red());
    let mut fb = Framebuffer::new(30, 30);
    let mut zb = vec![0i64; 30 * 30];
    render_frame(&mut fb, &mut zb, &u, &model.vertices, CLEAR);
    for y in 0..30usize {
        for x in 0..30usize {
            let covered = x >= 10 && y >= 10 && x + y <= 30;
            let pixel = fb.get_pixel(x, y);
            let depth = zb[y * 30 + x];
            if covered {
                assert_eq!(pixel, 0x00FF0000);
                assert_eq!(depth, FX_ONE / 2);
            } else {
                assert_eq!(pixel, CLEAR);
                assert_eq!(depth, DEPTH_FAR);
            }
        }
    }
}

#[test]
fn frame_is_deterministic() {
    let u = identity_uniforms();
    let model = triangle_model(FX_ONE / 2, red());
    let mut fb1 = Framebuffer::new(30, 30);
    let mut zb1 = vec![0i64; 30 * 30];
    fb1.clear(0xDEAD);
    render_frame(&mut fb1, &mut zb1, &u, &model.vertices, CLEAR);
    let mut fb2 = Framebuffer::new(30, 30);
    let mut zb2 = vec![77i64; 30 * 30];
    fb2.clear(0xBEEF);
    render_frame(&mut fb2, &mut zb2, &u, &model.vertices, CLEAR);
    assert_eq!(fb1.buffer, fb2.buffer);
    assert_eq!(zb1, zb2);
}

#[test]
fn nearer_triangle_keeps_its_pixels() {
    // the nearer (smaller depth) triangle first, the farther one second
    let u = identity_uniforms();
    let mut model = triangle_model(FX_ONE / 4, red());
    model.add_vertex(Vec3::new(10 * FX_ONE, 10 * FX_ONE, 3 * FX_ONE / 4), blue());
    model.add_vertex(Vec3::new(20 * FX_ONE, 10 * FX_ONE, 3 * FX_ONE / 4), blue());
    model.add_vertex(Vec3::new(10 * FX_ONE, 20 * FX_ONE, 3 * FX_ONE / 4), blue());
    let mut fb = Framebuffer::new(30, 30);
    let mut zb = vec![0i64; 30 * 30];
    render_frame(&mut fb, &mut zb, &u, &model.vertices, CLEAR);
    for y in 0..30usize {
        for x in 0..30usize {
            let covered = x >= 10 && y >= 10 && x + y <= 30;
            if covered {
                assert_eq!(fb.get_pixel(x, y), 0x00FF0000);
                // the stored depth is the least depth that targeted the pixel
                assert_eq!(zb[y * 30 + x], FX_ONE / 4);
            } else {
                assert_eq!(fb.get_pixel(x, y), CLEAR);
            }
        }
    }
}

#[test]
fn trailing_partial_vertex_group_is_dropped() {
    let u = identity_uniforms();
    let complete = triangle_model(FX_ONE / 2, red());
    let mut with_leftover = triangle_model(FX_ONE / 2, red());
    with_leftover.add_vertex(Vec3::new(25 * FX_ONE, 25 * FX_ONE, 0), blue());
    let mut fb1 = Framebuffer::new(30, 30);
    let mut zb1 = vec![0i64; 30 * 30];
    render_frame(&mut fb1, &mut zb1, &u, &complete.vertices, CLEAR);
    let mut fb2 = Framebuffer::new(30, 30);
    let mut zb2 = vec![0i64; 30 * 30];
    render_frame(&mut fb2, &mut zb2, &u, &with_leftover.vertices, CLEAR);
    assert_eq!(fb1.buffer, fb2.buffer);
    assert_eq!(zb1, zb2);
    assert_eq!(fb2.get_pixel(25, 25), CLEAR);
}

#[test]
fn zero_scale_collapses_the_model_and_paints_nothing() {
    let u = Uniforms::new(Vec3::new(15 * FX_ONE, 15 * FX_ONE, 0), 0, Mat4::identity());
    let model = triangle_model(FX_ONE / 2, red());
    let mut fb = Framebuffer::new(30, 30);
    let mut zb = vec![0i64; 30 * 30];
    render_frame(&mut fb, &mut zb, &u, &model.vertices, CLEAR);
    for y in 0..30usize {
        for x in 0..30usize {
            assert_eq!(fb.get_pixel(x, y), CLEAR);
            assert_eq!(zb[y * 30 + x], DEPTH_FAR);
        }
    }
}

#[test]
fn render_composites_without_clearing() {
    // render itself leaves untouched pixels as they were
    let u = identity_uniforms();
    let model = triangle_model(FX_ONE / 2, red());
    let mut fb = Framebuffer::new(30, 30);
    fb.clear(0x00222222);
    let mut zb = vec![0i64; 30 * 30];
    clear_depth(&mut zb);
    render(&mut fb, &mut zb, &u, &model.vertices);
    assert_eq!(fb.get_pixel(0, 0), 0x00222222);
    assert_eq!(fb.get_pixel(10, 10), 0x00FF0000);
}

#[test]
fn depth_interpolates_between_vertices() {
    // depths 0, ONE, ONE across the triangle: the interior interpolates
    let v0 = screen_vertex(0, 0, 0, red());
    let v1 = screen_vertex(8, 0, FX_ONE, red());
    let v2 = screen_vertex(0, 8, FX_ONE, red());
    let frags = triangle(&v0, &v1, &v2);
    for f in &frags {
        let expected = ((f.x + f.y) as i64) * FX_ONE / 8;
        assert_eq!(f.depth, expected);
        assert!(f.depth >= 0 && f.depth <= FX_ONE);
    }
}

#[test]
fn model_grows_in_insertion_order() {
    let mut m = Model3D::new();
    assert_eq!(m.len(), 0);
    m.add_vertex(Vec3::new(1, 2, 3), red());
    m.add_vertex(Vec3::new(4, 5, 6), blue());
    assert_eq!(m.len(), 2);
    assert_eq!(m.vertices[0].position, Vec3::new(1, 2, 3));
    assert_eq!(m.vertices[1].color, blue());
    assert_eq!(m.vertices[1].transformed_position, Vec3::new(0, 0, 0));
}
