use softraster::camera::Camera;
use softraster::image::Color;
use softraster::math::{Mat4, Vec4};
use softraster::renderer::{FaceCull, FrontFace, Renderer};
use softraster::shader::{AttributeColorShader, FlatShader, Vertex};

const RED: Color = Color { r: 255, g: 0, b: 0, a: 255 };
const GREEN: Color = Color { r: 0, g: 255, b: 0, a: 255 };
const BACKGROUND: Color = Color { r: 0, g: 0, b: 0, a: 255 };

fn identity_camera(near: i32) -> Camera {
    Camera::new(Mat4::identity(), Mat4::identity(), near)
}

fn flat(w: u32, h: u32, color: Color) -> Renderer<FlatShader> {
    let mut r = Renderer::new(w, h, identity_camera(-1), FlatShader { color });
    r.clear(BACKGROUND);
    r
}

fn vertex(x: i32, y: i32, w: i32) -> Vertex {
    Vertex::new(Vec4::new(x, y, 0, w), vec![0, 0, 0, 0])
}

/// A counter-clockwise triangle with normalized corners (-0.5, -0.5), (0.5, -0.5), (0, 0.5).
fn centered() -> Vec<Vertex> {
    vec![vertex(-1, -1, 2), vertex(1, -1, 2), vertex(0, 1, 2)]
}

fn count(r: &Renderer<FlatShader>, c: Color) -> usize {
    let mut n = 0;
    for y in 0..r.get_canva_height() {
        for x in 0..r.get_canva_width() {
            if r.pixel(x, y) == c {
                n += 1;
            }
        }
    }
    n
}

#[test]
fn single_centered_triangle() {
    let mut r = flat(100, 100, RED);
    r.draw_triangle(&Mat4::identity(), &centered());
    assert_eq!(r.pixel(50, 50), RED);
    assert_eq!(r.pixel(0, 0), BACKGROUND);
    assert_eq!(r.pixel(99, 99), BACKGROUND);
    assert_eq!(r.pixel(50, 20), BACKGROUND);
    assert!(count(&r, RED) > 1000);
    assert_eq!(r.depth_at(50, 50), -512);
}

#[test]
fn back_face_is_culled() {
    let mut r = flat(100, 100, RED);
    r.set_front_face(FrontFace::CCW);
    r.set_face_cull(FaceCull::Back);
    let tri = centered();
    let cw = vec![tri[0].clone_vertex(), tri[2].clone_vertex(), tri[1].clone_vertex()];
    r.draw_triangle(&Mat4::identity(), &cw);
    assert_eq!(count(&r, RED), 0);
    r.draw_triangle(&Mat4::identity(), &tri);
    assert_eq!(r.pixel(50, 50), RED);
}

#[test]
fn nearer_fragment_wins_in_either_order() {
    // The far triangle is the near one scaled by two in clip space: same screen
    // position, view-space depth -4 instead of -2.
    let near_tri = centered();
    let far_tri = vec![vertex(-2, -2, 4), vertex(2, -2, 4), vertex(0, 2, 4)];
    let mut r = flat(100, 100, GREEN);
    r.draw_triangle(&Mat4::identity(), &far_tri);
    assert_eq!(r.pixel(50, 50), GREEN);
    r.set_shader(FlatShader { color: RED });
    r.draw_triangle(&Mat4::identity(), &near_tri);
    assert_eq!(r.pixel(50, 50), RED);

    let mut s = flat(100, 100, RED);
    s.draw_triangle(&Mat4::identity(), &near_tri);
    s.set_shader(FlatShader { color: GREEN });
    s.draw_triangle(&Mat4::identity(), &far_tri);
    assert_eq!(s.pixel(50, 50), RED);
    assert_eq!(s.depth_at(50, 50), -512);
}

#[test]
fn fragments_beyond_near_value_are_rejected() {
    let mut r = Renderer::new(100, 100, identity_camera(-3), FlatShader { color: RED });
    r.clear(BACKGROUND);
    r.draw_triangle(&Mat4::identity(), &centered());
    assert_eq!(count_attr(&r), 0);
}

fn count_attr<S: softraster::shader::Shader>(r: &Renderer<S>) -> usize {
    let img = r.get_rendered_image();
    img.chunks(4).filter(|p| p[0] != 0 || p[1] != 0 || p[2] != 0).count()
}

#[test]
fn perspective_correct_interpolation() {
    // Vertex 0 is near (w = 1) and carries red 0; the others are far (w = 4)
    // and carry red 252. Affine interpolation would give 168 at the centroid;
    // perspective-correct interpolation gives 84.
    let mut r = Renderer::new(101, 101, identity_camera(0), AttributeColorShader {});
    let vs = vec![
        Vertex::new(Vec4::new(0, 1, 0, 1), vec![0, 0, 0, 255]),
        Vertex::new(Vec4::new(-4, -4, 0, 4), vec![252, 0, 0, 255]),
        Vertex::new(Vec4::new(4, -4, 0, 4), vec![252, 0, 0, 255]),
    ];
    r.draw_triangle(&Mat4::identity(), &vs);
    // Screen corners: (50, 0), (0, 100), (100, 100); centroid (50, 66.7).
    let centroid = r.pixel(50, 67);
    assert!(centroid.r > 70 && centroid.r < 100, "got {}", centroid.r);
    // Monotonic from the near vertex to the far edge.
    let mut last = 0u8;
    for y in 5..100 {
        let c = r.pixel(50, y);
        assert!(c.r >= last);
        last = c.r;
    }
}

#[test]
fn constant_attribute_is_kept_exactly() {
    let mut r = Renderer::new(101, 101, identity_camera(0), AttributeColorShader {});
    let vs = vec![
        Vertex::new(Vec4::new(0, 1, 0, 1), vec![200, 17, 3, 255]),
        Vertex::new(Vec4::new(-4, -4, 0, 4), vec![200, 17, 3, 255]),
        Vertex::new(Vec4::new(8, -8, 0, 8), vec![200, 17, 3, 255]),
    ];
    r.draw_triangle(&Mat4::identity(), &vs);
    let mut covered = 0;
    for y in 0..101 {
        for x in 0..101 {
            let c = r.pixel(x, y);
            if c.a != 0 {
                covered += 1;
                assert_eq!(c, Color { r: 200, g: 17, b: 3, a: 255 });
            }
        }
    }
    assert!(covered > 1000);
}

#[test]
fn wireframe_draws_only_edges() {
    let mut r = flat(100, 100, RED);
    r.enable_framework();
    r.draw_triangle(&Mat4::identity(), &centered());
    assert_eq!(r.pixel(50, 50), BACKGROUND);
    assert_eq!(r.pixel(50, 75), RED);
    let edges = count(&r, RED);
    assert!(edges > 50 && edges < 600, "got {}", edges);
    r.disable_framework();
    r.draw_triangle(&Mat4::identity(), &centered());
    assert_eq!(r.pixel(50, 50), RED);
}

#[test]
fn triangle_partly_off_screen() {
    let mut r = flat(100, 100, RED);
    let vs = vec![vertex(-4, -1, 2), vertex(1, -1, 2), vertex(0, 1, 2)];
    r.draw_triangle(&Mat4::identity(), &vs);
    assert_eq!(r.pixel(0, 70), RED);
    assert_eq!(r.pixel(99, 70), BACKGROUND);
}

#[test]
fn empty_draw_changes_nothing() {
    let mut r = flat(20, 20, RED);
    let before = r.get_rendered_image();
    r.draw_triangle(&Mat4::identity(), &[]);
    assert_eq!(r.get_rendered_image(), before);
    r.draw_triangle(&Mat4::identity(), &[vertex(-1, -1, 2), vertex(1, -1, 2)]);
    assert_eq!(r.get_rendered_image(), before);
    assert_eq!(r.depth_at(10, 10), i128::MIN);
}

#[test]
fn trailing_vertices_are_ignored() {
    let mut r = flat(100, 100, RED);
    let mut vs = centered();
    vs.push(vertex(-2, -2, 2));
    r.draw_triangle(&Mat4::identity(), &vs);
    let mut s = flat(100, 100, RED);
    s.draw_triangle(&Mat4::identity(), &centered());
    assert_eq!(r.get_rendered_image(), s.get_rendered_image());
}

#[test]
fn off_screen_triangle_changes_nothing() {
    let mut r = flat(100, 100, RED);
    let before = r.get_rendered_image();
    let vs = vec![vertex(-9, -1, 2), vertex(-5, -1, 2), vertex(-7, 1, 2)];
    r.draw_triangle(&Mat4::identity(), &vs);
    assert_eq!(r.get_rendered_image(), before);
    assert_eq!(r.depth_at(0, 50), i128::MIN);
}

#[test]
fn identity_transforms_map_to_viewport() {
    // Normalized corners (-1, -1), (1, -1), (1, 1) land on screen points
    // (0, 100), (99, 100), (99, 1): the long edge is the line x + y = 100.
    let mut r = flat(100, 100, RED);
    let vs = vec![vertex(-1, -1, 1), vertex(1, -1, 1), vertex(1, 1, 1)];
    r.set_camera(identity_camera(0));
    r.draw_triangle(&Mat4::identity(), &vs);
    assert_eq!(r.pixel(99, 1), RED);
    assert_eq!(r.pixel(99, 99), RED);
    assert_eq!(r.pixel(50, 50), RED);
    assert_eq!(r.pixel(49, 50), BACKGROUND);
    assert_eq!(r.pixel(99, 0), BACKGROUND);
}

#[test]
fn vertex_order_does_not_change_coverage() {
    let tri = centered();
    let orders = [[0, 1, 2], [1, 0, 2], [0, 2, 1], [2, 1, 0], [1, 2, 0], [2, 0, 1]];
    let mut r0 = flat(100, 100, RED);
    r0.draw_triangle(&Mat4::identity(), &tri);
    let expected = r0.get_rendered_image();
    for o in orders.iter() {
        let mut r = flat(100, 100, RED);
        let vs = vec![tri[o[0]].clone_vertex(), tri[o[1]].clone_vertex(), tri[o[2]].clone_vertex()];
        r.draw_triangle(&Mat4::identity(), &vs);
        assert_eq!(r.get_rendered_image(), expected);
    }
}

#[test]
fn front_and_back_culling_are_exclusive() {
    let tri = centered();
    for ff in [FrontFace::CCW, FrontFace::CW] {
        let mut front = flat(100, 100, RED);
        front.set_front_face(ff);
        front.set_face_cull(FaceCull::Front);
        front.draw_triangle(&Mat4::identity(), &tri);
        let mut back = flat(100, 100, RED);
        back.set_front_face(ff);
        back.set_face_cull(FaceCull::Back);
        back.draw_triangle(&Mat4::identity(), &tri);
        assert_ne!(front.pixel(50, 50) == RED, back.pixel(50, 50) == RED);
        assert_eq!(front.get_face_cull(), FaceCull::Front);
        assert_eq!(back.get_front_face(), ff);
    }
}

#[test]
fn draws_are_deterministic() {
    let mut a = flat(64, 64, RED);
    let mut b = flat(64, 64, RED);
    let vs = vec![vertex(-1, -1, 2), vertex(3, -1, 4), vertex(0, 1, 1), vertex(-2, 0, 3), vertex(1, 1, 2), vertex(0, -2, 5)];
    a.draw_triangle(&Mat4::identity(), &vs);
    b.draw_triangle(&Mat4::identity(), &vs);
    assert_eq!(a.get_rendered_image(), b.get_rendered_image());
    for y in 0..64 {
        for x in 0..64 {
            assert_eq!(a.depth_at(x, y), b.depth_at(x, y));
        }
    }
}

#[test]
fn clear_sets_every_pixel() {
    let mut r = flat(7, 5, RED);
    let c = Color::new(1, 2, 3, 4);
    r.clear(c);
    let img = r.get_rendered_image();
    assert_eq!(img.len(), 7 * 5 * 4);
    for p in img.chunks(4) {
        assert_eq!(p, &[1, 2, 3, 4]);
    }
    r.clear_depth();
    assert_eq!(r.depth_at(6, 4), i128::MIN);
}

#[test]
fn new_renderer_state() {
    let r = Renderer::new(3, 2, identity_camera(-1), FlatShader { color: RED });
    assert_eq!(r.get_canva_width(), 3);
    assert_eq!(r.get_canva_height(), 2);
    assert_eq!(r.get_front_face(), FrontFace::CCW);
    assert_eq!(r.get_face_cull(), FaceCull::Disabled);
    assert_eq!(r.get_camera(), identity_camera(-1));
    assert_eq!(r.get_shader().color, RED);
    assert_eq!(r.get_rendered_image(), vec![0u8; 24]);
}

#[test]
fn model_matrix_translates() {
    // Translation by one unit in x (w = 2) moves the triangle right by a quarter screen.
    let t = Mat4::new(
        Vec4::new(2, 0, 0, 1),
        Vec4::new(0, 2, 0, 0),
        Vec4::new(0, 0, 2, 0),
        Vec4::new(0, 0, 0, 2),
    );
    let mut r = flat(100, 100, RED);
    r.draw_triangle(&t, &vec![vertex(-1, -1, 1), vertex(1, -1, 1), vertex(0, 1, 1)]);
    assert_eq!(r.pixel(75, 50), RED);
    assert_eq!(r.pixel(30, 50), BACKGROUND);
}

#[test]
fn edge_on_triangle_is_culled_by_back_only() {
    // In view space the triangle (1, 0, -1), (1, 1, -1), (1, 0, -2) has normal
    // (-1, 0, 0): not degenerate, yet perpendicular to the view direction.
    let projection = Mat4::new(
        Vec4::new(1, 0, 0, 0),
        Vec4::new(0, 1, 0, 0),
        Vec4::new(0, 0, 1, 0),
        Vec4::new(0, 0, -1, 0),
    );
    let camera = Camera::new(Mat4::identity(), projection, 0);
    let vs = vec![
        Vertex::new(Vec4::new(1, 0, -1, 1), vec![]),
        Vertex::new(Vec4::new(1, 1, -1, 1), vec![]),
        Vertex::new(Vec4::new(1, 0, -2, 1), vec![]),
    ];
    for (cull, drawn) in [(FaceCull::Disabled, true), (FaceCull::Front, true), (FaceCull::Back, false)] {
        let mut r = Renderer::new(100, 100, camera, FlatShader { color: RED });
        r.clear(BACKGROUND);
        r.set_face_cull(cull);
        r.draw_triangle(&Mat4::identity(), &vs);
        assert_eq!(r.pixel(95, 45) == RED, drawn);
    }
}

#[test]
fn degenerate_triangle_is_culled_by_neither() {
    // Three collinear points: neither culling mode discards it, and it covers nothing.
    let vs = vec![vertex(-1, -1, 2), vertex(0, 0, 2), vertex(1, 1, 2)];
    for cull in [FaceCull::Front, FaceCull::Back] {
        let mut r = flat(50, 50, RED);
        r.set_face_cull(cull);
        r.draw_triangle(&Mat4::identity(), &vs);
        assert_eq!(count(&r, RED), 0);
    }
}
