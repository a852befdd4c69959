use vstd::prelude::*;
use crate::camera::Camera;
use crate::image::{lemma_pixel_index_in_grid, pixel_index, Color, ColorAttachment, DepthAttachment};
use crate::math::{identity_mat, lemma_identity_mat_vec, lemma_mul_abs_bound, mat_vec, mat_vec_fits, Mat4, Vec4};
use crate::raster::{
    bounded_projected, ceil_div, degenerate, degenerate_exec, edge, facing, facing_exec, floor_div, fragment, frag_depth,
    has_fragment, interpolated, project, project_vertex, projectable, ProjTri, Projected,
    screen_x, screen_y, ScreenTriangle, Viewport, DEPTH_SCALE, MAX_DIM, SUBPIXEL,
};
use crate::raster::{floor_div_exec, lemma_constant_attribute, slot, lemma_coverage_symmetric, lemma_edge_antisymmetric, weights, persp_den, ScreenVertex};
use crate::shader::{Shader, Vertex};
use vstd::arithmetic::div_mod::{lemma_fundamental_div_mod, lemma_fundamental_div_mod_converse};

verus! {

/// Which winding, as seen by the camera, marks a triangle's front.
#[derive(Clone, Copy, Debug, PartialEq, Eq, Structural)]
pub enum FrontFace {
    CCW,
    CW,
}

/// Which faces are discarded before rasterization.
#[derive(Clone, Copy, Debug, PartialEq, Eq, Structural)]
pub enum FaceCull {
    Disabled,
    Front,
    Back,
}

/// A triangle whose normal meets the view direction with dot product `f`
/// shows its front: the normal points back towards the camera for the
/// front winding.
pub open spec fn front_facing(front_face: FrontFace, f: int) -> bool {
    match front_face {
        FrontFace::CCW => f < 0,
        FrontFace::CW => f > 0,
    }
}

/// Every triangle that is not degenerate and does not show its front shows
/// its back; an edge-on triangle (`f == 0`) counts as back-facing.
pub open spec fn back_facing(front_face: FrontFace, f: int, degenerate: bool) -> bool {
    !degenerate && !front_facing(front_face, f)
}

/// Whether a triangle is discarded: `f` is the dot product of its normal with
/// the view direction, `degenerate` says that its normal is zero.
pub open spec fn culled(front_face: FrontFace, cull: FaceCull, f: int, degenerate: bool) -> bool {
    match cull {
        FaceCull::Disabled => false,
        FaceCull::Front => !degenerate && front_facing(front_face, f),
        FaceCull::Back => back_facing(front_face, f, degenerate),
    }
}

pub fn should_cull(front_face: FrontFace, cull: FaceCull, f: i128, degenerate: bool) -> (r: bool)
    ensures
        r == culled(front_face, cull, f as int, degenerate),
{
    let front = match front_face {
        FrontFace::CCW => f < 0,
        FrontFace::CW => f > 0,
    };
    match cull {
        FaceCull::Disabled => false,
        FaceCull::Front => !degenerate && front,
        FaceCull::Back => !degenerate && !front,
    }
}

/// Position in view space, `view * (model * p)`, when every step fits in `i32`.
pub open spec fn to_view(camera: Camera, model: Mat4, p: Vec4) -> Option<Vec4> {
    if mat_vec_fits(model, p) && mat_vec_fits(camera.view, mat_vec(model, p)) {
        Some(mat_vec(camera.view, mat_vec(model, p)))
    } else {
        None
    }
}

/// Position in clip space, `projection * v`, when it fits in `i32`.
pub open spec fn to_clip(camera: Camera, v: Vec4) -> Option<Vec4> {
    if mat_vec_fits(camera.projection, v) {
        Some(mat_vec(camera.projection, v))
    } else {
        None
    }
}

/// The pipeline up to the viewport transform for one triangle: vertex
/// shading, model-view transform, face culling, projection, depth
/// substitution and viewport mapping. `None` when the triangle is culled or
/// a position leaves the representable range.
pub open spec fn prepare_spec<S: Shader>(
    shader: S,
    camera: Camera,
    viewport: Viewport,
    front_face: FrontFace,
    cull: FaceCull,
    model: Mat4,
    a: Vertex,
    b: Vertex,
    c: Vertex,
) -> Option<ProjTri> {
    let (pa, aa) = shader.spec_vertex(a.position, a.attributes@);
    let (pb, ab) = shader.spec_vertex(b.position, b.attributes@);
    let (pc, ac) = shader.spec_vertex(c.position, c.attributes@);
    match (to_view(camera, model, pa), to_view(camera, model, pb), to_view(camera, model, pc)) {
        (Some(va), Some(vb), Some(vc)) => {
            if culled(front_face, cull, facing(va, vb, vc), degenerate(va, vb, vc)) {
                None
            } else {
                match (to_clip(camera, va), to_clip(camera, vb), to_clip(camera, vc)) {
                    (Some(ca), Some(cb), Some(cc)) => {
                        if projectable(viewport, ca) && projectable(viewport, cb) && projectable(
                            viewport,
                            cc,
                        ) {
                            Some(
                                ProjTri {
                                    a: project(viewport, ca, aa),
                                    b: project(viewport, cb, ab),
                                    c: project(viewport, cc, ac),
                                },
                            )
                        } else {
                            None
                        }
                    },
                    _ => None,
                }
            }
        },
        _ => None,
    }
}

pub open spec fn min3(a: int, b: int, c: int) -> int {
    if a <= b && a <= c { a } else if b <= c { b } else { c }
}

pub open spec fn max3(a: int, b: int, c: int) -> int {
    if a >= b && a >= c { a } else if b >= c { b } else { c }
}

/// Bounding box of the triangle in whole pixels, `(xmin, ymin, xmax, ymax)`:
/// the fixed-point extremes rounded inward and clamped to a `w` x `h` grid.
pub open spec fn aabb(t: ProjTri, w: int, h: int) -> (int, int, int, int) {
    let xmin = ceil_div(min3(t.a.sx, t.b.sx, t.c.sx), SUBPIXEL as int);
    let ymin = ceil_div(min3(t.a.sy, t.b.sy, t.c.sy), SUBPIXEL as int);
    let xmax = floor_div(max3(t.a.sx, t.b.sx, t.c.sx), SUBPIXEL as int);
    let ymax = floor_div(max3(t.a.sy, t.b.sy, t.c.sy), SUBPIXEL as int);
    (
        if xmin < 0 { 0 } else { xmin },
        if ymin < 0 { 0 } else { ymin },
        if xmax > w - 1 { w - 1 } else { xmax },
        if ymax > h - 1 { h - 1 } else { ymax },
    )
}

pub open spec fn in_aabb(t: ProjTri, w: int, h: int, x: int, y: int) -> bool {
    let (xmin, ymin, xmax, ymax) = aabb(t, w, h);
    xmin <= x <= xmax && ymin <= y <= ymax
}

/// Squared length of the edge `a -> b`.
pub open spec fn len2(a: Projected, b: Projected) -> int {
    (b.sx - a.sx) * (b.sx - a.sx) + (b.sy - a.sy) * (b.sy - a.sy)
}

/// Pixel `(x, y)` lies less than one pixel away from the line through `a` and `b`.
pub open spec fn near_edge(a: Projected, b: Projected, x: int, y: int) -> bool {
    let e = edge(a.sx, a.sy, b.sx, b.sy, x * SUBPIXEL, y * SUBPIXEL);
    e * e < SUBPIXEL * SUBPIXEL * len2(a, b)
}

/// Pixel `(x, y)` belongs to the triangle's outline.
pub open spec fn on_outline(t: ProjTri, x: int, y: int) -> bool {
    near_edge(t.a, t.b, x, y) || near_edge(t.b, t.c, x, y) || near_edge(t.c, t.a, x, y)
}

/// The triangle's fragment at `(x, y)` passes the depth test against `old_depth`
/// and is written; in outline mode only fragments on the outline are.
pub open spec fn writes(
    t: ProjTri,
    near: int,
    outline: bool,
    w: int,
    h: int,
    x: int,
    y: int,
    old_depth: int,
) -> bool {
    &&& in_aabb(t, w, h, x, y)
    &&& has_fragment(t.a, t.b, t.c, x, y)
    &&& frag_depth(t.a, t.b, t.c, x, y) < near * DEPTH_SCALE
    &&& old_depth <= frag_depth(t.a, t.b, t.c, x, y)
    &&& (outline ==> on_outline(t, x, y))
}

/// Colors after rasterizing `t` over `color`, with depths `depth` before it.
pub open spec fn raster_color<S: Shader>(
    shader: S,
    t: ProjTri,
    near: int,
    outline: bool,
    w: int,
    h: int,
    color: Seq<Color>,
    depth: Seq<i128>,
) -> Seq<Color> {
    Seq::new(
        color.len(),
        |i: int|
            if writes(t, near, outline, w, h, i % w, i / w, depth[i] as int) {
                shader.spec_pixel(interpolated(t.a, t.b, t.c, i % w, i / w))
            } else {
                color[i]
            },
    )
}

/// Depths after rasterizing `t` over `depth`.
pub open spec fn raster_depth(
    t: ProjTri,
    near: int,
    outline: bool,
    w: int,
    h: int,
    depth: Seq<i128>,
) -> Seq<i128> {
    Seq::new(
        depth.len(),
        |i: int|
            if writes(t, near, outline, w, h, i % w, i / w, depth[i] as int) {
                frag_depth(t.a, t.b, t.c, i % w, i / w) as i128
            } else {
                depth[i]
            },
    )
}

/// Pixel `i` of a grid `w` wide has been visited by a row-major walk now at `(x, y)`.
pub open spec fn visited(w: int, i: int, x: int, y: int) -> bool {
    i / w < y || (i / w == y && i % w < x)
}

proof fn lemma_index_split(w: int, x: int, y: int)
    requires
        0 <= x < w,
        0 <= y,
    ensures
        (y * w + x) % w == x,
        (y * w + x) / w == y,
{
    lemma_fundamental_div_mod_converse(y * w + x, w, y, x);
}

proof fn lemma_index_unique(w: int, i: int, x: int, y: int)
    requires
        0 <= x < w,
        0 <= y,
        0 <= i,
        i % w == x,
        i / w == y,
    ensures
        i == y * w + x,
{
    lemma_fundamental_div_mod(i, w);
    assert(w * (i / w) == y * w) by (nonlinear_arith)
        requires i / w == y;
}

fn min3_exec(a: i64, b: i64, c: i64) -> (r: i64)
    ensures
        r == min3(a as int, b as int, c as int),
{
    if a <= b && a <= c { a } else if b <= c { b } else { c }
}

fn max3_exec(a: i64, b: i64, c: i64) -> (r: i64)
    ensures
        r == max3(a as int, b as int, c as int),
{
    if a >= b && a >= c { a } else if b >= c { b } else { c }
}

fn len2_exec(a: &ScreenVertex, b: &ScreenVertex) -> (r: i128)
    requires
        bounded_projected(a.model()),
        bounded_projected(b.model()),
    ensures
        r == len2(a.model(), b.model()),
        0 <= r <= 0x8_0000_0000_0000,
{
    let dx: i128 = b.sx as i128 - a.sx as i128;
    let dy: i128 = b.sy as i128 - a.sy as i128;
    proof {
        lemma_mul_abs_bound(dx as int, dx as int, 0x200_0000, 0x200_0000);
        lemma_mul_abs_bound(dy as int, dy as int, 0x200_0000, 0x200_0000);
        assert(0 <= dx * dx && 0 <= dy * dy) by (nonlinear_arith);
    }
    dx * dx + dy * dy
}

fn near_edge_exec(a: &ScreenVertex, b: &ScreenVertex, x: u32, y: u32) -> (r: bool)
    requires
        bounded_projected(a.model()),
        bounded_projected(b.model()),
        x < MAX_DIM,
        y < MAX_DIM,
    ensures
        r == near_edge(a.model(), b.model(), x as int, y as int),
{
    let ux: i128 = b.sx as i128 - a.sx as i128;
    let uy: i128 = b.sy as i128 - a.sy as i128;
    let vx: i128 = (x as i128) * 16 - a.sx as i128;
    let vy: i128 = (y as i128) * 16 - a.sy as i128;
    proof {
        lemma_mul_abs_bound(ux as int, vy as int, 0x200_0000, 0x200_0000);
        lemma_mul_abs_bound(uy as int, vx as int, 0x200_0000, 0x200_0000);
    }
    let e: i128 = ux * vy - uy * vx;
    proof {
        lemma_mul_abs_bound(e as int, e as int, 0x8_0000_0000_0000, 0x8_0000_0000_0000);
    }
    let l = len2_exec(a, b);
    e * e < 256 * l
}

fn on_outline_exec(t: &ScreenTriangle, x: u32, y: u32) -> (r: bool)
    requires
        t.bounded(),
        x < MAX_DIM,
        y < MAX_DIM,
    ensures
        r == on_outline(t.model(), x as int, y as int),
{
    near_edge_exec(&t.a, &t.b, x, y) || near_edge_exec(&t.b, &t.c, x, y) || near_edge_exec(
        &t.c,
        &t.a,
        x,
        y,
    )
}

fn to_view_exec(camera: &Camera, model: &Mat4, p: &Vec4) -> (r: Option<Vec4>)
    ensures
        r == to_view(*camera, *model, *p),
{
    match model.mul_vec(p) {
        Some(m) => camera.view.mul_vec(&m),
        None => None,
    }
}

/// The triangle pipeline: a framebuffer with its depth buffer, a camera, a
/// viewport, a shader and the face-culling and outline settings.
pub struct Renderer<S: Shader> {
    color_attachment: ColorAttachment,
    depth_attachment: DepthAttachment,
    camera: Camera,
    viewport: Viewport,
    shader: S,
    front_face: FrontFace,
    cull: FaceCull,
    enable_framework: bool,
}

impl<S: Shader> Renderer<S> {
    /// The colors of the framebuffer, row by row.
    pub closed spec fn color(&self) -> Seq<Color> {
        self.color_attachment@
    }

    /// The depth buffer, row by row.
    pub closed spec fn depth(&self) -> Seq<i128> {
        self.depth_attachment@
    }

    pub closed spec fn spec_width(&self) -> nat {
        self.color_attachment.spec_width()
    }

    pub closed spec fn spec_height(&self) -> nat {
        self.color_attachment.spec_height()
    }

    pub closed spec fn spec_camera(&self) -> Camera {
        self.camera
    }

    pub closed spec fn spec_viewport(&self) -> Viewport {
        self.viewport
    }

    pub closed spec fn spec_shader(&self) -> S {
        self.shader
    }

    pub closed spec fn spec_front_face(&self) -> FrontFace {
        self.front_face
    }

    pub closed spec fn spec_cull(&self) -> FaceCull {
        self.cull
    }

    pub closed spec fn spec_framework(&self) -> bool {
        self.enable_framework
    }

    pub closed spec fn wf(&self) -> bool {
        &&& self.color_attachment.wf()
        &&& self.depth_attachment.wf()
        &&& self.depth_attachment.spec_width() == self.color_attachment.spec_width()
        &&& self.depth_attachment.spec_height() == self.color_attachment.spec_height()
        &&& self.color_attachment.spec_width() <= MAX_DIM
        &&& self.color_attachment.spec_height() <= MAX_DIM
        &&& self.viewport.wf()
    }

    /// A well-formed renderer holds one color and one depth per pixel.
    pub proof fn lemma_buffer_sizes(&self)
        requires
            self.wf(),
        ensures
            self.color().len() == self.spec_width() * self.spec_height(),
            self.depth().len() == self.spec_width() * self.spec_height(),
    {
    }

    /// The settings other than the two buffers are those of `other`.
    pub open spec fn same_settings(&self, other: &Self) -> bool {
        &&& self.spec_width() == other.spec_width()
        &&& self.spec_height() == other.spec_height()
        &&& self.spec_camera() == other.spec_camera()
        &&& self.spec_viewport() == other.spec_viewport()
        &&& self.spec_shader() == other.spec_shader()
        &&& self.spec_front_face() == other.spec_front_face()
        &&& self.spec_cull() == other.spec_cull()
        &&& self.spec_framework() == other.spec_framework()
    }

    /// A renderer with a `w` x `h` framebuffer of transparent black, a
    /// cleared depth buffer, a viewport covering the framebuffer,
    /// counter-clockwise front faces, no culling and filled triangles.
    /// Both sides are at most `MAX_DIM` so that pixel centers stay within the
    /// fixed-point range in which coverage and interpolation are exact. The
    /// shader is given by the caller: the uniforms and textures it reads are
    /// its own fields.
    pub fn new(w: u32, h: u32, camera: Camera, shader: S) -> (r: Self)
        requires
            w <= MAX_DIM,
            h <= MAX_DIM,
        ensures
            r.wf(),
            r.spec_width() == w,
            r.spec_height() == h,
            r.spec_camera() == camera,
            r.spec_viewport() == (Viewport { x: 0, y: 0, w, h }),
            r.spec_shader() == shader,
            r.spec_front_face() == FrontFace::CCW,
            r.spec_cull() == FaceCull::Disabled,
            !r.spec_framework(),
            r.color().len() == w * h,
            r.depth().len() == w * h,
            forall|i: int| 0 <= i < r.color().len() ==> r.color()[i] == (Color { r: 0, g: 0, b: 0, a: 0 }),
            forall|i: int| 0 <= i < r.depth().len() ==> r.depth()[i] == i128::MIN,
    {
        proof {
            assert(w * h <= 0x4000_0000) by (nonlinear_arith)
                requires w <= 0x8000, h <= 0x8000;
        }
        Renderer {
            color_attachment: ColorAttachment::new(w, h),
            depth_attachment: DepthAttachment::new(w, h),
            camera,
            viewport: Viewport { x: 0, y: 0, w, h },
            shader,
            front_face: FrontFace::CCW,
            cull: FaceCull::Disabled,
            enable_framework: false,
        }
    }

    /// Sets every pixel of the framebuffer to `color`.
    pub fn clear(&mut self, color: Color)
        requires
            old(self).wf(),
        ensures
            final(self).wf(),
            final(self).same_settings(old(self)),
            final(self).depth() == old(self).depth(),
            final(self).color().len() == old(self).color().len(),
            final(self).color().len() == final(self).spec_width() * final(self).spec_height(),
            forall|i: int| 0 <= i < final(self).color().len() ==> final(self).color()[i] == color,
    {
        self.color_attachment.clear(color);
    }

    /// Resets every depth to the smallest value, so that the next fragment at each pixel passes.
    pub fn clear_depth(&mut self)
        requires
            old(self).wf(),
        ensures
            final(self).wf(),
            final(self).same_settings(old(self)),
            final(self).color() == old(self).color(),
            final(self).depth().len() == old(self).depth().len(),
            final(self).depth().len() == final(self).spec_width() * final(self).spec_height(),
            forall|i: int| 0 <= i < final(self).depth().len() ==> final(self).depth()[i] == i128::MIN,
    {
        self.depth_attachment.clear(i128::MIN);
    }

    pub fn get_canva_width(&self) -> (r: u32)
        ensures
            r == self.spec_width(),
    {
        self.color_attachment.width()
    }

    pub fn get_canva_height(&self) -> (r: u32)
        ensures
            r == self.spec_height(),
    {
        self.color_attachment.height()
    }

    /// The framebuffer as RGBA bytes, four per pixel, row by row from the top left.
    pub fn get_rendered_image(&self) -> (r: Vec<u8>)
        requires
            self.wf(),
        ensures
            r@.len() == 4 * self.color().len(),
            r@.len() == 4 * self.spec_width() * self.spec_height(),
            forall|i: int|
                0 <= i < self.color().len() ==> {
                    &&& #[trigger] r@[4 * i] == self.color()[i].r
                    &&& r@[4 * i + 1] == self.color()[i].g
                    &&& r@[4 * i + 2] == self.color()[i].b
                    &&& r@[4 * i + 3] == self.color()[i].a
                },
    {
        let r = self.color_attachment.data();
        proof {
            let (w, h) = (self.spec_width() as int, self.spec_height() as int);
            assert(4 * (w * h) == 4 * w * h) by (nonlinear_arith);
        }
        r
    }

    /// The color of pixel `(x, y)`.
    pub fn pixel(&self, x: u32, y: u32) -> (c: Color)
        requires
            self.wf(),
            x < self.spec_width(),
            y < self.spec_height(),
        ensures
            c == self.color()[pixel_index(self.spec_width() as int, x as int, y as int)],
    {
        self.color_attachment.get(x, y)
    }

    /// The stored depth of pixel `(x, y)`.
    pub fn depth_at(&self, x: u32, y: u32) -> (d: i128)
        requires
            self.wf(),
            x < self.spec_width(),
            y < self.spec_height(),
        ensures
            d == self.depth()[pixel_index(self.spec_width() as int, x as int, y as int)],
    {
        self.depth_attachment.get(x, y)
    }

    /// Draws `vertices` taken three at a time as triangles, in order; trailing
    /// vertices that do not make a whole triangle are ignored.
    ///
    /// All arithmetic is exact, so a triangle is drawn only where its values
    /// fit the fixed-width integers that carry them (see `prepare_spec`): a
    /// triangle is skipped, as a culled one is, when a transformed coordinate
    /// leaves `i32`, when a clip-space `w` is zero or beyond `W_LIMIT`, or
    /// when a screen coordinate lies beyond `SCREEN_LIMIT` subpixels (2^20
    /// pixels) from the origin. Within those bounds the bounding box is
    /// clamped to the framebuffer and nothing outside it is touched.
    ///
    /// In outline mode the outline is drawn inside the triangle: a covered
    /// pixel whose center lies less than one pixel from an edge's line is
    /// written; pixels outside the triangle are not, and a degenerate
    /// triangle draws nothing.
    pub fn draw_triangle(&mut self, model: &Mat4, vertices: &[Vertex])
        requires
            old(self).wf(),
        ensures
            final(self).wf(),
            final(self).same_settings(old(self)),
            (final(self).color(), final(self).depth()) == old(self).after_triangles(
                *model,
                vertices@,
                (vertices@.len() / 3) as nat,
            ),
    {
        let len = vertices.len();
        let n = len / 3;
        let mut i: usize = 0;
        while i < n
            invariant
                self.wf(),
                self.same_settings(old(self)),
                n == vertices@.len() / 3,
                3 * n <= vertices@.len(),
                len == vertices@.len(),
                i <= n,
                (self.color(), self.depth()) == old(self).after_triangles(*model, vertices@, i as nat),
            decreases n - i,
        {
            match self.prepare(model, &vertices[3 * i], &vertices[3 * i + 1], &vertices[3 * i + 2]) {
                Some(t) => {
                    self.rasterize(&t);
                },
                None => {},
            }
            i = i + 1;
        }
    }

    /// The current shader; `set_shader` replaces it.
    pub fn get_shader(&self) -> (r: &S)
        ensures
            *r == self.spec_shader(),
    {
        &self.shader
    }

    pub fn set_shader(&mut self, shader: S)
        requires
            old(self).wf(),
        ensures
            final(self).wf(),
            final(self).spec_shader() == shader,
            final(self).color() == old(self).color(),
            final(self).depth() == old(self).depth(),
            final(self).spec_width() == old(self).spec_width(),
            final(self).spec_height() == old(self).spec_height(),
            final(self).spec_camera() == old(self).spec_camera(),
            final(self).spec_viewport() == old(self).spec_viewport(),
            final(self).spec_front_face() == old(self).spec_front_face(),
            final(self).spec_cull() == old(self).spec_cull(),
            final(self).spec_framework() == old(self).spec_framework(),
    {
        self.shader = shader;
    }

    pub fn set_camera(&mut self, camera: Camera)
        requires
            old(self).wf(),
        ensures
            final(self).wf(),
            final(self).spec_camera() == camera,
            final(self).color() == old(self).color(),
            final(self).depth() == old(self).depth(),
            final(self).spec_width() == old(self).spec_width(),
            final(self).spec_height() == old(self).spec_height(),
            final(self).spec_shader() == old(self).spec_shader(),
            final(self).spec_viewport() == old(self).spec_viewport(),
            final(self).spec_front_face() == old(self).spec_front_face(),
            final(self).spec_cull() == old(self).spec_cull(),
            final(self).spec_framework() == old(self).spec_framework(),
    {
        self.camera = camera;
    }

    pub fn get_camera(&self) -> (r: Camera)
        ensures
            r == self.spec_camera(),
    {
        self.camera
    }

    pub fn set_front_face(&mut self, front_face: FrontFace)
        requires
            old(self).wf(),
        ensures
            final(self).wf(),
            final(self).spec_front_face() == front_face,
            final(self).color() == old(self).color(),
            final(self).depth() == old(self).depth(),
            final(self).spec_width() == old(self).spec_width(),
            final(self).spec_height() == old(self).spec_height(),
            final(self).spec_shader() == old(self).spec_shader(),
            final(self).spec_camera() == old(self).spec_camera(),
            final(self).spec_viewport() == old(self).spec_viewport(),
            final(self).spec_cull() == old(self).spec_cull(),
            final(self).spec_framework() == old(self).spec_framework(),
    {
        self.front_face = front_face;
    }

    pub fn get_front_face(&self) -> (r: FrontFace)
        ensures
            r == self.spec_front_face(),
    {
        self.front_face
    }

    pub fn set_face_cull(&mut self, cull: FaceCull)
        requires
            old(self).wf(),
        ensures
            final(self).wf(),
            final(self).spec_cull() == cull,
            final(self).color() == old(self).color(),
            final(self).depth() == old(self).depth(),
            final(self).spec_width() == old(self).spec_width(),
            final(self).spec_height() == old(self).spec_height(),
            final(self).spec_shader() == old(self).spec_shader(),
            final(self).spec_camera() == old(self).spec_camera(),
            final(self).spec_viewport() == old(self).spec_viewport(),
            final(self).spec_front_face() == old(self).spec_front_face(),
            final(self).spec_framework() == old(self).spec_framework(),
    {
        self.cull = cull;
    }

    pub fn get_face_cull(&self) -> (r: FaceCull)
        ensures
            r == self.spec_cull(),
    {
        self.cull
    }

    /// Switches to drawing triangle outlines: only fragments less than one
    /// pixel from an edge are written, with the same depth test and
    /// perspective-correct attributes as filled triangles.
    pub fn enable_framework(&mut self)
        requires
            old(self).wf(),
        ensures
            final(self).wf(),
            final(self).spec_framework(),
            final(self).color() == old(self).color(),
            final(self).depth() == old(self).depth(),
            final(self).spec_width() == old(self).spec_width(),
            final(self).spec_height() == old(self).spec_height(),
            final(self).spec_shader() == old(self).spec_shader(),
            final(self).spec_camera() == old(self).spec_camera(),
            final(self).spec_viewport() == old(self).spec_viewport(),
            final(self).spec_front_face() == old(self).spec_front_face(),
            final(self).spec_cull() == old(self).spec_cull(),
    {
        self.enable_framework = true;
    }

    /// Switches back to filling triangles.
    pub fn disable_framework(&mut self)
        requires
            old(self).wf(),
        ensures
            final(self).wf(),
            !final(self).spec_framework(),
            final(self).color() == old(self).color(),
            final(self).depth() == old(self).depth(),
            final(self).spec_width() == old(self).spec_width(),
            final(self).spec_height() == old(self).spec_height(),
            final(self).spec_shader() == old(self).spec_shader(),
            final(self).spec_camera() == old(self).spec_camera(),
            final(self).spec_viewport() == old(self).spec_viewport(),
            final(self).spec_front_face() == old(self).spec_front_face(),
            final(self).spec_cull() == old(self).spec_cull(),
    {
        self.enable_framework = false;
    }

    /// Colors and depths after the first `n` triangles of `vertices`, drawn
    /// from this renderer's buffers and settings.
    pub open spec fn after_triangles(&self, model: Mat4, vertices: Seq<Vertex>, n: nat) -> (Seq<Color>, Seq<i128>)
        decreases n,
    {
        if n == 0 {
            (self.color(), self.depth())
        } else {
            let (c, d) = self.after_triangles(model, vertices, (n - 1) as nat);
            let k = 3 * (n - 1);
            match prepare_spec(
                self.spec_shader(),
                self.spec_camera(),
                self.spec_viewport(),
                self.spec_front_face(),
                self.spec_cull(),
                model,
                vertices[k],
                vertices[k + 1],
                vertices[k + 2],
            ) {
                Some(t) => (
                    raster_color(
                        self.spec_shader(),
                        t,
                        self.spec_camera().near as int,
                        self.spec_framework(),
                        self.spec_width() as int,
                        self.spec_height() as int,
                        c,
                        d,
                    ),
                    raster_depth(
                        t,
                        self.spec_camera().near as int,
                        self.spec_framework(),
                        self.spec_width() as int,
                        self.spec_height() as int,
                        d,
                    ),
                ),
                None => (c, d),
            }
        }
    }

    /// Runs one triangle through the stages before rasterization.
    fn prepare(&self, model: &Mat4, a: &Vertex, b: &Vertex, c: &Vertex) -> (r: Option<ScreenTriangle>)
        requires
            self.wf(),
        ensures
            r is Some <==> prepare_spec(
                self.spec_shader(),
                self.spec_camera(),
                self.spec_viewport(),
                self.spec_front_face(),
                self.spec_cull(),
                *model,
                *a,
                *b,
                *c,
            ) is Some,
            r is Some ==> r->0.bounded() && r->0.model() == prepare_spec(
                self.spec_shader(),
                self.spec_camera(),
                self.spec_viewport(),
                self.spec_front_face(),
                self.spec_cull(),
                *model,
                *a,
                *b,
                *c,
            )->0,
    {
        let sa = self.shader.vertex(a);
        let sb = self.shader.vertex(b);
        let sc = self.shader.vertex(c);
        let va = match to_view_exec(&self.camera, model, &sa.position) {
            Some(v) => v,
            None => return None,
        };
        let vb = match to_view_exec(&self.camera, model, &sb.position) {
            Some(v) => v,
            None => return None,
        };
        let vc = match to_view_exec(&self.camera, model, &sc.position) {
            Some(v) => v,
            None => return None,
        };
        if should_cull(
            self.front_face,
            self.cull,
            facing_exec(&va, &vb, &vc),
            degenerate_exec(&va, &vb, &vc),
        ) {
            return None;
        }
        let ca = match self.camera.projection.mul_vec(&va) {
            Some(v) => v,
            None => return None,
        };
        let cb = match self.camera.projection.mul_vec(&vb) {
            Some(v) => v,
            None => return None,
        };
        let cc = match self.camera.projection.mul_vec(&vc) {
            Some(v) => v,
            None => return None,
        };
        let pa = match project_vertex(&self.viewport, &ca, sa.attributes) {
            Some(v) => v,
            None => return None,
        };
        let pb = match project_vertex(&self.viewport, &cb, sb.attributes) {
            Some(v) => v,
            None => return None,
        };
        let pc = match project_vertex(&self.viewport, &cc, sc.attributes) {
            Some(v) => v,
            None => return None,
        };
        Some(ScreenTriangle { a: pa, b: pb, c: pc })
    }

    /// Rasterizes one prepared triangle over the current buffers.
    fn rasterize(&mut self, t: &ScreenTriangle)
        requires
            old(self).wf(),
            t.bounded(),
        ensures
            final(self).wf(),
            final(self).same_settings(old(self)),
            final(self).color() == raster_color(
                old(self).spec_shader(),
                t.model(),
                old(self).spec_camera().near as int,
                old(self).spec_framework(),
                old(self).spec_width() as int,
                old(self).spec_height() as int,
                old(self).color(),
                old(self).depth(),
            ),
            final(self).depth() == raster_depth(
                t.model(),
                old(self).spec_camera().near as int,
                old(self).spec_framework(),
                old(self).spec_width() as int,
                old(self).spec_height() as int,
                old(self).depth(),
            ),
    {
        let ghost tm = t.model();
        let ghost near = self.camera.near as int;
        let ghost outline = self.enable_framework;
        let w = self.color_attachment.width();
        let h = self.color_attachment.height();
        let ghost wi = w as int;
        let ghost hi = h as int;
        let ghost c0 = self.color();
        let ghost d0 = self.depth();
        let ghost cs = raster_color(self.shader, tm, near, outline, wi, hi, c0, d0);
        let ghost ds = raster_depth(tm, near, outline, wi, hi, d0);
        let lo_x = floor_div_exec(-(min3_exec(t.a.sx, t.b.sx, t.c.sx) as i128), 16);
        let lo_y = floor_div_exec(-(min3_exec(t.a.sy, t.b.sy, t.c.sy) as i128), 16);
        let hi_x = floor_div_exec(max3_exec(t.a.sx, t.b.sx, t.c.sx) as i128, 16);
        let hi_y = floor_div_exec(max3_exec(t.a.sy, t.b.sy, t.c.sy) as i128, 16);
        let xmin: i128 = if -lo_x < 0 { 0 } else { -lo_x };
        let ymin: i128 = if -lo_y < 0 { 0 } else { -lo_y };
        let xmax: i128 = if hi_x > w as i128 - 1 { w as i128 - 1 } else { hi_x };
        let ymax: i128 = if hi_y > h as i128 - 1 { h as i128 - 1 } else { hi_y };
        proof {
            assert(aabb(tm, wi, hi) == (xmin as int, ymin as int, xmax as int, ymax as int));
        }
        if xmin > xmax || ymin > ymax {
            proof {
                assert(self.color() =~= cs);
                assert(self.depth() =~= ds);
            }
            return;
        }
        let mut y: i128 = ymin;
        while y <= ymax
            invariant
                self.wf(),
                self.same_settings(old(self)),
                self.color_attachment.spec_width() == wi,
                self.color_attachment.spec_height() == hi,
                self.camera.near == near,
                self.enable_framework == outline,
                self.shader == old(self).shader,
                tm == t.model(),
                t.bounded(),
                aabb(tm, wi, hi) == (xmin as int, ymin as int, xmax as int, ymax as int),
                0 <= xmin <= xmax < wi,
                0 <= ymin <= y <= ymax + 1,
                ymax < hi,
                c0.len() == wi * hi,
                d0.len() == wi * hi,
                cs == raster_color(self.shader, tm, near, outline, wi, hi, c0, d0),
                ds == raster_depth(tm, near, outline, wi, hi, d0),
                forall|i: int| 0 <= i < wi * hi ==> #[trigger] self.color()[i] == if visited(wi, i, xmin as int, y as int) { cs[i] } else { c0[i] },
                forall|i: int| 0 <= i < wi * hi ==> #[trigger] self.depth()[i] == if visited(wi, i, xmin as int, y as int) { ds[i] } else { d0[i] },
            decreases ymax + 1 - y,
        {
            let mut x: i128 = xmin;
            while x <= xmax
                invariant
                    self.wf(),
                    self.same_settings(old(self)),
                    self.color_attachment.spec_width() == wi,
                    self.color_attachment.spec_height() == hi,
                    self.camera.near == near,
                    self.enable_framework == outline,
                    self.shader == old(self).shader,
                    tm == t.model(),
                    t.bounded(),
                    aabb(tm, wi, hi) == (xmin as int, ymin as int, xmax as int, ymax as int),
                    0 <= xmin <= x <= xmax + 1,
                    xmax < wi,
                    0 <= ymin <= y <= ymax,
                    ymax < hi,
                    c0.len() == wi * hi,
                    d0.len() == wi * hi,
                    cs == raster_color(self.shader, tm, near, outline, wi, hi, c0, d0),
                    ds == raster_depth(tm, near, outline, wi, hi, d0),
                    forall|i: int| 0 <= i < wi * hi ==> #[trigger] self.color()[i] == if visited(wi, i, x as int, y as int) { cs[i] } else { c0[i] },
                    forall|i: int| 0 <= i < wi * hi ==> #[trigger] self.depth()[i] == if visited(wi, i, x as int, y as int) { ds[i] } else { d0[i] },
                decreases xmax + 1 - x,
            {
                let xu = x as u32;
                let yu = y as u32;
                let ghost j = pixel_index(wi, x as int, y as int);
                proof {
                    lemma_pixel_index_in_grid(wi, hi, x as int, y as int);
                    lemma_index_split(wi, x as int, y as int);
                }
                let old_depth = self.depth_attachment.get(xu, yu);
                let ghost before_c = self.color();
                let ghost before_d = self.depth();
                let mut written = false;
                match fragment(&t.a, &t.b, &t.c, xu, yu) {
                    Some(frag) => {
                        if frag.depth < (self.camera.near as i128) * DEPTH_SCALE && old_depth
                            <= frag.depth && (!self.enable_framework || on_outline_exec(t, xu, yu)) {
                            let color = self.shader.pixel(&frag.attributes);
                            self.color_attachment.set(xu, yu, color);
                            self.depth_attachment.set(xu, yu, frag.depth);
                            written = true;
                        }
                    },
                    None => {},
                }
                proof {
                    assert(written == writes(tm, near, outline, wi, hi, x as int, y as int, d0[j] as int));
                    assert forall|i: int| 0 <= i < wi * hi implies #[trigger] self.color()[i] == if visited(wi, i, x + 1, y as int) { cs[i] } else { c0[i] } by {
                        if i != j {
                            lemma_fundamental_div_mod(i, wi);
                            if i / wi == y && i % wi == x {
                                lemma_index_unique(wi, i, x as int, y as int);
                            }
                            assert(before_c[i] == self.color()[i]);
                        }
                    }
                    assert forall|i: int| 0 <= i < wi * hi implies #[trigger] self.depth()[i] == if visited(wi, i, x + 1, y as int) { ds[i] } else { d0[i] } by {
                        if i != j {
                            lemma_fundamental_div_mod(i, wi);
                            if i / wi == y && i % wi == x {
                                lemma_index_unique(wi, i, x as int, y as int);
                            }
                            assert(before_d[i] == self.depth()[i]);
                        }
                    }
                }
                x = x + 1;
            }
            proof {
                assert forall|i: int| 0 <= i < wi * hi implies #[trigger] self.color()[i] == if visited(wi, i, xmin as int, y + 1) { cs[i] } else { c0[i] } by {
                    lemma_fundamental_div_mod(i, wi);
                }
                assert forall|i: int| 0 <= i < wi * hi implies #[trigger] self.depth()[i] == if visited(wi, i, xmin as int, y + 1) { ds[i] } else { d0[i] } by {
                    lemma_fundamental_div_mod(i, wi);
                }
            }
            y = y + 1;
        }
        proof {
            assert forall|i: int| 0 <= i < wi * hi implies self.color()[i] == cs[i] by {
                lemma_fundamental_div_mod(i, wi);
            }
            assert forall|i: int| 0 <= i < wi * hi implies self.depth()[i] == ds[i] by {
                lemma_fundamental_div_mod(i, wi);
            }
            assert(self.color() =~= cs);
            assert(self.depth() =~= ds);
        }
    }
}

/// With a fixed front-face winding, a triangle that is not degenerate is
/// discarded by exactly one of front culling and back culling; a degenerate
/// triangle by neither, and no triangle when culling is disabled.
pub proof fn lemma_cull_exclusive(front_face: FrontFace, a: Vec4, b: Vec4, c: Vec4)
    ensures
        !degenerate(a, b, c) ==> culled(
            front_face,
            FaceCull::Front,
            facing(a, b, c),
            degenerate(a, b, c),
        ) != culled(front_face, FaceCull::Back, facing(a, b, c), degenerate(a, b, c)),
        degenerate(a, b, c) ==> !culled(
            front_face,
            FaceCull::Front,
            facing(a, b, c),
            degenerate(a, b, c),
        ) && !culled(front_face, FaceCull::Back, facing(a, b, c), degenerate(a, b, c)),
        !culled(front_face, FaceCull::Disabled, facing(a, b, c), degenerate(a, b, c)),
{
}

/// With identity model, view and projection matrices, a point with `w == 1`
/// reaches the viewport unchanged, and its screen position is the viewport
/// mapping of its own `x` and `y`, in fixed point.
pub proof fn lemma_identity_transforms(camera: Camera, vp: Viewport, p: Vec4)
    requires
        camera.view == identity_mat(),
        camera.projection == identity_mat(),
        p.w == 1,
    ensures
        to_view(camera, identity_mat(), p) == Some(p),
        to_clip(camera, p) == Some(p),
        screen_x(vp, p) == ((p.x + 1) * (vp.w - 1) * SUBPIXEL) / 2 + vp.x * SUBPIXEL,
        screen_y(vp, p) == (vp.h + vp.y) * SUBPIXEL - ((p.y + 1) * (vp.h - 1) * SUBPIXEL) / 2,
{
    lemma_identity_mat_vec(p);
}

/// The triangle lies wholly left of, right of, above or below a `w` x `h` grid.
pub open spec fn off_screen(t: ProjTri, w: int, h: int) -> bool {
    ||| max3(t.a.sx, t.b.sx, t.c.sx) < 0
    ||| min3(t.a.sx, t.b.sx, t.c.sx) > (w - 1) * SUBPIXEL
    ||| max3(t.a.sy, t.b.sy, t.c.sy) < 0
    ||| min3(t.a.sy, t.b.sy, t.c.sy) > (h - 1) * SUBPIXEL
}

/// Rasterizing a triangle that lies wholly off the grid changes neither buffer.
pub proof fn lemma_off_screen_unchanged<S: Shader>(
    shader: S,
    t: ProjTri,
    near: int,
    outline: bool,
    w: int,
    h: int,
    color: Seq<Color>,
    depth: Seq<i128>,
)
    requires
        off_screen(t, w, h),
        color.len() == depth.len(),
    ensures
        raster_color(shader, t, near, outline, w, h, color, depth) == color,
        raster_depth(t, near, outline, w, h, depth) == depth,
{
    let (xmin, ymin, xmax, ymax) = aabb(t, w, h);
    assert(xmin > xmax || ymin > ymax);
    assert(raster_color(shader, t, near, outline, w, h, color, depth) =~= color);
    assert(raster_depth(t, near, outline, w, h, depth) =~= depth);
}

/// The triangle with its first two vertices exchanged.
pub open spec fn swap_ab(t: ProjTri) -> ProjTri {
    ProjTri { a: t.b, b: t.a, c: t.c }
}

/// The triangle with its last two vertices exchanged.
pub open spec fn swap_bc(t: ProjTri) -> ProjTri {
    ProjTri { a: t.a, b: t.c, c: t.b }
}

proof fn lemma_near_edge_symmetric(a: Projected, b: Projected, x: int, y: int)
    ensures
        near_edge(a, b, x, y) == near_edge(b, a, x, y),
{
    let px = x * SUBPIXEL;
    let py = y * SUBPIXEL;
    lemma_edge_antisymmetric(a.sx, a.sy, b.sx, b.sy, px, py);
    let e = edge(a.sx, a.sy, b.sx, b.sy, px, py);
    assert((-e) * (-e) == e * e) by (nonlinear_arith);
    assert(len2(a, b) == len2(b, a)) by (nonlinear_arith);
}

proof fn lemma_fragment_swap(t: ProjTri, u: ProjTri, x: int, y: int)
    requires
        u == swap_ab(t) || u == swap_bc(t),
    ensures
        has_fragment(t.a, t.b, t.c, x, y) == has_fragment(u.a, u.b, u.c, x, y),
        has_fragment(t.a, t.b, t.c, x, y) ==> frag_depth(t.a, t.b, t.c, x, y) == frag_depth(
            u.a,
            u.b,
            u.c,
            x,
            y,
        ),
        on_outline(t, x, y) == on_outline(u, x, y),
{
    let (a, b, c) = (t.a, t.b, t.c);
    lemma_coverage_symmetric(a, b, c, x, y);
    lemma_near_edge_symmetric(a, b, x, y);
    lemma_near_edge_symmetric(b, c, x, y);
    lemma_near_edge_symmetric(c, a, x, y);
    let px = x * SUBPIXEL;
    let py = y * SUBPIXEL;
    lemma_edge_antisymmetric(a.sx, a.sy, b.sx, b.sy, px, py);
    lemma_edge_antisymmetric(b.sx, b.sy, c.sx, c.sy, px, py);
    lemma_edge_antisymmetric(c.sx, c.sy, a.sx, a.sy, px, py);
    lemma_edge_antisymmetric(a.sx, a.sy, b.sx, b.sy, c.sx, c.sy);
    lemma_edge_antisymmetric(a.sx, a.sy, c.sx, c.sy, b.sx, b.sy);
    let (e0, e1, e2, area) = weights(a, b, c, x, y);
    let (f0, f1, f2, farea) = weights(u.a, u.b, u.c, x, y);
    lemma_edge_rotate(a.sx, a.sy, b.sx, b.sy, c.sx, c.sy);
    let d = persp_den(a, b, c, x, y);
    let g = persp_den(u.a, u.b, u.c, x, y);
    if u == swap_ab(t) {
        assert(f0 == -e1 && f1 == -e0 && f2 == -e2 && farea == -area);
        assert(g == -d) by (nonlinear_arith)
            requires d == e0 * b.z * c.z + e1 * a.z * c.z + e2 * a.z * b.z,
                g == f0 * a.z * c.z + f1 * b.z * c.z + f2 * b.z * a.z,
                f0 == -e1, f1 == -e0, f2 == -e2;
        assert(farea * b.z * a.z * c.z * DEPTH_SCALE == -(area * a.z * b.z * c.z * DEPTH_SCALE))
            by (nonlinear_arith) requires farea == -area;
    } else {
        assert(f0 == -e0 && f1 == -e2 && f2 == -e1 && farea == -area);
        assert(g == -d) by (nonlinear_arith)
            requires d == e0 * b.z * c.z + e1 * a.z * c.z + e2 * a.z * b.z,
                g == f0 * c.z * b.z + f1 * a.z * b.z + f2 * a.z * c.z,
                f0 == -e0, f1 == -e2, f2 == -e1;
        assert(farea * a.z * c.z * b.z * DEPTH_SCALE == -(area * a.z * b.z * c.z * DEPTH_SCALE))
            by (nonlinear_arith) requires farea == -area;
    }
}

proof fn lemma_edge_rotate(ax: int, ay: int, bx: int, by: int, cx: int, cy: int)
    ensures
        edge(ax, ay, bx, by, cx, cy) == edge(bx, by, cx, cy, ax, ay),
{
    assert(edge(ax, ay, bx, by, cx, cy) == edge(bx, by, cx, cy, ax, ay)) by (nonlinear_arith);
}

/// Rasterizing a triangle writes the same pixels with the same depths
/// whatever the order of its vertices: exchanging any two leaves the depth
/// buffer that results unchanged.
pub proof fn lemma_vertex_order_depth(
    t: ProjTri,
    near: int,
    outline: bool,
    w: int,
    h: int,
    depth: Seq<i128>,
)
    ensures
        raster_depth(swap_ab(t), near, outline, w, h, depth) == raster_depth(t, near, outline, w, h, depth),
        raster_depth(swap_bc(t), near, outline, w, h, depth) == raster_depth(t, near, outline, w, h, depth),
        forall|x: int, y: int, d: int|
            writes(swap_ab(t), near, outline, w, h, x, y, d) == writes(t, near, outline, w, h, x, y, d),
        forall|x: int, y: int, d: int|
            writes(swap_bc(t), near, outline, w, h, x, y, d) == writes(t, near, outline, w, h, x, y, d),
{
    assert forall|x: int, y: int, d: int|
        writes(swap_ab(t), near, outline, w, h, x, y, d) == writes(t, near, outline, w, h, x, y, d)
        && (writes(t, near, outline, w, h, x, y, d) ==> frag_depth(t.a, t.b, t.c, x, y) == frag_depth(
            t.b,
            t.a,
            t.c,
            x,
            y,
        )) by {
        lemma_fragment_swap(t, swap_ab(t), x, y);
    }
    assert forall|x: int, y: int, d: int|
        writes(swap_bc(t), near, outline, w, h, x, y, d) == writes(t, near, outline, w, h, x, y, d)
        && (writes(t, near, outline, w, h, x, y, d) ==> frag_depth(t.a, t.b, t.c, x, y) == frag_depth(
            t.a,
            t.c,
            t.b,
            x,
            y,
        )) by {
        lemma_fragment_swap(t, swap_bc(t), x, y);
    }
    assert(raster_depth(swap_ab(t), near, outline, w, h, depth) =~= raster_depth(t, near, outline, w, h, depth));
    assert(raster_depth(swap_bc(t), near, outline, w, h, depth) =~= raster_depth(t, near, outline, w, h, depth));
}

/// Every fragment that rasterizing writes receives, in a slot where all three
/// vertices carry the same value `v`, exactly `v`, whatever their depths.
pub proof fn lemma_constant_attribute_written(
    t: ProjTri,
    near: int,
    outline: bool,
    w: int,
    h: int,
    k: int,
    v: i32,
)
    requires
        0 <= k < t.a.attributes.len(),
        slot(t.a.attributes, k) == v,
        slot(t.b.attributes, k) == v,
        slot(t.c.attributes, k) == v,
    ensures
        forall|x: int, y: int, d: int|
            #[trigger] writes(t, near, outline, w, h, x, y, d) ==> interpolated(t.a, t.b, t.c, x, y)[k] == v,
{
    assert forall|x: int, y: int, d: int|
        #[trigger] writes(t, near, outline, w, h, x, y, d) implies interpolated(t.a, t.b, t.c, x, y)[k] == v by {
        lemma_constant_attribute(t.a, t.b, t.c, x, y, k, v);
    }
}

impl<S: Shader> Renderer<S> {
    /// A draw with fewer than three vertices changes neither buffer.
    pub proof fn lemma_empty_draw(&self, model: Mat4, vertices: Seq<Vertex>)
        requires
            vertices.len() < 3,
        ensures
            self.after_triangles(model, vertices, (vertices.len() / 3) as nat) == (self.color(), self.depth()),
    {
    }

    /// A draw of one triangle that lies wholly off the framebuffer after the
    /// viewport transform changes neither buffer.
    pub proof fn lemma_off_screen_draw(&self, model: Mat4, vertices: Seq<Vertex>)
        requires
            vertices.len() == 3,
            self.color().len() == self.depth().len(),
            prepare_spec(
                self.spec_shader(),
                self.spec_camera(),
                self.spec_viewport(),
                self.spec_front_face(),
                self.spec_cull(),
                model,
                vertices[0],
                vertices[1],
                vertices[2],
            ) matches Some(t) && off_screen(t, self.spec_width() as int, self.spec_height() as int),
        ensures
            self.after_triangles(model, vertices, (vertices.len() / 3) as nat) == (self.color(), self.depth()),
    {
        let t = prepare_spec(
            self.spec_shader(),
            self.spec_camera(),
            self.spec_viewport(),
            self.spec_front_face(),
            self.spec_cull(),
            model,
            vertices[0],
            vertices[1],
            vertices[2],
        )->0;
        assert(self.after_triangles(model, vertices, 0) == (self.color(), self.depth()));
        lemma_off_screen_unchanged(
            self.spec_shader(),
            t,
            self.spec_camera().near as int,
            self.spec_framework(),
            self.spec_width() as int,
            self.spec_height() as int,
            self.color(),
            self.depth(),
        );
    }

    /// With culling disabled, the order of a triangle's vertices does not
    /// change the depths a draw leaves: exchanging any two vertices gives the
    /// same depth buffer (the pixels written are the same as well, see
    /// `lemma_vertex_order_depth`).
    pub proof fn lemma_vertex_order_draw(&self, model: Mat4, a: Vertex, b: Vertex, c: Vertex)
        requires
            self.spec_cull() == FaceCull::Disabled,
        ensures
            self.after_triangles(model, seq![b, a, c], 1).1 == self.after_triangles(model, seq![a, b, c], 1).1,
            self.after_triangles(model, seq![a, c, b], 1).1 == self.after_triangles(model, seq![a, b, c], 1).1,
    {
        let p = prepare_spec(
            self.spec_shader(),
            self.spec_camera(),
            self.spec_viewport(),
            self.spec_front_face(),
            self.spec_cull(),
            model,
            a,
            b,
            c,
        );
        let q = prepare_spec(
            self.spec_shader(),
            self.spec_camera(),
            self.spec_viewport(),
            self.spec_front_face(),
            self.spec_cull(),
            model,
            b,
            a,
            c,
        );
        let r = prepare_spec(
            self.spec_shader(),
            self.spec_camera(),
            self.spec_viewport(),
            self.spec_front_face(),
            self.spec_cull(),
            model,
            a,
            c,
            b,
        );
        let s1 = seq![a, b, c];
        let s2 = seq![b, a, c];
        let s3 = seq![a, c, b];
        assert(s1[0] == a && s1[1] == b && s1[2] == c);
        assert(s2[0] == b && s2[1] == a && s2[2] == c);
        assert(s3[0] == a && s3[1] == c && s3[2] == b);
        assert(q is Some <==> p is Some);
        assert(r is Some <==> p is Some);
        if p is Some {
            assert(q->0 == swap_ab(p->0));
            assert(r->0 == swap_bc(p->0));
            lemma_vertex_order_depth(
                p->0,
                self.spec_camera().near as int,
                self.spec_framework(),
                self.spec_width() as int,
                self.spec_height() as int,
                self.depth(),
            );
        }
        assert(self.after_triangles(model, s1, 0) == (self.color(), self.depth()));
        assert(self.after_triangles(model, s2, 0) == (self.color(), self.depth()));
        assert(self.after_triangles(model, s3, 0) == (self.color(), self.depth()));
    }

    /// Drawing is deterministic: two renderers with the same buffers and
    /// settings end with the same buffers after the same draw.
    pub proof fn lemma_draw_deterministic(&self, other: &Self, model: Mat4, vertices: Seq<Vertex>, n: nat)
        requires
            self.color() == other.color(),
            self.depth() == other.depth(),
            self.same_settings(other),
        ensures
            self.after_triangles(model, vertices, n) == other.after_triangles(model, vertices, n),
        decreases n,
    {
        if n > 0 {
            self.lemma_draw_deterministic(other, model, vertices, (n - 1) as nat);
        }
    }
}

} // verus!
