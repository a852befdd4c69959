use vstd::prelude::*;
use crate::math::{abs, lemma_mul_abs_bound, Vec4};
use vstd::arithmetic::div_mod::lemma_fundamental_div_mod_converse;

verus! {

/// Screen positions are kept in fixed point with this many steps per pixel.
pub const SUBPIXEL: i64 = 16;

/// Largest magnitude of a fixed-point screen coordinate that is rasterized.
pub const SCREEN_LIMIT: i64 = 0x100_0000;

/// Largest magnitude of a clip-space `w` that is rasterized.
pub const W_LIMIT: i32 = 0x10_0000;

/// Depth values are stored in fixed point with this many steps per unit.
pub const DEPTH_SCALE: i128 = 256;

/// Largest framebuffer width or height: pixel centers then stay well inside
/// `SCREEN_LIMIT`, which bounds every product in coverage and interpolation.
pub const MAX_DIM: u32 = 0x8000;

/// The screen rectangle that normalized device coordinates map onto.
#[derive(Clone, Copy, Debug, PartialEq, Eq, Structural)]
pub struct Viewport {
    pub x: u32,
    pub y: u32,
    pub w: u32,
    pub h: u32,
}

impl Viewport {
    pub open spec fn wf(&self) -> bool {
        &&& self.x <= MAX_DIM
        &&& self.y <= MAX_DIM
        &&& self.w <= MAX_DIM
        &&& self.h <= MAX_DIM
    }
}

/// Floor division; for a negative divisor both signs are flipped first.
pub open spec fn floor_div(n: int, d: int) -> int {
    if d > 0 { n / d } else { (-n) / (-d) }
}

pub open spec fn ceil_div(n: int, d: int) -> int {
    -floor_div(-n, d)
}

/// Fixed-point screen x of clip position `p`: `(x/w + 1) / 2 * (vp.w - 1) + vp.x`, rounded down.
pub open spec fn screen_x(vp: Viewport, p: Vec4) -> int {
    floor_div((p.x + p.w) * (vp.w - 1) * SUBPIXEL, 2 * p.w) + vp.x * SUBPIXEL
}

/// Fixed-point screen y of clip position `p`: `vp.h - (y/w + 1) / 2 * (vp.h - 1) + vp.y`, rounded up.
pub open spec fn screen_y(vp: Viewport, p: Vec4) -> int {
    (vp.h + vp.y) * SUBPIXEL - floor_div((p.y + p.w) * (vp.h - 1) * SUBPIXEL, 2 * p.w)
}

/// A clip position that the rasterizer can represent exactly.
pub open spec fn projectable(vp: Viewport, p: Vec4) -> bool {
    &&& p.w != 0
    &&& abs(p.w as int) <= W_LIMIT
    &&& abs(screen_x(vp, p)) <= SCREEN_LIMIT
    &&& abs(screen_y(vp, p)) <= SCREEN_LIMIT
}

/// A vertex after the viewport transform, in exact arithmetic.
pub struct Projected {
    pub sx: int,
    pub sy: int,
    /// View-space depth, taken as `-w` of the clip position.
    pub z: int,
    pub attributes: Seq<i32>,
}

pub open spec fn project(vp: Viewport, p: Vec4, attributes: Seq<i32>) -> Projected {
    Projected { sx: screen_x(vp, p), sy: screen_y(vp, p), z: -p.w, attributes }
}

/// A vertex after the viewport transform.
pub struct ScreenVertex {
    pub sx: i64,
    pub sy: i64,
    pub z: i64,
    pub attributes: Vec<i32>,
}

impl ScreenVertex {
    pub open spec fn model(&self) -> Projected {
        Projected {
            sx: self.sx as int,
            sy: self.sy as int,
            z: self.z as int,
            attributes: self.attributes@,
        }
    }
}

pub open spec fn bounded_projected(p: Projected) -> bool {
    &&& abs(p.sx) <= SCREEN_LIMIT
    &&& abs(p.sy) <= SCREEN_LIMIT
    &&& p.z != 0
    &&& abs(p.z) <= W_LIMIT
}

/// A triangle after the viewport transform, in exact arithmetic.
pub struct ProjTri {
    pub a: Projected,
    pub b: Projected,
    pub c: Projected,
}

/// A triangle after the viewport transform.
pub struct ScreenTriangle {
    pub a: ScreenVertex,
    pub b: ScreenVertex,
    pub c: ScreenVertex,
}

impl ScreenTriangle {
    pub open spec fn model(&self) -> ProjTri {
        ProjTri { a: self.a.model(), b: self.b.model(), c: self.c.model() }
    }

    pub open spec fn bounded(&self) -> bool {
        &&& bounded_projected(self.a.model())
        &&& bounded_projected(self.b.model())
        &&& bounded_projected(self.c.model())
    }
}

/// Exact floor division for operands within `i128`.
pub fn floor_div_exec(n: i128, d: i128) -> (q: i128)
    requires
        d != 0,
        n > i128::MIN,
        d > i128::MIN,
    ensures
        q == floor_div(n as int, d as int),
{
    let (nn, dd) = if d > 0 { (n, d) } else { (-n, -d) };
    if nn >= 0 {
        let q = ((nn as u128) / (dd as u128)) as i128;
        proof {
            let t = (nn as u128) / (dd as u128);
            assert(t as int == nn as int / dd as int);
            assert(0 <= t <= nn);
        }
        q
    } else {
        let m: i128 = -nn;
        let t: u128 = ((m as u128) + (dd as u128) - 1) / (dd as u128);
        proof {
            let ti = t as int;
            let mi = m as int;
            let di = dd as int;
            assert(ti == (mi + di - 1) / di);
            assert(di * ti <= mi + di - 1 < di * ti + di) by (nonlinear_arith)
                requires ti == (mi + di - 1) / di, di > 0, mi + di - 1 >= 0;
            assert(ti <= mi) by (nonlinear_arith)
                requires di * ti <= mi + di - 1, di >= 1, ti >= 0, mi >= 1;
            let r = -ti;
            assert(di * r <= nn < di * r + di) by (nonlinear_arith)
                requires r == -ti, di * ti <= mi + di - 1, mi + di - 1 < di * ti + di,
                    mi == -nn;
            assert(r == (nn as int) / di) by (nonlinear_arith)
                requires di * r <= nn < di * r + di, di > 0;
        }
        -(t as i128)
    }
}

/// Reversing an edge negates its weight.
pub proof fn lemma_edge_antisymmetric(ax: int, ay: int, bx: int, by: int, px: int, py: int)
    ensures
        edge(bx, by, ax, ay, px, py) == -edge(ax, ay, bx, by, px, py),
{
    assert(edge(bx, by, ax, ay, px, py) == -edge(ax, ay, bx, by, px, py)) by (nonlinear_arith);
}

/// Coverage does not depend on the order in which a triangle's vertices are given:
/// exchanging any two of them leaves the covered pixels unchanged.
pub proof fn lemma_coverage_symmetric(a: Projected, b: Projected, c: Projected, x: int, y: int)
    ensures
        covers(a, b, c, x, y) == covers(b, a, c, x, y),
        covers(a, b, c, x, y) == covers(a, c, b, x, y),
        covers(a, b, c, x, y) == covers(c, b, a, x, y),
{
    let px = x * SUBPIXEL;
    let py = y * SUBPIXEL;
    lemma_edge_antisymmetric(a.sx, a.sy, b.sx, b.sy, px, py);
    lemma_edge_antisymmetric(b.sx, b.sy, c.sx, c.sy, px, py);
    lemma_edge_antisymmetric(c.sx, c.sy, a.sx, a.sy, px, py);
    lemma_edge_antisymmetric(a.sx, a.sy, b.sx, b.sy, c.sx, c.sy);
    lemma_edge_antisymmetric(b.sx, b.sy, c.sx, c.sy, a.sx, a.sy);
    lemma_edge_antisymmetric(c.sx, c.sy, a.sx, a.sy, b.sx, b.sy);
    assert(edge(a.sx, a.sy, b.sx, b.sy, c.sx, c.sy) == edge(b.sx, b.sy, c.sx, c.sy, a.sx, a.sy))
        by (nonlinear_arith);
    assert(edge(a.sx, a.sy, b.sx, b.sy, c.sx, c.sy) == edge(c.sx, c.sy, a.sx, a.sy, b.sx, b.sy))
        by (nonlinear_arith);
}

proof fn lemma_scale4(v: int, e: int, p: int, q: int)
    ensures
        v * e * p * q == v * (e * p * q),
{
    assert(v * e * p * q == v * (e * p * q)) by (nonlinear_arith);
}

/// Perspective-correct interpolation keeps a constant attribute: where all three
/// vertices carry the value `v` in slot `k`, every fragment receives exactly `v`,
/// whatever the vertices' depths.
pub proof fn lemma_constant_attribute(a: Projected, b: Projected, c: Projected, x: int, y: int, k: int, v: i32)
    requires
        has_fragment(a, b, c, x, y),
        0 <= k < a.attributes.len(),
        slot(a.attributes, k) == v,
        slot(b.attributes, k) == v,
        slot(c.attributes, k) == v,
    ensures
        interp_slot(a, b, c, x, y, k) == v,
        interpolated(a, b, c, x, y)[k] == v,
{
    let (e0, e1, e2, area) = weights(a, b, c, x, y);
    let d = persp_den(a, b, c, x, y);
    let vi = v as int;
    lemma_scale4(vi, e0, b.z, c.z);
    lemma_scale4(vi, e1, a.z, c.z);
    lemma_scale4(vi, e2, a.z, b.z);
    let t0 = e0 * b.z * c.z;
    let t1 = e1 * a.z * c.z;
    let t2 = e2 * a.z * b.z;
    assert(vi * t0 + vi * t1 + vi * t2 == vi * (t0 + t1 + t2)) by (nonlinear_arith);
    if d > 0 {
        lemma_fundamental_div_mod_converse(vi * d, d, vi, 0);
    } else {
        assert(-(vi * d) == vi * (-d)) by (nonlinear_arith);
        lemma_fundamental_div_mod_converse(-(vi * d), -d, vi, 0);
    }
}

fn abs_bounded(v: i128, bound: i128) -> (r: bool)
    requires
        bound > 0,
    ensures
        r == (abs(v as int) <= bound),
{
    -bound <= v && v <= bound
}

/// Maps a clip position to fixed-point screen coordinates; `None` when the
/// position has `w == 0` or falls outside the representable range.
pub fn project_vertex(vp: &Viewport, p: &Vec4, attributes: Vec<i32>) -> (r: Option<ScreenVertex>)
    requires
        vp.wf(),
    ensures
        r is Some <==> projectable(*vp, *p),
        r is Some ==> r->0.model() == project(*vp, *p, attributes@),
        r is Some ==> bounded_projected(r->0.model()),
{
    if p.w == 0 || p.w < -W_LIMIT || p.w > W_LIMIT {
        return None;
    }
    let w2: i128 = 2 * (p.w as i128);
    let vw1: i128 = vp.w as i128 - 1;
    let vh1: i128 = vp.h as i128 - 1;
    let xw: i128 = p.x as i128 + p.w as i128;
    let yw: i128 = p.y as i128 + p.w as i128;
    proof {
        lemma_mul_abs_bound(xw as int, vw1 as int, 0x1_0000_0000, 0x8000);
        lemma_mul_abs_bound(yw as int, vh1 as int, 0x1_0000_0000, 0x8000);
    }
    let px: i128 = xw * vw1;
    let py: i128 = yw * vh1;
    let nx: i128 = px * 16;
    let ny: i128 = py * 16;
    let qx = floor_div_exec(nx, w2);
    let qy = floor_div_exec(ny, w2);
    proof {
        assert(abs(qx as int) <= abs(nx as int)) by (nonlinear_arith)
            requires qx == floor_div(nx as int, w2 as int), w2 != 0, abs(w2 as int) >= 2;
        assert(abs(qy as int) <= abs(ny as int)) by (nonlinear_arith)
            requires qy == floor_div(ny as int, w2 as int), w2 != 0, abs(w2 as int) >= 2;
    }
    let sx: i128 = qx + (vp.x as i128) * 16;
    let sy: i128 = ((vp.h as i128) + (vp.y as i128)) * 16 - qy;
    if !abs_bounded(sx, SCREEN_LIMIT as i128) || !abs_bounded(sy, SCREEN_LIMIT as i128) {
        return None;
    }
    Some(ScreenVertex { sx: sx as i64, sy: sy as i64, z: -(p.w as i64), attributes })
}

/// Twice the signed area of `(a, b, p)`: positive when `p` lies to the left of `a -> b`.
pub open spec fn edge(ax: int, ay: int, bx: int, by: int, px: int, py: int) -> int {
    (bx - ax) * (py - ay) - (by - ay) * (px - ax)
}

/// The z component of the normal `(b - a) x (c - a)`.
pub open spec fn normal_z(a: Vec4, b: Vec4, c: Vec4) -> int {
    edge(a.x as int, a.y as int, b.x as int, b.y as int, c.x as int, c.y as int)
}

/// The x component of the normal `(b - a) x (c - a)`.
pub open spec fn normal_x(a: Vec4, b: Vec4, c: Vec4) -> int {
    (b.y - a.y) * (c.z - a.z) - (b.z - a.z) * (c.y - a.y)
}

/// The y component of the normal `(b - a) x (c - a)`.
pub open spec fn normal_y(a: Vec4, b: Vec4, c: Vec4) -> int {
    (b.z - a.z) * (c.x - a.x) - (b.x - a.x) * (c.z - a.z)
}

/// The triangle has zero area in view space: its normal is the zero vector.
pub open spec fn degenerate(a: Vec4, b: Vec4, c: Vec4) -> bool {
    normal_x(a, b, c) == 0 && normal_y(a, b, c) == 0 && normal_z(a, b, c) == 0
}

pub fn degenerate_exec(a: &Vec4, b: &Vec4, c: &Vec4) -> (r: bool)
    ensures
        r == degenerate(*a, *b, *c),
{
    let ux: i128 = b.x as i128 - a.x as i128;
    let uy: i128 = b.y as i128 - a.y as i128;
    let uz: i128 = b.z as i128 - a.z as i128;
    let vx: i128 = c.x as i128 - a.x as i128;
    let vy: i128 = c.y as i128 - a.y as i128;
    let vz: i128 = c.z as i128 - a.z as i128;
    proof {
        let m: int = 0x1_0000_0000;
        lemma_mul_abs_bound(uy as int, vz as int, m, m);
        lemma_mul_abs_bound(uz as int, vy as int, m, m);
        lemma_mul_abs_bound(uz as int, vx as int, m, m);
        lemma_mul_abs_bound(ux as int, vz as int, m, m);
        lemma_mul_abs_bound(ux as int, vy as int, m, m);
        lemma_mul_abs_bound(uy as int, vx as int, m, m);
    }
    uy * vz - uz * vy == 0 && uz * vx - ux * vz == 0 && ux * vy - uy * vx == 0
}

/// Dot product of the triangle normal with the view direction `-Z`.
pub open spec fn facing(a: Vec4, b: Vec4, c: Vec4) -> int {
    -normal_z(a, b, c)
}

pub fn facing_exec(a: &Vec4, b: &Vec4, c: &Vec4) -> (r: i128)
    ensures
        r == facing(*a, *b, *c),
{
    let ux: i128 = b.x as i128 - a.x as i128;
    let uy: i128 = b.y as i128 - a.y as i128;
    let vx: i128 = c.x as i128 - a.x as i128;
    let vy: i128 = c.y as i128 - a.y as i128;
    proof {
        let m: int = 0x1_0000_0000;
        lemma_mul_abs_bound(ux as int, vy as int, m, m);
        lemma_mul_abs_bound(uy as int, vx as int, m, m);
    }
    -(ux * vy - uy * vx)
}

/// Signed edge weights of pixel `(x, y)` against vertices `a`, `b`, `c`:
/// one per vertex, for the edge facing it, and their sum, twice the triangle's area.
pub open spec fn weights(a: Projected, b: Projected, c: Projected, x: int, y: int) -> (int, int, int, int) {
    let px = x * SUBPIXEL;
    let py = y * SUBPIXEL;
    (
        edge(b.sx, b.sy, c.sx, c.sy, px, py),
        edge(c.sx, c.sy, a.sx, a.sy, px, py),
        edge(a.sx, a.sy, b.sx, b.sy, px, py),
        edge(a.sx, a.sy, b.sx, b.sy, c.sx, c.sy),
    )
}

/// All three barycentric coordinates `e_i / area` are nonnegative.
pub open spec fn inside(e0: int, e1: int, e2: int, area: int) -> bool {
    ||| area > 0 && e0 >= 0 && e1 >= 0 && e2 >= 0
    ||| area < 0 && e0 <= 0 && e1 <= 0 && e2 <= 0
}

/// Pixel `(x, y)` lies inside the triangle or on its boundary; degenerate triangles cover nothing.
pub open spec fn covers(a: Projected, b: Projected, c: Projected, x: int, y: int) -> bool {
    let (e0, e1, e2, area) = weights(a, b, c, x, y);
    inside(e0, e1, e2, area)
}

/// Common denominator of the perspective-correct weights: `area * z0 * z1 * z2 * sum(alpha_i / z_i)`.
pub open spec fn persp_den(a: Projected, b: Projected, c: Projected, x: int, y: int) -> int {
    let (e0, e1, e2, area) = weights(a, b, c, x, y);
    e0 * b.z * c.z + e1 * a.z * c.z + e2 * a.z * b.z
}

/// Interpolated depth `1 / sum(alpha_i / z_i)` in fixed point, rounded down.
pub open spec fn frag_depth(a: Projected, b: Projected, c: Projected, x: int, y: int) -> int {
    let (e0, e1, e2, area) = weights(a, b, c, x, y);
    floor_div(area * a.z * b.z * c.z * DEPTH_SCALE, persp_den(a, b, c, x, y))
}

/// Attribute slot `k`, reading absent slots as zero.
pub open spec fn slot(s: Seq<i32>, k: int) -> int {
    if 0 <= k < s.len() { s[k] as int } else { 0 }
}

/// Perspective-correct value of slot `k`: `sum(a_i * alpha_i / z_i) / sum(alpha_i / z_i)`, rounded down.
pub open spec fn interp_slot(a: Projected, b: Projected, c: Projected, x: int, y: int, k: int) -> int {
    let (e0, e1, e2, area) = weights(a, b, c, x, y);
    floor_div(
        slot(a.attributes, k) * e0 * b.z * c.z + slot(b.attributes, k) * e1 * a.z * c.z
            + slot(c.attributes, k) * e2 * a.z * b.z,
        persp_den(a, b, c, x, y),
    )
}

pub open spec fn clamp_i32(v: int) -> i32 {
    if v < i32::MIN { i32::MIN } else if v > i32::MAX { i32::MAX } else { v as i32 }
}

/// The interpolated attributes, one per slot of the first vertex.
pub open spec fn interpolated(a: Projected, b: Projected, c: Projected, x: int, y: int) -> Seq<i32> {
    Seq::new(a.attributes.len(), |k: int| clamp_i32(interp_slot(a, b, c, x, y, k)))
}

/// Pixel `(x, y)` receives a fragment of the triangle.
pub open spec fn has_fragment(a: Projected, b: Projected, c: Projected, x: int, y: int) -> bool {
    covers(a, b, c, x, y) && persp_den(a, b, c, x, y) != 0
}

fn edge_exec(ax: i64, ay: i64, bx: i64, by: i64, px: i64, py: i64) -> (r: i128)
    requires
        abs(ax as int) <= SCREEN_LIMIT,
        abs(ay as int) <= SCREEN_LIMIT,
        abs(bx as int) <= SCREEN_LIMIT,
        abs(by as int) <= SCREEN_LIMIT,
        abs(px as int) <= SCREEN_LIMIT,
        abs(py as int) <= SCREEN_LIMIT,
    ensures
        r == edge(ax as int, ay as int, bx as int, by as int, px as int, py as int),
        abs(r as int) <= 0x8_0000_0000_0000,
{
    let ux: i128 = bx as i128 - ax as i128;
    let uy: i128 = by as i128 - ay as i128;
    let vx: i128 = px as i128 - ax as i128;
    let vy: i128 = py as i128 - ay as i128;
    proof {
        let m: int = 0x200_0000;
        lemma_mul_abs_bound(ux as int, vy as int, m, m);
        lemma_mul_abs_bound(uy as int, vx as int, m, m);
    }
    ux * vy - uy * vx
}

/// `s * e * z1 * z2` within the bounds of a rasterized fragment.
fn weighted(s: i128, e: i128, z1: i64, z2: i64) -> (r: i128)
    requires
        abs(s as int) <= 0x8000_0000,
        abs(e as int) <= 0x8_0000_0000_0000,
        abs(z1 as int) <= W_LIMIT,
        abs(z2 as int) <= W_LIMIT,
    ensures
        r == s * e * z1 * z2,
        abs(r as int) <= 0x8000_0000 * 0x8_0000_0000_0000 * 0x100_0000_0000,
{
    proof {
        lemma_mul_abs_bound(z1 as int, z2 as int, W_LIMIT as int, W_LIMIT as int);
        lemma_mul_abs_bound(s as int, e as int, 0x8000_0000, 0x8_0000_0000_0000);
        lemma_mul_abs_bound(
            (s * e) as int,
            (z1 * z2) as int,
            (0x8000_0000 * 0x8_0000_0000_0000) as int,
            0x100_0000_0000,
        );
    }
    let zz: i128 = (z1 as i128) * (z2 as i128);
    let se: i128 = s * e;
    proof {
        assert(se * zz == s * e * z1 * z2) by (nonlinear_arith)
            requires se == s * e, zz == z1 * z2;
    }
    se * zz
}

fn clamp_exec(v: i128) -> (r: i32)
    ensures
        r == clamp_i32(v as int),
{
    if v < i32::MIN as i128 {
        i32::MIN
    } else if v > i32::MAX as i128 {
        i32::MAX
    } else {
        v as i32
    }
}

fn slot_exec(s: &Vec<i32>, k: usize) -> (r: i128)
    ensures
        r == slot(s@, k as int),
{
    if k < s.len() { s[k] as i128 } else { 0 }
}

/// What a triangle produces at one pixel.
pub struct Fragment {
    /// Fixed-point view-space depth.
    pub depth: i128,
    pub attributes: Vec<i32>,
}

/// The fragment of triangle `(a, b, c)` at pixel `(x, y)`: its fixed-point
/// depth and perspective-correct attributes, or `None` where there is none.
pub fn fragment(a: &ScreenVertex, b: &ScreenVertex, c: &ScreenVertex, x: u32, y: u32) -> (r: Option<Fragment>)
    requires
        bounded_projected(a.model()),
        bounded_projected(b.model()),
        bounded_projected(c.model()),
        x < MAX_DIM,
        y < MAX_DIM,
    ensures
        r is Some <==> has_fragment(a.model(), b.model(), c.model(), x as int, y as int),
        r is Some ==> r->0.depth == frag_depth(a.model(), b.model(), c.model(), x as int, y as int),
        r is Some ==> r->0.attributes@ == interpolated(a.model(), b.model(), c.model(), x as int, y as int),
{
    let ghost (am, bm, cm) = (a.model(), b.model(), c.model());
    let px: i64 = (x as i64) * 16;
    let py: i64 = (y as i64) * 16;
    let e0 = edge_exec(b.sx, b.sy, c.sx, c.sy, px, py);
    let e1 = edge_exec(c.sx, c.sy, a.sx, a.sy, px, py);
    let e2 = edge_exec(a.sx, a.sy, b.sx, b.sy, px, py);
    let area = edge_exec(a.sx, a.sy, b.sx, b.sy, c.sx, c.sy);
    let ins = (area > 0 && e0 >= 0 && e1 >= 0 && e2 >= 0) || (area < 0 && e0 <= 0 && e1 <= 0
        && e2 <= 0);
    if !ins {
        return None;
    }
    let d0 = weighted(1, e0, b.z, c.z);
    let d1 = weighted(1, e1, a.z, c.z);
    let d2 = weighted(1, e2, a.z, b.z);
    let den: i128 = d0 + d1 + d2;
    proof {
        assert(den == persp_den(am, bm, cm, x as int, y as int));
    }
    if den == 0 {
        return None;
    }
    let ghost zzz: int = a.z * b.z * c.z;
    proof {
        lemma_mul_abs_bound(a.z as int, b.z as int, W_LIMIT as int, W_LIMIT as int);
        lemma_mul_abs_bound((a.z * b.z) as int, c.z as int, 0x100_0000_0000, W_LIMIT as int);
        lemma_mul_abs_bound(area as int, zzz, 0x8_0000_0000_0000, 0x1000_0000_0000_0000);
    }
    let zz: i128 = (a.z as i128) * (b.z as i128);
    let z3: i128 = zz * (c.z as i128);
    let num: i128 = area * z3;
    proof {
        assert(num == area * zzz) by (nonlinear_arith)
            requires num == area * z3, z3 == zz * c.z, zz == a.z * b.z, zzz == a.z * b.z * c.z;
        assert(area * zzz == area * a.z * b.z * c.z) by (nonlinear_arith)
            requires zzz == a.z * b.z * c.z;
    }
    let depth = floor_div_exec(num * DEPTH_SCALE, den);
    let n = a.attributes.len();
    let mut out: Vec<i32> = Vec::new();
    let mut k: usize = 0;
    while k < n
        invariant
            n == am.attributes.len(),
            k <= n,
            am == a.model(),
            bm == b.model(),
            cm == c.model(),
            bounded_projected(am),
            bounded_projected(bm),
            bounded_projected(cm),
            e0 == weights(am, bm, cm, x as int, y as int).0,
            e1 == weights(am, bm, cm, x as int, y as int).1,
            e2 == weights(am, bm, cm, x as int, y as int).2,
            abs(e0 as int) <= 0x8_0000_0000_0000,
            abs(e1 as int) <= 0x8_0000_0000_0000,
            abs(e2 as int) <= 0x8_0000_0000_0000,
            den == persp_den(am, bm, cm, x as int, y as int),
            den != 0,
            den > i128::MIN,
            out@.len() == k,
            forall|j: int| 0 <= j < k ==> out@[j] == clamp_i32(interp_slot(am, bm, cm, x as int, y as int, j)),
        decreases n - k,
    {
        let s0 = slot_exec(&a.attributes, k);
        let s1 = slot_exec(&b.attributes, k);
        let s2 = slot_exec(&c.attributes, k);
        let t0 = weighted(s0, e0, b.z, c.z);
        let t1 = weighted(s1, e1, a.z, c.z);
        let t2 = weighted(s2, e2, a.z, b.z);
        let v = floor_div_exec(t0 + t1 + t2, den);
        out.push(clamp_exec(v));
        k = k + 1;
    }
    proof {
        assert(out@ =~= interpolated(am, bm, cm, x as int, y as int));
    }
    Some(Fragment { depth, attributes: out })
}

} // verus!
