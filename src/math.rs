use vstd::prelude::*;

verus! {

/// A homogeneous point or direction with integer coordinates.
#[derive(Clone, Copy, Debug, PartialEq, Eq, Structural)]
pub struct Vec4 {
    pub x: i32,
    pub y: i32,
    pub z: i32,
    pub w: i32,
}

/// A 4x4 integer matrix stored as four rows.
#[derive(Clone, Copy, Debug, PartialEq, Eq, Structural)]
pub struct Mat4 {
    pub r0: Vec4,
    pub r1: Vec4,
    pub r2: Vec4,
    pub r3: Vec4,
}

/// Exact dot product of two 4-vectors.
pub open spec fn dot(a: Vec4, b: Vec4) -> int {
    a.x * b.x + a.y * b.y + a.z * b.z + a.w * b.w
}

pub open spec fn fits_i32(v: int) -> bool {
    i32::MIN <= v <= i32::MAX
}

/// The exact product `m * v` is representable with `i32` coordinates.
pub open spec fn mat_vec_fits(m: Mat4, v: Vec4) -> bool {
    &&& fits_i32(dot(m.r0, v))
    &&& fits_i32(dot(m.r1, v))
    &&& fits_i32(dot(m.r2, v))
    &&& fits_i32(dot(m.r3, v))
}

/// The product `m * v`, meaningful when `mat_vec_fits(m, v)`.
pub open spec fn mat_vec(m: Mat4, v: Vec4) -> Vec4 {
    Vec4 {
        x: dot(m.r0, v) as i32,
        y: dot(m.r1, v) as i32,
        z: dot(m.r2, v) as i32,
        w: dot(m.r3, v) as i32,
    }
}

pub open spec fn identity_mat() -> Mat4 {
    Mat4 {
        r0: Vec4 { x: 1, y: 0, z: 0, w: 0 },
        r1: Vec4 { x: 0, y: 1, z: 0, w: 0 },
        r2: Vec4 { x: 0, y: 0, z: 1, w: 0 },
        r3: Vec4 { x: 0, y: 0, z: 0, w: 1 },
    }
}

/// The identity matrix maps every point to itself, without overflow.
pub proof fn lemma_identity_mat_vec(v: Vec4)
    ensures
        mat_vec_fits(identity_mat(), v),
        mat_vec(identity_mat(), v) == v,
{
}

impl Vec4 {
    pub fn new(x: i32, y: i32, z: i32, w: i32) -> (r: Vec4)
        ensures
            r == (Vec4 { x, y, z, w }),
    {
        Vec4 { x, y, z, w }
    }
}

pub open spec fn abs(v: int) -> int {
    if v < 0 { -v } else { v }
}

/// Bounds on the factors bound the product.
pub proof fn lemma_mul_abs_bound(a: int, b: int, ba: int, bb: int)
    requires
        abs(a) <= ba,
        abs(b) <= bb,
    ensures
        abs(a * b) <= ba * bb,
        -(ba * bb) <= a * b <= ba * bb,
{
    assert(abs(a * b) == abs(a) * abs(b)) by (nonlinear_arith);
    assert(abs(a) * abs(b) <= ba * bb) by (nonlinear_arith)
        requires abs(a) <= ba, abs(b) <= bb, 0 <= abs(a), 0 <= abs(b);
}

fn dot_exec(a: &Vec4, b: &Vec4) -> (r: i128)
    ensures
        r == dot(*a, *b),
{
    proof {
        let m: int = 0x8000_0000;
        lemma_mul_abs_bound(a.x as int, b.x as int, m, m);
        lemma_mul_abs_bound(a.y as int, b.y as int, m, m);
        lemma_mul_abs_bound(a.z as int, b.z as int, m, m);
        lemma_mul_abs_bound(a.w as int, b.w as int, m, m);
    }
    let xx = (a.x as i64) * (b.x as i64);
    let yy = (a.y as i64) * (b.y as i64);
    let zz = (a.z as i64) * (b.z as i64);
    let ww = (a.w as i64) * (b.w as i64);
    xx as i128 + yy as i128 + zz as i128 + ww as i128
}

fn narrow(v: i128) -> (r: Option<i32>)
    ensures
        r is Some <==> fits_i32(v as int),
        r is Some ==> r->0 == v,
{
    if i32::MIN as i128 <= v && v <= i32::MAX as i128 {
        Some(v as i32)
    } else {
        None
    }
}

impl Mat4 {
    pub fn new(r0: Vec4, r1: Vec4, r2: Vec4, r3: Vec4) -> (m: Mat4)
        ensures
            m == (Mat4 { r0, r1, r2, r3 }),
    {
        Mat4 { r0, r1, r2, r3 }
    }

    pub fn identity() -> (m: Mat4)
        ensures
            m == identity_mat(),
    {
        Mat4 {
            r0: Vec4 { x: 1, y: 0, z: 0, w: 0 },
            r1: Vec4 { x: 0, y: 1, z: 0, w: 0 },
            r2: Vec4 { x: 0, y: 0, z: 1, w: 0 },
            r3: Vec4 { x: 0, y: 0, z: 0, w: 1 },
        }
    }

    /// Multiplies a point by this matrix; `None` when a coordinate of the
    /// exact product does not fit in `i32`.
    pub fn mul_vec(&self, v: &Vec4) -> (r: Option<Vec4>)
        ensures
            r is Some <==> mat_vec_fits(*self, *v),
            r is Some ==> r->0 == mat_vec(*self, *v),
    {
        let x = narrow(dot_exec(&self.r0, v));
        let y = narrow(dot_exec(&self.r1, v));
        let z = narrow(dot_exec(&self.r2, v));
        let w = narrow(dot_exec(&self.r3, v));
        match (x, y, z, w) {
            (Some(x), Some(y), Some(z), Some(w)) => Some(Vec4 { x, y, z, w }),
            _ => None,
        }
    }
}

} // verus!
