use vstd::prelude::*;
use crate::math::Mat4;

verus! {

/// A camera looking down the negative Z axis of view space.
#[derive(Clone, Copy, Debug, PartialEq, Eq, Structural)]
pub struct Camera {
    pub view: Mat4,
    pub projection: Mat4,
    /// Fragments are kept only where the view-space depth is below this value.
    pub near: i32,
}

impl Camera {
    pub fn new(view: Mat4, projection: Mat4, near: i32) -> (c: Camera)
        ensures
            c == (Camera { view, projection, near }),
    {
        Camera { view, projection, near }
    }

    pub fn view_mat(&self) -> (m: Mat4)
        ensures
            m == self.view,
    {
        self.view
    }

    pub fn projection_mat(&self) -> (m: Mat4)
        ensures
            m == self.projection,
    {
        self.projection
    }

    pub fn near(&self) -> (n: i32)
        ensures
            n == self.near,
    {
        self.near
    }
}

} // verus!
