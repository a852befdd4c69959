use vstd::prelude::*;
use crate::image::Color;
use crate::math::Vec4;

verus! {

/// A vertex: a homogeneous position and a flat list of attribute slots.
#[derive(Debug)]
pub struct Vertex {
    pub position: Vec4,
    pub attributes: Vec<i32>,
}

impl Vertex {
    pub fn new(position: Vec4, attributes: Vec<i32>) -> (v: Vertex)
        ensures
            v.position == position,
            v.attributes@ == attributes@,
    {
        Vertex { position, attributes }
    }

    /// A copy of this vertex.
    pub fn clone_vertex(&self) -> (v: Vertex)
        ensures
            v.position == self.position,
            v.attributes@ == self.attributes@,
    {
        Vertex { position: self.position, attributes: self.attributes.clone() }
    }
}

/// A pair of pure shading functions; the uniforms and textures they read
/// are the implementing value's own fields.
pub trait Shader {
    /// What the vertex stage makes of a position and its attributes.
    spec fn spec_vertex(&self, position: Vec4, attributes: Seq<i32>) -> (Vec4, Seq<i32>);

    /// The color the pixel stage gives to interpolated attributes.
    spec fn spec_pixel(&self, attributes: Seq<i32>) -> Color;

    fn vertex(&self, v: &Vertex) -> (r: Vertex)
        ensures
            (r.position, r.attributes@) == self.spec_vertex(v.position, v.attributes@),
    ;

    fn pixel(&self, attributes: &Vec<i32>) -> (c: Color)
        ensures
            c == self.spec_pixel(attributes@),
    ;
}

/// Passes vertices through and paints every fragment one color.
#[derive(Clone, Copy, Debug, PartialEq, Eq, Structural)]
pub struct FlatShader {
    pub color: Color,
}

impl Shader for FlatShader {
    open spec fn spec_vertex(&self, position: Vec4, attributes: Seq<i32>) -> (Vec4, Seq<i32>) {
        (position, attributes)
    }

    open spec fn spec_pixel(&self, attributes: Seq<i32>) -> Color {
        self.color
    }

    fn vertex(&self, v: &Vertex) -> (r: Vertex) {
        Vertex { position: v.position, attributes: v.attributes.clone() }
    }

    fn pixel(&self, attributes: &Vec<i32>) -> (c: Color) {
        self.color
    }
}

/// Channel value of attribute slot `k`: absent slots read as zero, and the
/// value is clamped to `0..=255`.
pub open spec fn channel_of(attributes: Seq<i32>, k: int) -> u8 {
    let v: int = if k < attributes.len() { attributes[k] as int } else { 0 };
    if v < 0 { 0 } else if v > 255 { 255 } else { v as u8 }
}

fn channel(attributes: &Vec<i32>, k: usize) -> (c: u8)
    ensures
        c == channel_of(attributes@, k as int),
{
    let v: i32 = if k < attributes.len() { attributes[k] } else { 0 };
    if v < 0 {
        0
    } else if v > 255 {
        255
    } else {
        v as u8
    }
}

/// Passes vertices through and paints each fragment with attribute slots
/// 0 to 3 as red, green, blue and alpha.
#[derive(Clone, Copy, Debug, PartialEq, Eq, Structural)]
pub struct AttributeColorShader {}

impl Shader for AttributeColorShader {
    open spec fn spec_vertex(&self, position: Vec4, attributes: Seq<i32>) -> (Vec4, Seq<i32>) {
        (position, attributes)
    }

    open spec fn spec_pixel(&self, attributes: Seq<i32>) -> Color {
        Color {
            r: channel_of(attributes, 0),
            g: channel_of(attributes, 1),
            b: channel_of(attributes, 2),
            a: channel_of(attributes, 3),
        }
    }

    fn vertex(&self, v: &Vertex) -> (r: Vertex) {
        Vertex { position: v.position, attributes: v.attributes.clone() }
    }

    fn pixel(&self, attributes: &Vec<i32>) -> (c: Color) {
        Color {
            r: channel(attributes, 0),
            g: channel(attributes, 1),
            b: channel(attributes, 2),
            a: channel(attributes, 3),
        }
    }
}

} // verus!
