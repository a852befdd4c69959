//! A software triangle rasterizer with exact integer arithmetic: vertex
//! shading, model-view-projection transforms, face culling, a fixed-point
//! viewport transform, bounding-box traversal with edge functions,
//! perspective-correct attribute interpolation and a depth test.

pub mod camera;
pub mod image;
pub mod math;
pub mod raster;
pub mod renderer;
pub mod shader;
