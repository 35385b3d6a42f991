//! A minimal software rasterizer: triangle meshes are turned into a 2D
//! color buffer entirely on the CPU.
//!
//! The crate holds the rasterization engine — the pixel and depth buffer
//! with line and triangle drawing ([`renderer`]), exact barycentric
//! coordinates, integer vector algebra ([`math`]), packed RGBA colors
//! ([`color`]), texture sampling by fixed-point UV coordinates
//! ([`texture`]), and mesh construction with bit-exact vertex
//! deduplication ([`model`]).
//!
//! Every drawing operation is specified as a pure transition function on
//! the renderer's mathematical view, so properties such as the endpoint
//! symmetry of line drawing and the strictness of the depth test are
//! theorems, not conventions.

pub mod color;
pub mod math;
pub mod model;
pub mod renderer;
pub mod texture;

pub use color::Color;
pub use model::Model;
pub use model::Vertex;
pub use renderer::Renderer;
pub use texture::Texture;
