//! A software 3D rendering pipeline for a small orbital scene: transform
//! stages, a triangle rasterizer with depth testing, procedural per-fragment
//! shading, a framebuffer with bounds-checked writes, and a bloom
//! post-process. All arithmetic is saturating Q47.16 fixed point so that
//! every stage is a total, deterministic function.

pub mod fixed;
pub mod linalg;
pub mod color;
pub mod framebuffer;
pub mod bloom;
pub mod noise;
pub mod shader;
pub mod transform;
pub mod raster;
pub mod render;
