//! A software 3D rasterizer: scene-graph traversal feeds transformed meshes
//! into a triangle scan-converter with a per-pixel depth test, barycentric
//! attribute interpolation and nearest-neighbour texture sampling.
//!
//! All numeric work is done in signed 16.16 fixed-point arithmetic (`fixed`,
//! `trig`, `geometry`), so every buffer, matrix and weight is pinned down
//! exactly by the contracts.  The `renderer` module owns the colour and depth
//! buffers and the rasterization pipeline; `model`, `texture` and `camera`
//! are the asset and camera stores; `scene` is the node tree and its
//! traversal.  Reading assets from disk, window management and frame
//! presentation live in the surrounding application, which talks to the
//! stores in plain decoded values.

pub mod camera;
pub mod fixed;
pub mod geometry;
pub mod model;
pub mod renderer;
pub mod scene;
pub mod texture;
pub mod trig;
