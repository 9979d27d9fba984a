//! Procedural terrain meshes with verified structure.
//!
//! The library lays a regular grid of sampled heights over a square extent,
//! triangulates it, reorders the triangles and vertices for GPU vertex-cache
//! and vertex-fetch locality through the `meshopt` optimizer, and derives the
//! triangle list a physics backend consumes. Scalars are carried as opaque
//! 32-bit patterns (IEEE 754 binary32 on the host side); everything the
//! library states and proves is about the structure built over them: vertex
//! layout, triangulation, index validity, and preservation of the drawn
//! triangle set across optimization.

pub mod collider;
pub mod grid;
pub mod optimize;
pub mod scalar;
pub mod shade;
pub mod terrain;
pub mod types;
