//! Programmatic construction of 3D models: an indexed triangle mesh, the
//! transforms that rewrite it in place, and the rules those transforms obey.
//!
//! Coordinates are IEEE-754 binary32 values held as their bit patterns, so
//! that the exact operations on them (negation, zero tests, equality) are
//! stated and proved here bit for bit.
pub mod deform;
pub mod doc_text;
pub mod error;
pub mod float;
pub mod gltf;
pub mod mirror;
pub mod model;
pub mod obj;
pub mod plugin;
pub mod primitives;
pub mod scale;
pub mod topology;
pub mod types;

pub use error::Error;
pub use mirror::Mirror;
pub use model::{Model, Transform};
pub use plugin::SmoothNormalsPlugin;
pub use primitives::{Cube, Cylinder, Sphere};
pub use types::{Face, Material, Mesh, TextureType, Vec3, Vertex};
