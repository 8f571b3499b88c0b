//! Binary STL decoding into an indexed triangle mesh.
//!
//! A byte stream is read facet by facet, every vertex value is reduced to one
//! canonical index, and the result is a mesh whose facets refer to a shared
//! vertex table.

pub mod decoder;
pub mod facet;
pub mod mesh;
pub mod stl;
pub mod vector;
pub mod vertex_map;

pub use decoder::{BinaryDecoder, DecodeError};
pub use facet::{Facet, StlFacet};
pub use mesh::{Mesh, MeshView};
pub use vector::Vector3D;
pub use vertex_map::VertexMap;
