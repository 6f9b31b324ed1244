//! Reads a line-oriented mesh description into an indexed geometry store and
//! derives flat vertex streams, index buffers and triangle clusters from it.
//!
//! Coordinates are carried as the 32-bit patterns of IEEE-754 single precision
//! numbers; the library never does arithmetic on them, it only stores, compares
//! and hands them on.

pub mod bounding;
pub mod distinct;
pub mod error;
pub mod meshlet;
pub mod obj;
pub mod opt;
pub mod parse;
pub mod text;
pub mod vertex;

pub use error::Error;
pub use obj::Face;
pub use obj::MaterialIdent;
pub use obj::ObjObject;
pub use obj::VertexData;
pub use obj::VertexTextureData;
pub use vertex::Vertex;
