//! Decoder for MD3 models, the mesh and animation format of the Quake III
//! engine.
//!
//! [`Md3::from_bytes`] decodes the bytes of a file into an [`Md3`], or says
//! with an [`Md3Error`] why it could not. It is a pipeline of four layers.
//! [`Reader`] reads little-endian scalars and fixed-length names at a cursor.
//! The record decoders in [`records`] read one fixed-width record each.
//! [`section`] repeats a record decoder over a section of the file, and
//! [`decode`] follows the offsets of the two kinds of header to assemble the
//! model.
//!
//! What each layer returns is defined in [`format`] as a function of the
//! bytes alone, and every executable function is proved to return exactly
//! that. [`laws`] holds what follows from those definitions for every
//! buffer: that decoding gives back what was written, in the stored order,
//! and that a file cut short fails for want of bytes exactly where a byte
//! that it needs is missing.
//!
//! Nothing but the signature is checked. Counts and offsets are taken as
//! they are stored, and one that points outside the buffer fails the read
//! that follows it, not the decoding of the header that holds it. Floats are
//! not interpreted either: a [`Float32`] holds the bits that were stored.

pub mod decode;
pub mod error;
pub mod format;
pub mod laws;
pub mod layout;
pub mod reader;
pub mod records;
pub mod section;
pub mod types;

pub use error::Md3Error;
pub use reader::Reader;
pub use records::Record;
pub use section::record_count;
pub use types::{
    Float32, Frame, Md3, Md3Header, Shader, Surface, SurfaceHeader, Tag, TexCoord, Triangle, Vec3,
    Vertex,
};
