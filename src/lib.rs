//! Four-byte chunk type tags and byte-wise lookup tables for cyclic
//! redundancy checks, as used by chunked binary container formats.
pub mod chunk_type;
pub mod tables;

pub use chunk_type::{ChunkType, ChunkTypeError};
pub use tables::{CrcType, LookupTable};
