//! A validated, mutable in-memory model of the chunk structure of a PNG file,
//! made to hide messages in a file and to find them again.
//!
//! The model has three layers. [`ChunkType`] is the four-byte code that
//! classifies a chunk. [`Chunk`] pairs such a code with opaque data under a
//! length prefix and a CRC-32 checksum. [`Png`] owns an ordered sequence of
//! chunks behind the fixed eight-byte signature.
//!
//! Around the model stand the byte layout of a chunk ([`frame`]), the
//! checksum ([`checksum`]), what is shown to a reader ([`text`]), and the
//! commands that work on the bytes of an image ([`commands`]).

pub mod checksum;
pub mod chunk;
pub mod chunk_type;
pub mod commands;
pub mod error;
pub mod frame;
pub mod input;
pub mod png;
pub mod text;

pub use chunk::{Chunk, ChunkView};
pub use chunk_type::ChunkType;
pub use error::PngError;
pub use input::InputImage;
pub use png::Png;
