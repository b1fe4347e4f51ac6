//! A PNG decoder: signature and header validation, a checksummed chunk
//! stream, metadata extraction, and scanline defiltering into a canonical
//! four-byte-per-pixel buffer.
pub mod chunk;
pub mod color;
pub mod decode_error;
pub mod filter;
pub mod png;

pub use chunk::{Chunk, ChunkReader};
pub use decode_error::{DecodeError, ErrorKind};
pub use png::{decode_png, DecodedImage, ImageMetadata, PNG};
