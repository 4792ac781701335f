//! Reading, writing and editing PNG-style chunk containers: a signature
//! followed by length-prefixed, CRC-protected chunks.

pub mod error;
pub mod chunk_type;
pub mod checksum;
mod text;
pub mod bytes;
pub mod chunk;
pub mod png;
pub mod ihdr;
pub mod chunk_specs;
pub mod laws;
pub mod commands;
