//! Reading, editing and writing the chunk layer of PNG files.

pub mod chunk;
pub mod chunk_type;
pub mod commands;
pub mod conversions;
pub mod png;
