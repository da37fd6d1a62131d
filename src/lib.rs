pub mod chunk;
pub mod chunk_type;
pub mod error;
