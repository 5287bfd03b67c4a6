//! Reading, editing and writing the chunk structure of PNG files.

pub mod bytes;
pub mod chunk;
pub mod chunk_type;
pub mod commands;
pub mod error;
pub mod png;
mod text;

pub use chunk::Chunk;
pub use chunk_type::ChunkType;
pub use commands::{
    execute_command, run, CliArgs, CommandError, CommandType, DecodeArgs, EncodeArgs, Outcome,
    PrintArgs, RemoveArgs,
};
pub use error::Error;
pub use png::Png;
