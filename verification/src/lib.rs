//! Streaming adapters between the zstd engine and byte sinks and sources.

pub mod compression_writer;
pub mod decompression_reader;
pub mod decompression_writer;
pub mod decompressor;
pub mod engine;
pub mod error;
pub mod io;
pub mod laws;
pub mod pump;
