//! Keeping a conversation within the context window of its model.
pub mod boundary;
pub mod compressor;
pub mod config;
pub mod state;
pub mod summary;
pub mod token;
pub mod tool_pruning;
