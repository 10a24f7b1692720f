//! Planning core of an adaptive-bitrate packaging pipeline.
//!
//! The crate models the processing graph, the stream ports that the
//! demultiplexer exposes at run time, and the life cycle of one run.

pub mod audio;
pub mod branch;
pub mod builder;
pub mod graph;
pub mod router;
pub mod stage;
pub mod stream;
pub mod subtitle;
pub mod supervisor;
pub mod text;
