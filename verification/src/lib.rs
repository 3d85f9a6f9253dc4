//! Decision logic of a frame capture pipeline: configuration handling, sink
//! selection, pipe capacity tuning, partial-write bookkeeping and the
//! acquire/deliver loop, each as a verified function on plain values.

pub mod config;
pub mod pipe;
pub mod pipeline;
pub mod sink;
pub mod text;
pub mod trace;

pub use config::get_four_bytes;
