//! Debounced change-orchestration engine for a document-conversion pipeline.
//!
//! The library holds the decision logic of the engine: deriving output paths
//! from a changed path's extension, building the exact command lines for the
//! external converter tools, coalescing raw filesystem events into one logical
//! event per debounce window, growing the watch set when new paths appear,
//! driving the progress indicator's timing model, and tracking when a spawned
//! converter process may be considered complete. All I/O (the watch backend,
//! process spawning, terminal drawing) lives outside, in a thin shell that
//! executes the plans this library computes.

#![verifier::loop_isolation(false)]

pub mod args;
pub mod convert;
pub mod dispatch;
pub mod errors;
pub mod monitor;
pub mod paths;
pub mod process;
pub mod progress;
pub mod text;

pub use crate::args::Args;
pub use crate::dispatch::handle_write;
pub use crate::monitor::Monitor;
pub use crate::progress::Loading;
