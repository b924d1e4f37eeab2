//! Bounded streaming subprocess execution and aggregation engine.
//!
//! The library is the pure core of a tool server that launches a
//! long-running agent process, drains its two output streams under strict
//! byte budgets, interprets the newline-delimited JSON event protocol on
//! the primary stream, and folds everything into one structured result.
//! Process handling, stream I/O, configuration loading and the deadline
//! timer live outside the library and drive these verified functions on
//! plain byte values.
//!
//! - [`reader`]: the bounded line reader, fed chunk by chunk.
//! - [`events`]: parsing one event line into plain fields.
//! - [`drain`]: the two drain loops and their laws.
//! - [`codex`]: the request and result types, result-level operations,
//!   final validation, and the whole-run aggregation pipeline.
//! - [`argv`]: the child-process argument vector.
//! - [`supplement`]: clipping of the supplementary instructions file.

pub mod argv;
pub mod codex;
pub mod drain;
pub mod events;
pub mod msgs;
pub mod reader;
pub mod supplement;
pub mod text;
