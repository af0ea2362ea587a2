//! Core of a sampling CPU profiler: samples, the bounded sample queue,
//! memory-map parsing, symbol resolution and aggregation.
//!
//! Everything here is free of I/O. The caller reads files, talks to the
//! kernel and sleeps; this crate decides what is read next and what the
//! answers mean.

pub mod aggregator;
pub mod cli;
pub mod collector;
pub mod maps;
pub mod report;
pub mod ringbuffer;
pub mod symbols;
pub mod text;
pub mod types;
