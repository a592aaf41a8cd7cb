//! A backpressure-aware export pipeline for finished trace spans: sampling,
//! a bounded span buffer, batch assembly, export outcome classification,
//! retry scheduling with backoff, and the controller that ties them together.
//!
//! Everything here is free of I/O: time, random draws and transport outcomes
//! are handed in as plain values by the code that runs the pipeline.

pub mod sampler;
pub mod span;
pub mod buffer;
pub mod batch;
pub mod export;
pub mod retry;
pub mod config;
pub mod controller;
