//! A microbenchmark library that measures per-operation insertion latency
//! for two set structures (one hash-based, one ordered) under different
//! data distributions and hashing strategies.
//!
//! The library produces a deterministic sample sequence, drives a timed
//! insertion loop with a per-structure time budget, and renders the
//! collected per-insertion durations as newline-delimited decimal text.
//! File input/output is left to the surrounding application.

pub mod config;
pub mod bench;
pub mod clock;
pub mod gen;
pub mod sets;
pub mod writer;
