//! A verified interpreter for a small esoteric tape language: a fixed-size,
//! wraparound byte tape driven by single-character instructions, with
//! bracket-delimited loops and simple byte input/output.

pub mod engine;
pub mod input;
pub mod memory;
pub mod source;
