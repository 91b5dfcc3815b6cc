//! Verified core of a local semantic-memory engine: the binary-quantization
//! codec, the Hamming kernel, rank selection, the three retrieval stages and
//! the funnel that chains them, together with the storage and configuration
//! rules they rely on.
//!
//! Single-precision numbers are handled here by their IEEE 754 bit patterns
//! (`u32`); conversion from and to machine floats is left to callers.

pub mod config;
pub mod diagnostics;
pub mod engine;
pub mod error;
pub mod mcp;
pub mod model;
pub mod storage;
pub mod text;
