//! Model files: which are needed, which are missing, and where they are kept;
//! which models the configuration asks for; the embedder as the engine sees
//! it; and the rules that stand in for a language model.

pub mod candle;
pub mod downloader;
pub mod heuristic;
pub mod nomic;
pub mod provider;
