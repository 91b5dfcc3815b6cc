//! Vector codec, similarity kernel, rank selection and the retrieval stages.

pub mod agreement;
pub mod binary32;
pub mod bq;
pub mod funnel;
pub mod hamming;
pub mod ident;
pub mod ingestion;
pub mod json;
pub mod matryoshka;
pub mod probe;
pub mod ranking;
pub mod search_stage1;
pub mod search_stage2;
pub mod search_stage3;
