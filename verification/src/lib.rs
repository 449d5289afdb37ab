//! Array-list algorithms written once over a small storage contract, with a
//! fixed-capacity inline storage that never allocates; and line transformers
//! that strip library sources with rules made of regular expressions.

pub mod block_regex;
pub mod compaction;
pub mod error_import;
pub mod laws;
pub mod pattern;
pub mod rules;
pub mod static_vec;
pub mod storage;
pub mod transformer;
