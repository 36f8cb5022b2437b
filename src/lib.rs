//! A long-lived textual memory of short notes ("bullets") that is scored for
//! relevance per query, updated by versioned merges that fold near-duplicates
//! together, and fed from structured text produced by a language model.

pub mod platform;
pub mod text;
pub mod scan;
pub mod types;
pub mod bullets;
pub mod merge;
pub mod retrieval;
pub mod parse;
pub mod insights;
pub mod prompt;
pub mod curator;
pub mod tools;
pub mod model;
