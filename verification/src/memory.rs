//! Memory: stored notes, their keyword and vector indices, and Markdown parsing.
pub mod bm25;
pub mod indexer;
pub mod store;
pub mod terms;
pub mod types;
pub mod vector;
