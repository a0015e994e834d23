//! The core of a content-aggregation pipeline: a shared token-bucket rate
//! limiter, the bookkeeping of incremental polls (bootstrap or incremental
//! fetch, frontier advance, at-least-once delivery), entries, the filters
//! that an entry passes through and the run of one entry along the filter
//! chain, and the Gelbooru source.
pub mod booru;
pub mod bucket;
pub mod entry;
pub mod filters;
pub mod pipeline;
pub mod sieve;
pub mod text;
pub mod token;
pub mod url;

pub use bucket::AsyncBucket;
pub use entry::{DefaultEntry, Entry, EntryBox};
