//! Cross-world market trade-volume aggregation.
//!
//! Given the worlds of one data center, an item catalog and a nominated home
//! world, this library reduces per-world sale histories into one
//! lowest-average-price record per item, derives a sale score and a price-diff
//! score for each surviving item, and prepares the rows for a batched,
//! insert-ignore persistence writer.  Prices are kept as exact rationals
//! (total gil over total quantity), so every comparison and score is computed
//! without rounding.
//!
//! Network retrieval and database access are left to the surrounding
//! application; this crate holds the decision logic and proves its contracts.

pub mod average;
pub mod catalog;
pub mod chunk;
pub mod domain;
pub mod errors;
pub mod pipeline;
pub mod reduce;
pub mod request;
pub mod retry;
pub mod score;
pub mod seqs;
pub mod store;
