//! A one-shot batch migration of article-like records from a relational
//! source into an ordered key-value store, re-keyed by a timestamp derived
//! from each record's publication date.
//!
//! The pipeline has two components in sequence. The extractor turns the
//! rows of the source tables, in table order and row order, into records,
//! parsing each row's date text and substituting a sentinel timestamp when
//! the text is malformed. The loader lays out one store write per record,
//! keyed by the eight little-endian bytes of the record's timestamp, so
//! that a later write to a colliding key replaces the earlier one.

pub mod config;
pub mod datetime;
pub mod extract;
pub mod key;
pub mod load;
pub mod pipeline;
pub mod record;
