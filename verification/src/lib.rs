//! Chronological renaming of photo files.
//!
//! The library orders photo records by their embedded capture timestamp and
//! builds the prefixed file names that a renaming pass applies, together with
//! the inverse transform that recovers the original names.

pub mod config;
pub mod name;
pub mod order;
pub mod photo;
