//! Ingestion: finding publication files and filing them under categories.

pub mod actor;
pub mod error;
