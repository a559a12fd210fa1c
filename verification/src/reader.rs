//! Opening publications and serving their pages.

pub mod cbr;
pub mod comic;
pub mod epub;
pub mod models;
pub mod pdf;
