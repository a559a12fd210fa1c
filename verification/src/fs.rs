//! Where files of the library's own making are kept.

pub mod thumbnail;
