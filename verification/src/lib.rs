//! Pustaka keeps a personal library of comics and books: it finds the
//! publication files below a directory, files each under the category that
//! its path resembles most, catalogues the new ones, and serves their pages
//! one at a time.
//!
//! This crate is the part that decides. It works on plain values: the
//! entries that walking a directory gave, the names of an archive's entries,
//! the rows of the catalogue. Reading disks and archives, and writing to the
//! catalogue, is left to the program around it.
//!
//! - [`scan`] finds publication files and classifies them.
//! - [`scanner`] runs ingestion stage by stage, and states what holds of
//!   every run.
//! - [`reader`] opens publications and finds their pages, in the archive or
//!   in the cache.
//! - [`unzip`] numbers the entries of an archive and says where each goes.
//! - [`fs`] places and sizes thumbnails.
//! - [`db`] answers questions about the forest of categories.
//! - [`api`] holds the addresses and choices of the interface.
//! - [`models`] and [`config`] hold the rows and the configuration.
//! - [`text`] holds what all of them need of texts and paths.

pub mod api;
pub mod config;
pub mod db;
pub mod fs;
pub mod models;
pub mod reader;
pub mod scan;
pub mod scanner;
pub mod text;
pub mod unzip;
