//! Questions about the catalogue that are answered from its rows.

pub mod publication;
