//! What the catalogue's interface decides before anything is sent.

pub mod publication;
