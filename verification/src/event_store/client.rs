//! The messages of the client's side.

pub mod persistent;
