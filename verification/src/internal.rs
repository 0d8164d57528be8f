//! What the client keeps to itself.

pub mod commands;
