//! The messages that the client and the server exchange.

pub mod client;
