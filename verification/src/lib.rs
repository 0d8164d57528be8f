//! Client-side building blocks for an event-store cluster: the rules by which a
//! client finds the node it should connect to, and the plain descriptions of
//! the commands it sends.

pub mod address;
pub mod commands;
pub mod discovery;
pub mod event_store;
pub mod internal;
pub mod text;
pub mod types;
