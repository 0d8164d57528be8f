//! Finding the node of a cluster that a client should connect to.

pub mod candidates;
pub mod cluster;
pub mod gossip;
pub mod json;
pub mod member;
pub mod random;
pub mod run;
pub mod selection;
