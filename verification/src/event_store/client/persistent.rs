//! The messages about persistent subscriptions.

pub mod create_req;
pub mod update_req;
