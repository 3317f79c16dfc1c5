//! Notification-settings logic: the JSON settings document, bulk updates,
//! task bookkeeping and the batch runner's state.

pub mod error;
pub mod text;
pub mod json;
pub mod notifications;
pub mod tasks;
pub mod members;
pub mod stats;
pub mod batching;
pub mod push;
pub mod invites;
