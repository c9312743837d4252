//! Core of a client for the ntfy publish/subscribe notification service:
//! validation, filtering, quiet hours, payload sealing, the message store,
//! the listener state machine and the per-subscription decisions.

pub mod credentials;
pub mod crypto;
pub mod error;
pub mod filters;
pub mod http;
pub mod keys;
pub mod listener;
pub mod message_repo;
pub mod models;
pub mod registry;
pub mod schedule;
pub mod subscription;
pub mod text;
pub mod validation;
pub mod vault;
