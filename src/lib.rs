//! Reliable, idempotent, at-least-once newsletter delivery: the decisions of
//! the publish handler, the delivery worker and the idempotency garbage
//! collector, over a model of the relational store they share.

pub mod basic_auth;
pub mod configuration;
pub mod delivery;
pub mod email;
pub mod errors;
pub mod key;
pub mod password;
pub mod publish;
pub mod response;
pub mod store;
pub mod subscriber_email;
pub mod subscriber_name;
pub mod subscriptions;
mod text;
