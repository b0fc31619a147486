//! A room membership transition engine for a federated messaging server.
//!
//! The library decides whether a requested membership change (join, invite,
//! leave, ban, knock) is authorized, applies it to the membership store
//! idempotently, suppresses duplicate publicly-initiated transitions, and
//! propagates profile changes into every room a user is currently joined to.
//! The store keeps at most one membership row per (room, user) pair; every
//! operation is specified and verified against that model.

pub mod error;
pub mod membership;
pub mod store;
pub mod guard;
pub mod policy;
pub mod validator;
pub mod engine;
pub mod profile;
pub mod join;
pub mod versions;
pub mod filter;
