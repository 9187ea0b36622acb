//! A small publishing service's core: blog entries with their validation
//! and ordering, a repository that enforces visibility and lifecycle rules,
//! tamper-evident session credentials, and the editor access policy.
pub mod auth;
pub mod model;
pub mod session;
pub mod store;
pub mod utils;
