//! A minimal, privacy-conscious web visit beacon.
//!
//! One endpoint records a page view: the caller's referer is checked
//! against an allow-list of URL prefixes, the referring URL, visitor,
//! user agent and client IP are each resolved to a stable integer id in
//! a deduplicated dimension table, visitor identity is carried across
//! requests by a long-lived cookie, and the visit is appended as one
//! immutable fact row referencing the four ids.
//!
//! This crate holds the verified core: the authorization gate, the
//! store's tables with their uniqueness invariants, the cookie codec and
//! the request pipeline. Serving HTTP and persisting the tables to disk
//! are the surrounding program's concern; it mirrors every store change
//! this pipeline makes as one atomic statement each against its own
//! relational store.

pub mod auth;
pub mod bytes;
pub mod codec;
pub mod headers;
pub mod laws;
pub mod pipeline;
pub mod store;
