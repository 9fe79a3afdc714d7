//! An in-memory model of a build service's package source store: a
//! content-addressed file store per package, an append-only revision history
//! with per-version-label revision counters, and a branch mechanism that
//! records provenance links between packages.

pub mod auth;
pub mod builds;
pub mod cells;
pub mod codes;
pub mod digest;
pub mod errors;
pub mod laws;
pub mod metaxml;
pub mod monitor;
pub mod ops;
pub mod oscrc;
pub mod package;
pub mod project;
pub mod registry;
pub mod store;
pub mod types;
