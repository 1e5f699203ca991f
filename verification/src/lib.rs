//! Verified core of a Google Photos desktop client: the local media cache,
//! synchronisation and retry policies, credential bookkeeping, packaging
//! plans and configuration handling.

pub mod text;
pub mod types;
pub mod datetime;
pub mod pattern;
pub mod cache;
pub mod cache_laws;
pub mod auth;
pub mod auth_laws;
pub mod sync;
pub mod sync_laws;
pub mod packaging;
pub mod packaging_laws;
pub mod config;
pub mod api;
pub mod faces;
pub mod cli;
