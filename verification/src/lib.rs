//! Core of a URL-shortening service: link lifecycle (create, fetch, update),
//! best-effort click recording, statistics aggregation, and the redirect
//! decision path, each with a verified contract.

pub mod errors;
pub mod idgen;
pub mod routes;
pub mod store;
pub mod urls;
