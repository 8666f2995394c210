//! A read-optimized local mirror of a subtree of a remote hierarchical
//! key-value store, served over an authenticated HTTP API.
//!
//! The crate is organized around a single shared [`cache::Cache`]: the sync
//! engine's decisions (`sync`) fold upstream tree responses (`etcd`) into it
//! through the tree flattener (`flatten`), and the serving layer (`routes`,
//! `handler`) answers reads from it, rendering JSON bodies (`json`,
//! `render`). The blocking work around those decisions — TLS transport,
//! issuing the long-poll, accepting connections — is left to the program
//! embedding the library.

pub mod cache;
pub mod errors;
pub mod etcd;
pub mod flatten;
pub mod handler;
pub mod inventory;
pub mod json;
pub mod render;
pub mod routes;
pub mod settings;
pub mod strutil;
pub mod sync;
