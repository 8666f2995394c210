//! The static configuration the core consumes: an immutable, already
//! validated value, parsed and loaded by an outside collaborator.

use vstd::prelude::*;

verus! {

/// Where the upstream store is and how to authenticate to it.
#[derive(Debug)]
pub struct UpstreamSettings {
    /// Path of the CA bundle used to verify the store's certificate.
    pub ca_certificate: String,
    /// Path of the client certificate presented to the store.
    pub certificate: String,
    /// Path of the client private key.
    pub private_key: String,
    /// Host names of the store; the first is used.
    pub server_names: Vec<String>,
    pub server_port: u16,
    /// The key prefix under which this mirror's subtree lives; stripped
    /// from every cached key.
    pub key_prefix: String,
}

/// Where to serve and how clients authenticate.
#[derive(Debug)]
pub struct ServerSettings {
    pub listen_address: String,
    pub listen_port: u16,
    /// The bearer token inbound requests must present, when configured.
    pub authorization_token: Option<String>,
}

/// The whole configuration surface of the core.
#[derive(Debug)]
pub struct Settings {
    pub upstream: UpstreamSettings,
    pub server: ServerSettings,
}

} // verus!
