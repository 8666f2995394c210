//! The failure taxonomy of the mirror core.

use vstd::prelude::*;

verus! {

/// What can go wrong, from startup to request handling.
#[derive(Clone, Copy, Debug, PartialEq, Eq, Structural)]
pub enum MirrorError {
    /// Bad or missing TLS material or settings; fatal at startup.
    Configuration,
    /// Network, TLS or HTTP failure, or a malformed response from the
    /// upstream store; fatal during the initial load, retried during the
    /// watch loop.
    Upstream,
    /// A reported leaf key does not fall under the configured prefix, or a
    /// response revision moved backwards: a protocol violation, fatal so the
    /// cache is never silently corrupted.
    Consistency,
    /// The listener cannot bind its address; fatal at startup.
    Bind,
    /// An inbound request lacks or mismatches the bearer token.
    Authentication,
    /// The requested key or resource is absent.
    NotFound,
}

impl MirrorError {
    /// A short description, in place of a `Display` rendering.
    pub fn message(&self) -> (r: &'static str)
        ensures
            *self is Configuration ==> r@ == "configuration error"@,
            *self is Upstream ==> r@ == "upstream error"@,
            *self is Consistency ==> r@ == "consistency error"@,
            *self is Bind ==> r@ == "bind error"@,
            *self is Authentication ==> r@ == "authentication required"@,
            *self is NotFound ==> r@ == "not found"@,
    {
        match self {
            MirrorError::Configuration => "configuration error",
            MirrorError::Upstream => "upstream error",
            MirrorError::Consistency => "consistency error",
            MirrorError::Bind => "bind error",
            MirrorError::Authentication => "authentication required",
            MirrorError::NotFound => "not found",
        }
    }
}

} // verus!
