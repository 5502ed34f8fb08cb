//! The crate's error taxonomy. Every failure is per target and recoverable:
//! the fan-out layer catches it at the owning pipeline and drops that target
//! from the aggregate, never a sibling.
use vstd::prelude::*;

verus! {

#[derive(Debug)]
pub enum McError {
    /// Malformed or missing connection coordinates for a target.
    Config(String),
    /// The target was unreachable or refused the credentials.
    Connection(String),
    /// Neither the cache nor live discovery could resolve the name.
    ResourceNotFound(String),
    /// The list call itself failed after a successful resolution.
    Request(String),
    /// One cache file could not be read as a resource listing document.
    ParseFailure,
    /// No clusterset with the configured name exists.
    ClustersetNotFound(String),
    /// No context with the given name exists in the connection config.
    ContextNotFound(String),
    /// No server endpoint is recorded for the given cluster.
    EndpointNotFound(String),
    /// A target names neither a cluster nor a context to connect through.
    ClusterUnspecified,
}

} // verus!
