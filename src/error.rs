use vstd::prelude::*;

verus! {

/// Failures of the two builders. Each one names the offending value.
#[derive(Debug, Clone)]
pub enum ConfigError {
    /// A resolver endpoint is not a valid IRI.
    InvalidResolverEndpoint { endpoint: String, cause: String },
    /// Two additional contexts share this identifier.
    ContextIdentifierCollision { iri: String },
    /// The document body of an additional context could not be read.
    UnreadableContextFile { path: String, cause: String },
    /// The identifier of an additional context is not a valid IRI.
    InvalidContextIri { iri: String, cause: String },
    /// The document body read from this path is not valid JSON.
    InvalidContextDocument { path: String, cause: String },
}

} // verus!
