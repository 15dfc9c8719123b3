//! Builders for a layered DID resolver chain and a JSON-LD context loader.
//!
//! `resolver` orders the configured HTTP(S) resolvers around an injected
//! method registry. `staging` checks and stages the additional context
//! documents one entry at a time, asking its caller to read each file, and
//! `context` merges what was staged with the built-in set into a loader.

pub mod error;
pub mod iri;
pub mod context;
pub mod staging;
pub mod resolver;
