use vstd::prelude::*;
use ssi::did_resolve::HTTPDIDResolver;
use crate::error::ConfigError;
use crate::iri::{is_iri, parse_iri, iri_error_text};

verus! {

#[verifier::external_type_specification]
pub struct ExHTTPDIDResolver(HTTPDIDResolver);

/// One member of a resolver chain: the injected method registry, or an
/// HTTP(S) resolver taken from the options.
pub enum ResolverRef<'a, R> {
    Registry(&'a R),
    Http(&'a HTTPDIDResolver),
}

/// The configured HTTP(S) resolvers.
pub struct ResolverOptions {
    /// Tried after the registry, for methods that it does not support.
    pub did_resolver: Option<HTTPDIDResolver>,
    /// Tried before everything else, for all methods.
    pub did_resolver_override: Option<HTTPDIDResolver>,
}

/// Resolvers in the order in which they are tried.
pub struct ResolverChain<'a, R> {
    pub resolvers: Vec<ResolverRef<'a, R>>,
}

/// The chain for the given options: the override first, if any, then the
/// registry, then the fallback, if any.
pub open spec fn chain_of<'a, R>(opts: &'a ResolverOptions, registry: &'a R) -> Seq<ResolverRef<'a, R>> {
    let head = match &opts.did_resolver_override {
        Some(o) => seq![ResolverRef::Http(o)],
        None => Seq::empty(),
    };
    let tail = match &opts.did_resolver {
        Some(f) => seq![ResolverRef::Http(f)],
        None => Seq::empty(),
    };
    head + seq![ResolverRef::Registry(registry)] + tail
}

/// Relies on ssi's HTTPDIDResolver::new, which keeps the endpoint it is given.
#[verifier::external_body]
fn http_resolver(endpoint: &str) -> (r: HTTPDIDResolver)
    ensures
        r.endpoint@ == endpoint@,
{
    HTTPDIDResolver::new(endpoint)
}

/// Builds an HTTP(S) resolver for an endpoint, which must be a valid IRI, so
/// that a malformed endpoint is refused while the options are read.
pub fn parse_resolver_endpoint(endpoint: &str) -> (r: Result<HTTPDIDResolver, ConfigError>)
    ensures
        r is Ok <==> is_iri(endpoint@),
        r is Ok ==> r->Ok_0.endpoint@ == endpoint@,
        r matches Err(ConfigError::InvalidResolverEndpoint { endpoint: e, .. }) ==> e@ == endpoint@,
        r is Err ==> r->Err_0 is InvalidResolverEndpoint,
{
    match parse_iri(endpoint) {
        Ok(_) => Ok(http_resolver(endpoint)),
        Err(e) => Err(ConfigError::InvalidResolverEndpoint { endpoint: endpoint.to_string(), cause: iri_error_text(&e) }),
    }
}

impl ResolverOptions {
    /// Composes the registry with the configured HTTP(S) resolvers.
    pub fn to_resolver<'a, R>(&'a self, registry: &'a R) -> (r: ResolverChain<'a, R>)
        ensures
            r.resolvers@ == chain_of(self, registry),
            self.did_resolver is None && self.did_resolver_override is None ==> r.resolvers@
                == seq![ResolverRef::Registry(registry)],
            self.did_resolver is Some && self.did_resolver_override is None ==> r.resolvers@
                == seq![ResolverRef::Registry(registry), ResolverRef::Http(&self.did_resolver->0)],
            self.did_resolver is None && self.did_resolver_override is Some ==> r.resolvers@
                == seq![ResolverRef::Http(&self.did_resolver_override->0), ResolverRef::Registry(registry)],
            self.did_resolver is Some && self.did_resolver_override is Some ==> r.resolvers@ == seq![
                ResolverRef::Http(&self.did_resolver_override->0),
                ResolverRef::Registry(registry),
                ResolverRef::Http(&self.did_resolver->0),
            ],
    {
        let mut resolvers: Vec<ResolverRef<'a, R>> = Vec::new();
        resolvers.push(ResolverRef::Registry(registry));
        if let Some(fallback) = &self.did_resolver {
            resolvers.push(ResolverRef::Http(fallback));
        }
        if let Some(over) = &self.did_resolver_override {
            resolvers.insert(0, ResolverRef::Http(over));
        }
        assert(resolvers@ =~= chain_of(self, registry));
        ResolverChain { resolvers }
    }
}

} // verus!
