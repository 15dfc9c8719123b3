use vstd::prelude::*;
use iref::Iri;
use json::JsonValue;
use json_ld::RemoteDocument;
use ssi::jsonld::StaticLoader;
use crate::error::ConfigError;
use crate::iri::{is_iri, parse_iri, iri_error_text};
use crate::staging::{ContextStaging, StagedContext, pairs_of, read_from, lemma_complete_staging_has_distinct_ids};

verus! {

/// One additional context: its identifier and the local file that holds its
/// document body.
#[derive(Debug, Clone)]
pub struct ContextLoaderEntry {
    pub iri: String,
    pub doc_body_file_path: String,
}

/// The additional contexts, in the order in which they were declared.
#[derive(Debug, Clone)]
pub struct AdditionalContexts(pub Vec<ContextLoaderEntry>);

/// What the context loader is built from.
#[derive(Debug, Clone)]
pub struct ContextLoaderOptions {
    /// Start from no context documents instead of the built-in set.
    pub disable_default_contexts: bool,
    /// Context documents to add, read from local files.
    pub additional_contexts: Option<AdditionalContexts>,
}

impl ContextLoaderOptions {
    /// The declared additional contexts; none when the list is absent.
    pub open spec fn entries(&self) -> Seq<ContextLoaderEntry> {
        match &self.additional_contexts {
            Some(a) => a.0@,
            None => Seq::empty(),
        }
    }
}

#[verifier::external_type_specification]
#[verifier::external_body]
pub struct ExJsonValue(JsonValue);

#[verifier::external_type_specification]
#[verifier::external_body]
pub struct ExJsonError(json::Error);

#[verifier::external_type_specification]
#[verifier::external_body]
#[verifier::reject_recursive_types(D)]
pub struct ExRemoteDocument<D>(RemoteDocument<D>);

#[verifier::external_type_specification]
#[verifier::external_body]
pub struct ExStaticLoader(StaticLoader);

/// Whether the json crate accepts the text as a JSON document.
pub uninterp spec fn is_json(s: Seq<char>) -> bool;

/// Relies on json::parse: it parses the text as JSON, and whether it succeeds
/// depends on the text alone.
#[verifier::external_body]
fn parse_json(s: &str) -> (r: Result<JsonValue, json::Error>)
    ensures
        r is Ok <==> is_json(s@),
{
    json::parse(s)
}

/// Relies on the Display impl of json::Error, for a message naming the cause.
#[verifier::external_body]
fn json_error_text(e: &json::Error) -> String {
    e.to_string()
}

/// Relies on json_ld::RemoteDocument::new, which pairs a document with its
/// base IRI.
#[verifier::external_body]
fn remote_document(doc: JsonValue, base_url: Iri<'_>) -> RemoteDocument<JsonValue> {
    RemoteDocument::new(doc, base_url)
}

/// Relies on ssi::jsonld::StaticLoader, which serves ssi's built-in set of
/// well-known context documents.
#[verifier::external_body]
fn builtin_contexts() -> StaticLoader {
    StaticLoader
}

/// An additional context document: its identifier, its raw body, and the
/// parsed document served for it.
pub struct ContextDocument {
    pub iri: String,
    pub body: String,
    pub document: RemoteDocument<JsonValue>,
}

/// Context documents by identifier. The built-in set, when present, is
/// consulted before the additional documents.
///
/// ssi 0.4 offers the built-in set (`StaticLoader`) but no loader that also
/// serves configured documents, so this type holds both layers.
pub struct ContextLoader {
    pub static_loader: Option<StaticLoader>,
    pub context_map: Vec<ContextDocument>,
}

/// The additional documents as (identifier, body).
pub open spec fn documents_of(d: Seq<ContextDocument>) -> Seq<(Seq<char>, Seq<char>)> {
    d.map_values(|c: ContextDocument| (c.iri@, c.body@))
}

/// A staged context that can be served: a valid IRI and a JSON body.
pub open spec fn is_servable(c: StagedContext) -> bool {
    is_iri(c.iri@) && is_json(c.body@)
}

impl ContextLoader {
    /// Whether an additional document has this identifier.
    pub open spec fn has_additional(&self, iri: Seq<char>) -> bool {
        exists|i: int| 0 <= i < self.context_map@.len() && self.context_map@[i].iri@ == iri
    }

    /// The additional document with this identifier, if any.
    pub fn additional_document(&self, iri: &String) -> (r: Option<&ContextDocument>)
        ensures
            r is Some <==> self.has_additional(iri@),
            r is Some ==> r->0.iri@ == iri@ && exists|i: int|
                0 <= i < self.context_map@.len() && self.context_map@[i] == *r->0,
    {
        let mut i: usize = 0;
        while i < self.context_map.len()
            invariant
                0 <= i <= self.context_map@.len(),
                forall|j: int| 0 <= j < i ==> self.context_map@[j].iri@ != iri@,
            decreases self.context_map@.len() - i,
        {
            if self.context_map[i].iri == *iri {
                return Some(&self.context_map[i]);
            }
            i = i + 1;
        }
        None
    }
}

/// A loader built from a complete staging whose reads came from `files`
/// serves every configured identifier, with exactly the contents of its file.
pub proof fn lemma_loader_serves_file_contents(
    opts: ContextLoaderOptions,
    staging: ContextStaging,
    files: spec_fn(Seq<char>) -> Option<Seq<char>>,
    loader: ContextLoader,
)
    requires
        staging.wf(),
        staging.is_done(),
        staging.entries@ == opts.entries(),
        read_from(staging, files),
        documents_of(loader.context_map@) == pairs_of(staging.staged@),
    ensures
        forall|i: int| 0 <= i < opts.entries().len() ==> loader.has_additional(#[trigger] opts.entries()[i].iri@),
        forall|i: int, j: int|
            0 <= i < opts.entries().len() && 0 <= j < loader.context_map@.len()
                && loader.context_map@[j].iri@ == #[trigger] opts.entries()[i].iri@ ==> files(
                opts.entries()[i].doc_body_file_path@,
            ) == Some(#[trigger] loader.context_map@[j].body@),
{
    let entries = opts.entries();
    let map = loader.context_map@;
    lemma_complete_staging_has_distinct_ids(staging);
    assert(map.len() == entries.len()) by {
        assert(documents_of(map).len() == pairs_of(staging.staged@).len());
    }
    assert forall|i: int| 0 <= i < map.len() implies map[i].iri@ == entries[i].iri@ && map[i].body@
        == staging.staged@[i].body@ by {
        assert(documents_of(map)[i] == pairs_of(staging.staged@)[i]);
    }
    assert forall|i: int| 0 <= i < entries.len() implies loader.has_additional(#[trigger] entries[i].iri@) by {
        assert(map[i].iri@ == entries[i].iri@);
    }
    assert forall|i: int, j: int|
        0 <= i < entries.len() && 0 <= j < map.len() && map[j].iri@ == #[trigger] entries[i].iri@ implies files(
        entries[i].doc_body_file_path@,
    ) == Some(#[trigger] map[j].body@) by {
        assert(entries[j].iri@ == entries[i].iri@);
        assert(i == j);
    }
}

impl ContextLoaderOptions {
    /// Starts staging the additional contexts.
    pub fn staging(&self) -> (r: ContextStaging<'_>)
        ensures
            r.wf(),
            r.entries@ == self.entries(),
            r.staged@.len() == 0,
    {
        match &self.additional_contexts {
            Some(a) => ContextStaging::new(a.0.as_slice()),
            None => ContextStaging::new(&[]),
        }
    }

    /// Builds the loader from the base layer that the options select and the
    /// staged additional contexts, parsing each identifier as an IRI and each
    /// body as JSON. The first entry that fails either fails the whole build.
    pub fn to_context_loader(&self, staging: &ContextStaging) -> (r: Result<ContextLoader, ConfigError>)
        requires
            staging.wf(),
            staging.is_done(),
            staging.entries@ == self.entries(),
        ensures
            r is Ok <==> forall|i: int| 0 <= i < staging.staged@.len() ==> is_servable(staging.staged@[i]),
            r is Ok ==> (r->Ok_0.static_loader is Some <==> !self.disable_default_contexts),
            staging.staged@.len() == 0 ==> r is Ok && r->Ok_0.context_map@.len() == 0,
            r is Ok ==> documents_of(r->Ok_0.context_map@) == pairs_of(staging.staged@),
            r is Err ==> exists|k: int|
                0 <= k < staging.staged@.len() && !is_servable(staging.staged@[k]) && (forall|j: int|
                    0 <= j < k ==> is_servable(staging.staged@[j])) && (if !is_iri(staging.staged@[k].iri@) {
                    r matches Err(ConfigError::InvalidContextIri { iri, .. }) && iri@ == staging.staged@[k].iri@
                } else {
                    r matches Err(ConfigError::InvalidContextDocument { path, .. }) && path@
                        == staging.entries@[k].doc_body_file_path@
                }),
    {
        let static_loader = if self.disable_default_contexts {
            None
        } else {
            Some(builtin_contexts())
        };
        let mut context_map: Vec<ContextDocument> = Vec::new();
        let n = staging.staged.len();
        let mut i: usize = 0;
        while i < n
            invariant
                n == staging.staged@.len(),
                n == staging.entries@.len(),
                0 <= i <= n,
                forall|j: int| 0 <= j < i ==> is_servable(staging.staged@[j]),
                documents_of(context_map@) == pairs_of(staging.staged@.take(i as int)),
            decreases n - i,
        {
            let staged = &staging.staged[i];
            let iri = match parse_iri(staged.iri.as_str()) {
                Ok(iri) => iri,
                Err(e) => {
                    return Err(
                        ConfigError::InvalidContextIri { iri: staged.iri.clone(), cause: iri_error_text(&e) },
                    );
                },
            };
            let doc = match parse_json(staged.body.as_str()) {
                Ok(doc) => doc,
                Err(e) => {
                    return Err(
                        ConfigError::InvalidContextDocument {
                            path: staging.entries[i].doc_body_file_path.clone(),
                            cause: json_error_text(&e),
                        },
                    );
                },
            };
            let document = remote_document(doc, iri);
            context_map.push(ContextDocument { iri: staged.iri.clone(), body: staged.body.clone(), document });
            assert(pairs_of(staging.staged@.take(i + 1)) =~= pairs_of(staging.staged@.take(i as int)).push(
                (staged.iri@, staged.body@),
            ));
            assert(documents_of(context_map@) =~= documents_of(context_map@.drop_last()).push(
                (staged.iri@, staged.body@),
            ));
            i = i + 1;
        }
        assert(staging.staged@.take(n as int) =~= staging.staged@);
        Ok(ContextLoader { static_loader, context_map })
    }
}

} // verus!
