use vstd::prelude::*;
use iref::Iri;

verus! {

#[verifier::external_type_specification]
#[verifier::external_body]
pub struct ExIri<'a>(Iri<'a>);

#[verifier::external_type_specification]
#[verifier::external_body]
pub struct ExIriError(iref::Error);

/// Whether iref accepts the text as an IRI.
pub uninterp spec fn is_iri(s: Seq<char>) -> bool;

/// Relies on iref::Iri::new: it parses the text as an IRI, and whether it
/// succeeds depends on the text alone.
#[verifier::external_body]
pub(crate) fn parse_iri<'a>(s: &'a str) -> (r: Result<Iri<'a>, iref::Error>)
    ensures
        r is Ok <==> is_iri(s@),
{
    Iri::new(s)
}

/// Relies on the Display impl of iref::Error, for a message naming the cause.
#[verifier::external_body]
pub(crate) fn iri_error_text(e: &iref::Error) -> String {
    e.to_string()
}

} // verus!
