use did_config::context::{AdditionalContexts, ContextLoader, ContextLoaderEntry, ContextLoaderOptions};
use did_config::error::ConfigError;
use did_config::staging::{ContextStaging, StagingAction};
use json_ld::Loader;

fn entry(iri: &str, path: &str) -> ContextLoaderEntry {
    ContextLoaderEntry { iri: iri.to_string(), doc_body_file_path: path.to_string() }
}

fn options(disable: bool, entries: Option<Vec<ContextLoaderEntry>>) -> ContextLoaderOptions {
    ContextLoaderOptions {
        disable_default_contexts: disable,
        additional_contexts: entries.map(AdditionalContexts),
    }
}

/// Runs the staging protocol against an in-memory file system and counts the
/// reads it asked for.
fn build(opts: &ContextLoaderOptions, files: &[(&str, &str)]) -> (Result<ContextLoader, ConfigError>, usize) {
    let mut staging: ContextStaging = opts.staging();
    let mut reads = 0;
    loop {
        match staging.next_action() {
            StagingAction::Read(path) => {
                reads += 1;
                let outcome = files
                    .iter()
                    .find(|(p, _)| *p == path.as_str())
                    .map(|(_, body)| body.to_string())
                    .ok_or_else(|| "No such file or directory".to_string());
                if let Err(e) = staging.record_read(outcome) {
                    return (Err(e), reads);
                }
            }
            StagingAction::Fail(e) => return (Err(e), reads),
            StagingAction::Complete => break,
        }
    }
    (opts.to_context_loader(&staging), reads)
}

const CTX: &str = "{\"@context\": {}}";

#[test]
fn repeated_identifier_at_end_collides() {
    let opts = options(false, Some(vec![
        entry("https://example.org/a", "/a.jsonld"),
        entry("https://example.org/b", "/b.jsonld"),
        entry("https://example.org/a", "/c.jsonld"),
    ]));
    let files = [("/a.jsonld", CTX), ("/b.jsonld", CTX), ("/c.jsonld", CTX)];
    let (r, reads) = build(&opts, &files);
    match r {
        Err(ConfigError::ContextIdentifierCollision { iri }) => assert_eq!(iri, "https://example.org/a"),
        _ => panic!("expected a collision"),
    }
    assert_eq!(reads, 2);
}

#[test]
fn repeated_identifier_adjacent_collides_before_reading() {
    let opts = options(true, Some(vec![
        entry("https://example.org/x", "/x.jsonld"),
        entry("https://example.org/x", "/missing.jsonld"),
        entry("https://example.org/y", "/y.jsonld"),
    ]));
    let files = [("/x.jsonld", CTX), ("/y.jsonld", CTX)];
    let (r, reads) = build(&opts, &files);
    match r {
        Err(ConfigError::ContextIdentifierCollision { iri }) => assert_eq!(iri, "https://example.org/x"),
        _ => panic!("expected a collision"),
    }
    assert_eq!(reads, 1);
}

#[test]
fn distinct_entries_resolve_to_file_contents() {
    let body_a = "{\"@context\": {\"name\": \"http://schema.org/name\"}}";
    let body_b = "{\n  \"@context\": {\"@vocab\": \"https://example.org/vocab#\"}\n}\n";
    let opts = options(false, Some(vec![
        entry("https://example.org/a", "/a.jsonld"),
        entry("https://example.org/b", "/b.jsonld"),
    ]));
    let (r, reads) = build(&opts, &[("/a.jsonld", body_a), ("/b.jsonld", body_b)]);
    let loader = r.unwrap();
    assert_eq!(reads, 2);
    assert_eq!(loader.context_map.len(), 2);
    let a = loader.additional_document(&"https://example.org/a".to_string()).unwrap();
    let b = loader.additional_document(&"https://example.org/b".to_string()).unwrap();
    assert_eq!(a.body, body_a);
    assert_eq!(b.body, body_b);
    assert_eq!(*a.document, json::parse(body_a).unwrap());
    assert!(loader.additional_document(&"https://example.org/c".to_string()).is_none());
}

#[test]
fn disabled_defaults_and_no_entries_resolve_nothing() {
    let opts = options(true, Some(vec![]));
    let (r, reads) = build(&opts, &[]);
    let loader = r.unwrap();
    assert_eq!(reads, 0);
    assert!(loader.static_loader.is_none());
    assert!(loader.context_map.is_empty());
    assert!(loader.additional_document(&ssi::jsonld::CREDENTIALS_V1_CONTEXT.to_string()).is_none());
}

#[test]
fn defaults_alone_without_additional_contexts() {
    let opts = options(false, None);
    let (r, reads) = build(&opts, &[]);
    let loader = r.unwrap();
    assert_eq!(reads, 0);
    assert!(loader.static_loader.is_some());
    assert!(loader.context_map.is_empty());
}

#[test]
fn missing_file_fails_naming_its_path() {
    let opts = options(false, Some(vec![
        entry("https://example.org/a", "/a.jsonld"),
        entry("https://example.org/b", "/nowhere/b.jsonld"),
        entry("https://example.org/c", "/c.jsonld"),
    ]));
    let (r, reads) = build(&opts, &[("/a.jsonld", CTX), ("/c.jsonld", CTX)]);
    match r {
        Err(ConfigError::UnreadableContextFile { path, cause }) => {
            assert_eq!(path, "/nowhere/b.jsonld");
            assert_eq!(cause, "No such file or directory");
        }
        _ => panic!("expected an unreadable file"),
    }
    assert_eq!(reads, 2);
}

#[test]
fn example_context_added_to_defaults() {
    let opts = options(false, Some(vec![entry("https://example.org/ctx", "/tmp/ctx.jsonld")]));
    let (r, _) = build(&opts, &[("/tmp/ctx.jsonld", CTX)]);
    let mut loader = r.unwrap();
    let doc = loader.additional_document(&"https://example.org/ctx".to_string()).unwrap();
    assert_eq!(doc.body, CTX);
    assert_eq!(*doc.document, json::parse(CTX).unwrap());
    let builtin = loader.static_loader.as_mut().unwrap();
    for id in [
        ssi::jsonld::CREDENTIALS_V1_CONTEXT,
        ssi::jsonld::DID_V1_CONTEXT,
        ssi::jsonld::SECURITY_V2_CONTEXT,
    ] {
        let iri = iref::Iri::new(id).unwrap();
        assert!(async_std::task::block_on(builtin.load(iri)).is_ok());
    }
}

#[test]
fn invalid_identifier_is_refused() {
    let opts = options(false, Some(vec![entry("not an iri", "/a.jsonld")]));
    let (r, _) = build(&opts, &[("/a.jsonld", CTX)]);
    match r {
        Err(ConfigError::InvalidContextIri { iri, .. }) => assert_eq!(iri, "not an iri"),
        _ => panic!("expected an invalid identifier"),
    }
}

#[test]
fn invalid_json_body_is_refused_naming_path() {
    let opts = options(false, Some(vec![
        entry("https://example.org/a", "/a.jsonld"),
        entry("https://example.org/b", "/b.jsonld"),
    ]));
    let (r, _) = build(&opts, &[("/a.jsonld", CTX), ("/b.jsonld", "{\"@context\": ")]);
    match r {
        Err(ConfigError::InvalidContextDocument { path, cause }) => {
            assert_eq!(path, "/b.jsonld");
            assert!(!cause.is_empty());
        }
        _ => panic!("expected an invalid document"),
    }
}

#[test]
fn staging_reads_in_declared_order() {
    let entries = vec![entry("https://example.org/a", "/a.jsonld"), entry("https://example.org/b", "/b.jsonld")];
    let mut staging = ContextStaging::new(&entries);
    assert!(!staging.is_complete());
    assert!(matches!(staging.next_action(), StagingAction::Read(p) if p == "/a.jsonld"));
    staging.record_read(Ok("A".to_string())).unwrap();
    assert!(matches!(staging.next_action(), StagingAction::Read(p) if p == "/b.jsonld"));
    staging.record_read(Ok("B".to_string())).unwrap();
    assert!(staging.is_complete());
    assert!(matches!(staging.next_action(), StagingAction::Complete));
    assert_eq!(staging.staged[0].body, "A");
    assert_eq!(staging.staged[1].iri, "https://example.org/b");
}
