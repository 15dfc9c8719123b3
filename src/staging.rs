use vstd::prelude::*;
use crate::context::ContextLoaderEntry;
use crate::error::ConfigError;

verus! {

/// An identifier paired with the document body read for it.
pub struct StagedContext {
    pub iri: String,
    pub body: String,
}

/// Why staging stopped: a repeated identifier, or a file that could not be
/// read (named by its path).
pub enum StagingFailure {
    Collision(Seq<char>),
    Unreadable(Seq<char>),
}

/// Staged pairs as (identifier, body).
pub open spec fn pairs_of(s: Seq<StagedContext>) -> Seq<(Seq<char>, Seq<char>)> {
    s.map_values(|c: StagedContext| (c.iri@, c.body@))
}

/// The identifiers among staged pairs.
pub open spec fn ids_of(s: Seq<(Seq<char>, Seq<char>)>) -> Seq<Seq<char>> {
    s.map_values(|p: (Seq<char>, Seq<char>)| p.0)
}

/// Staging one more entry, given what its file holds (`None` when it cannot be
/// read). The identifier is checked before the file is read.
pub open spec fn stage_step(
    staged: Seq<(Seq<char>, Seq<char>)>,
    entry: ContextLoaderEntry,
    file: Option<Seq<char>>,
) -> Result<Seq<(Seq<char>, Seq<char>)>, StagingFailure> {
    if ids_of(staged).contains(entry.iri@) {
        Err(StagingFailure::Collision(entry.iri@))
    } else {
        match file {
            Some(body) => Ok(staged.push((entry.iri@, body))),
            None => Err(StagingFailure::Unreadable(entry.doc_body_file_path@)),
        }
    }
}

/// Staging every entry in order against a file system `files` (path to
/// contents), stopping at the first failure.
pub open spec fn stage_all(
    entries: Seq<ContextLoaderEntry>,
    files: spec_fn(Seq<char>) -> Option<Seq<char>>,
) -> Result<Seq<(Seq<char>, Seq<char>)>, StagingFailure>
    decreases entries.len(),
{
    if entries.len() == 0 {
        Ok(Seq::empty())
    } else {
        match stage_all(entries.drop_last(), files) {
            Ok(staged) => stage_step(staged, entries.last(), files(entries.last().doc_body_file_path@)),
            Err(e) => Err(e),
        }
    }
}

/// Identifiers of `entries` before position `k` are pairwise distinct.
pub open spec fn distinct_ids_before(entries: Seq<ContextLoaderEntry>, k: int) -> bool {
    forall|a: int, b: int| 0 <= a < b < k ==> entries[a].iri@ != entries[b].iri@
}

/// Files of `entries` before position `k` can all be read.
pub open spec fn readable_before(
    entries: Seq<ContextLoaderEntry>,
    files: spec_fn(Seq<char>) -> Option<Seq<char>>,
    k: int,
) -> bool {
    forall|a: int| 0 <= a < k ==> files(entries[a].doc_body_file_path@) is Some
}

/// Each entry's identifier paired with the contents of its file.
pub open spec fn contents_of(
    entries: Seq<ContextLoaderEntry>,
    files: spec_fn(Seq<char>) -> Option<Seq<char>>,
) -> Seq<(Seq<char>, Seq<char>)> {
    entries.map_values(|e: ContextLoaderEntry| (e.iri@, files(e.doc_body_file_path@)->0))
}

proof fn lemma_prefix_staged(
    entries: Seq<ContextLoaderEntry>,
    files: spec_fn(Seq<char>) -> Option<Seq<char>>,
    k: int,
)
    requires
        0 <= k <= entries.len(),
        distinct_ids_before(entries, k),
        readable_before(entries, files, k),
    ensures
        stage_all(entries.take(k), files) == Ok::<_, StagingFailure>(contents_of(entries.take(k), files)),
    decreases k,
{
    if k > 0 {
        lemma_prefix_staged(entries, files, k - 1);
        let prev = entries.take(k);
        assert(prev.drop_last() =~= entries.take(k - 1));
        let staged = contents_of(entries.take(k - 1), files);
        assert(!ids_of(staged).contains(entries[k - 1].iri@)) by {
            if ids_of(staged).contains(entries[k - 1].iri@) {
                let a = choose|a: int| 0 <= a < k - 1 && ids_of(staged)[a] == entries[k - 1].iri@;
                assert(entries[a].iri@ == entries[k - 1].iri@);
            }
        }
        assert(contents_of(prev, files) =~= staged.push(
            (entries[k - 1].iri@, files(entries[k - 1].doc_body_file_path@)->0),
        ));
    } else {
        assert(contents_of(entries.take(0), files) =~= Seq::empty());
    }
}

proof fn lemma_failure_persists(
    entries: Seq<ContextLoaderEntry>,
    files: spec_fn(Seq<char>) -> Option<Seq<char>>,
    k: int,
)
    requires
        0 <= k <= entries.len(),
        stage_all(entries.take(k), files) is Err,
    ensures
        stage_all(entries, files) == stage_all(entries.take(k), files),
    decreases entries.len(),
{
    if k == entries.len() {
        assert(entries.take(k) =~= entries);
    } else {
        assert(entries.drop_last().take(k) =~= entries.take(k));
        lemma_failure_persists(entries.drop_last(), files, k);
    }
}

/// Staging one more entry of the list continues from what staging the entries
/// before it gave: a run of `next_action` and `record_read` that is handed each
/// file's contents follows `stage_all`.
pub proof fn lemma_stage_all_extends(
    entries: Seq<ContextLoaderEntry>,
    files: spec_fn(Seq<char>) -> Option<Seq<char>>,
    k: int,
)
    requires
        0 <= k < entries.len(),
        stage_all(entries.take(k), files) is Ok,
    ensures
        stage_all(entries.take(k + 1), files) == stage_step(
            stage_all(entries.take(k), files)->Ok_0,
            entries[k],
            files(entries[k].doc_body_file_path@),
        ),
{
    assert(entries.take(k + 1).drop_last() =~= entries.take(k));
}

/// When the identifiers are distinct and every file can be read, staging
/// succeeds and holds each identifier with exactly the contents of its file,
/// in the order given.
pub proof fn lemma_distinct_readable_entries_are_staged(
    entries: Seq<ContextLoaderEntry>,
    files: spec_fn(Seq<char>) -> Option<Seq<char>>,
)
    requires
        distinct_ids_before(entries, entries.len() as int),
        readable_before(entries, files, entries.len() as int),
    ensures
        stage_all(entries, files) == Ok::<_, StagingFailure>(contents_of(entries, files)),
{
    lemma_prefix_staged(entries, files, entries.len() as int);
    assert(entries.take(entries.len() as int) =~= entries);
}

/// An identifier that repeats an earlier one fails staging with a collision
/// naming it, wherever the two stand in the list, provided nothing before the
/// repetition failed first.
pub proof fn lemma_repeated_identifier_collides(
    entries: Seq<ContextLoaderEntry>,
    files: spec_fn(Seq<char>) -> Option<Seq<char>>,
    i: int,
    j: int,
)
    requires
        0 <= i < j < entries.len(),
        entries[i].iri@ == entries[j].iri@,
        distinct_ids_before(entries, j),
        readable_before(entries, files, j),
    ensures
        stage_all(entries, files) == Err::<Seq<(Seq<char>, Seq<char>)>, _>(
            StagingFailure::Collision(entries[j].iri@),
        ),
{
    lemma_prefix_staged(entries, files, j);
    let prefix = entries.take(j + 1);
    assert(prefix.drop_last() =~= entries.take(j));
    let staged = contents_of(entries.take(j), files);
    assert(ids_of(staged)[i] == entries[j].iri@);
    lemma_failure_persists(entries, files, j + 1);
}

/// A file that cannot be read fails staging with an error naming its path,
/// provided nothing before it failed first.
pub proof fn lemma_unreadable_file_fails(
    entries: Seq<ContextLoaderEntry>,
    files: spec_fn(Seq<char>) -> Option<Seq<char>>,
    k: int,
)
    requires
        0 <= k < entries.len(),
        files(entries[k].doc_body_file_path@) is None,
        distinct_ids_before(entries, k + 1),
        readable_before(entries, files, k),
    ensures
        stage_all(entries, files) == Err::<Seq<(Seq<char>, Seq<char>)>, _>(
            StagingFailure::Unreadable(entries[k].doc_body_file_path@),
        ),
{
    lemma_prefix_staged(entries, files, k);
    let prefix = entries.take(k + 1);
    assert(prefix.drop_last() =~= entries.take(k));
    let staged = contents_of(entries.take(k), files);
    assert(!ids_of(staged).contains(entries[k].iri@)) by {
        if ids_of(staged).contains(entries[k].iri@) {
            let a = choose|a: int| 0 <= a < k && ids_of(staged)[a] == entries[k].iri@;
            assert(entries[a].iri@ == entries[k].iri@);
        }
    }
    lemma_failure_persists(entries, files, k + 1);
}

/// Every staged body is what `files` holds at its entry's path: the reads
/// handed to `record_read` came from that file system.
pub open spec fn read_from(staging: ContextStaging, files: spec_fn(Seq<char>) -> Option<Seq<char>>) -> bool {
    forall|i: int|
        0 <= i < staging.staged@.len() ==> files(staging.entries@[i].doc_body_file_path@) == Some(
            staging.staged@[i].body@,
        )
}

/// A complete staging has distinct identifiers: a list in which an identifier
/// repeats never completes, so no loader is built from it.
pub proof fn lemma_complete_staging_has_distinct_ids(staging: ContextStaging)
    requires
        staging.wf(),
        staging.is_done(),
    ensures
        distinct_ids_before(staging.entries@, staging.entries@.len() as int),
{
}

/// A complete staging whose reads came from `files` holds what `stage_all`
/// gives for that file system; in particular every file was readable, so a
/// list with an unreadable file never completes.
pub proof fn lemma_complete_staging_follows_files(
    staging: ContextStaging,
    files: spec_fn(Seq<char>) -> Option<Seq<char>>,
)
    requires
        staging.wf(),
        staging.is_done(),
        read_from(staging, files),
    ensures
        readable_before(staging.entries@, files, staging.entries@.len() as int),
        stage_all(staging.entries@, files) == Ok::<_, StagingFailure>(pairs_of(staging.staged@)),
{
    let entries = staging.entries@;
    lemma_distinct_readable_entries_are_staged(entries, files);
    assert(contents_of(entries, files) =~= pairs_of(staging.staged@));
}

/// What the staging of additional contexts needs next.
pub enum StagingAction<'a> {
    /// Read the file at this path and hand its contents to `record_read`.
    Read(&'a String),
    /// Staging failed; no loader is built.
    Fail(ConfigError),
    /// Every entry is staged.
    Complete,
}

/// Additional contexts staged so far, one per entry from the start of the
/// list, with distinct identifiers.
pub struct ContextStaging<'a> {
    pub entries: &'a [ContextLoaderEntry],
    pub staged: Vec<StagedContext>,
}

impl<'a> ContextStaging<'a> {
    /// The i-th staged pair carries the i-th entry's identifier, there are no
    /// more pairs than entries, and no identifier is staged twice.
    pub open spec fn wf(&self) -> bool {
        &&& self.staged@.len() <= self.entries@.len()
        &&& forall|i: int| 0 <= i < self.staged@.len() ==> self.staged@[i].iri@ == self.entries@[i].iri@
        &&& forall|i: int, j: int|
            0 <= i < j < self.staged@.len() ==> self.staged@[i].iri@ != self.staged@[j].iri@
    }

    /// Every entry is staged.
    pub open spec fn is_done(&self) -> bool {
        self.staged@.len() == self.entries@.len()
    }

    /// The entry to stage next.
    pub open spec fn current(&self) -> ContextLoaderEntry {
        self.entries@[self.staged@.len() as int]
    }

    /// The next entry is waiting for the contents of its file.
    pub open spec fn awaits_read(&self) -> bool {
        &&& !self.is_done()
        &&& !ids_of(pairs_of(self.staged@)).contains(self.current().iri@)
    }

    /// Starts staging the given entries, with nothing staged yet.
    pub fn new(entries: &'a [ContextLoaderEntry]) -> (r: Self)
        ensures
            r.wf(),
            r.entries@ == entries@,
            r.staged@.len() == 0,
    {
        ContextStaging { entries, staged: Vec::new() }
    }

    /// Whether every entry is staged.
    pub fn is_complete(&self) -> (r: bool)
        ensures
            r == self.is_done(),
    {
        self.staged.len() == self.entries.len()
    }

    /// Checks the next entry's identifier against those staged and says what
    /// to do: read its file, fail on a collision, or nothing when all are
    /// staged.
    pub fn next_action(&self) -> (r: StagingAction<'a>)
        requires
            self.wf(),
        ensures
            self.is_done() <==> r is Complete,
            self.awaits_read() <==> r is Read,
            r is Read ==> r->Read_0@ == self.current().doc_body_file_path@,
            r is Fail ==> stage_step(pairs_of(self.staged@), self.current(), None)
                == Err::<Seq<(Seq<char>, Seq<char>)>, _>(StagingFailure::Collision(self.current().iri@)),
            r matches StagingAction::Fail(ConfigError::ContextIdentifierCollision { iri }) ==> iri@
                == self.current().iri@,
            r is Fail ==> r->Fail_0 is ContextIdentifierCollision,
    {
        let n = self.staged.len();
        if n == self.entries.len() {
            return StagingAction::Complete;
        }
        let entry = &self.entries[n];
        let mut i: usize = 0;
        while i < n
            invariant
                n == self.staged@.len(),
                n < self.entries@.len(),
                entry == self.entries@[n as int],
                0 <= i <= n,
                forall|j: int| 0 <= j < i ==> self.staged@[j].iri@ != entry.iri@,
            decreases n - i,
        {
            if self.staged[i].iri == entry.iri {
                assert(ids_of(pairs_of(self.staged@))[i as int] == entry.iri@);
                return StagingAction::Fail(ConfigError::ContextIdentifierCollision { iri: entry.iri.clone() });
            }
            i = i + 1;
        }
        assert(!ids_of(pairs_of(self.staged@)).contains(entry.iri@)) by {
            if ids_of(pairs_of(self.staged@)).contains(entry.iri@) {
                let k = choose|k: int| 0 <= k < n && ids_of(pairs_of(self.staged@))[k] == entry.iri@;
                assert(self.staged@[k].iri@ == entry.iri@);
            }
        }
        StagingAction::Read(&entry.doc_body_file_path)
    }

    /// Records what reading the next entry's file gave: its contents, or the
    /// cause of the failure.
    pub fn record_read(&mut self, outcome: Result<String, String>) -> (r: Result<(), ConfigError>)
        requires
            old(self).wf(),
            old(self).awaits_read(),
        ensures
            final(self).wf(),
            final(self).entries == old(self).entries,
            outcome is Ok <==> r is Ok,
            outcome is Ok ==> pairs_of(final(self).staged@) == stage_step(
                pairs_of(old(self).staged@),
                old(self).current(),
                Some(outcome->Ok_0@),
            )->Ok_0,
            outcome is Ok ==> final(self).staged@ == old(self).staged@.push(
                StagedContext { iri: old(self).current().iri, body: outcome->Ok_0 },
            ),
            outcome is Err ==> final(self).staged@ == old(self).staged@,
            outcome is Err ==> stage_step(pairs_of(old(self).staged@), old(self).current(), None)
                == Err::<Seq<(Seq<char>, Seq<char>)>, _>(StagingFailure::Unreadable(old(self).current().doc_body_file_path@)),
            r matches Err(ConfigError::UnreadableContextFile { path, cause }) ==> path@
                == old(self).current().doc_body_file_path@ && cause@ == outcome->Err_0@,
            r is Err ==> r->Err_0 is UnreadableContextFile,
    {
        let n = self.staged.len();
        let entry = &self.entries[n];
        match outcome {
            Ok(body) => {
                let ghost before = self.staged@;
                proof {
                    assert forall|i: int| 0 <= i < n implies before[i].iri@ != entry.iri@ by {
                        assert(ids_of(pairs_of(before))[i] == before[i].iri@);
                    }
                }
                self.staged.push(StagedContext { iri: entry.iri.clone(), body });
                assert(pairs_of(self.staged@) =~= pairs_of(before).push((entry.iri@, self.staged@[n as int].body@)));
                Ok(())
            },
            Err(cause) => Err(
                ConfigError::UnreadableContextFile { path: entry.doc_body_file_path.clone(), cause },
            ),
        }
    }
}

} // verus!
