//! Per-file outcomes and their aggregation across a directory traversal.
//! Reading a path is the caller's affair; the library takes the typed result
//! of that read — the decoded text, or the classified failure — and turns it
//! into a `ScanOutcome`, appending outcomes to a `TraversalReport` in
//! discovery order. A failure is local to its file or subtree: recording one
//! never disturbs what was already gathered.

use vstd::prelude::*;
use crate::matcher::CompiledMatcher;
use crate::scanner::MatchLine;
use crate::scanner::ScanOptions;
use crate::scanner::scan;
use crate::scanner::spec_lines;
use crate::scanner::spec_scan;

verus! {

/// Why one path could not be scanned: the file is absent, access was denied,
/// the content did not decode as text, or anything else with its reason.
#[derive(Debug, Clone, PartialEq, Eq)]
pub enum FileErrorKind {
    NotFound,
    PermissionDenied,
    NotText,
    Other(String),
}

/// The result of scanning one path: its matching lines in order, or the
/// classified failure together with the path it struck.
#[derive(Debug)]
pub enum ScanOutcome {
    Matches(Vec<MatchLine>),
    Failure(FileErrorKind, String),
}

/// Scans the result of reading `path`: decoded content is scanned line by
/// line, and a read failure becomes a `Failure` outcome carrying its kind and
/// the path — with no match lines and no interruption of the caller.
pub fn scan_read_result(
    read_result: Result<String, FileErrorKind>,
    m: &CompiledMatcher,
    path: &str,
    opts: &ScanOptions,
) -> (r: ScanOutcome)
    ensures
        read_result is Ok ==> r is Matches && r->Matches_0@.map_values(|ml: MatchLine| ml@)
            == spec_scan(m.pat(), spec_lines(read_result->Ok_0@), path@, *opts, 0, 0),
        read_result is Err ==> r is Failure && r->Failure_0 == read_result->Err_0
            && r->Failure_1@ == path@,
{
    match read_result {
        Ok(content) => ScanOutcome::Matches(scan(content.as_str(), m, path, opts)),
        Err(kind) => ScanOutcome::Failure(kind, path.to_owned()),
    }
}

/// The outcomes gathered across one traversal, in discovery order.
#[derive(Debug)]
pub struct TraversalReport {
    pub outcomes: Vec<ScanOutcome>,
}

impl TraversalReport {
    /// An empty report.
    pub fn new() -> (r: TraversalReport)
        ensures
            r.outcomes@.len() == 0,
    {
        TraversalReport { outcomes: Vec::new() }
    }

    /// Appends one outcome; everything gathered before stays as it was.
    pub fn record_outcome(&mut self, o: ScanOutcome)
        ensures
            final(self).outcomes@ == old(self).outcomes@.push(o),
    {
        self.outcomes.push(o);
    }

    /// Scans the result of reading the regular file `path` and appends its
    /// outcome; everything gathered before stays as it was.
    pub fn record_file(
        &mut self,
        read_result: Result<String, FileErrorKind>,
        m: &CompiledMatcher,
        path: &str,
        opts: &ScanOptions,
    )
        ensures
            final(self).outcomes@ == old(self).outcomes@.push(final(self).outcomes@.last()),
            read_result is Ok ==> final(self).outcomes@.last() is Matches,
            read_result is Ok ==> final(self).outcomes@.last()->Matches_0@.map_values(
                |ml: MatchLine| ml@,
            ) == spec_scan(m.pat(), spec_lines(read_result->Ok_0@), path@, *opts, 0, 0),
            read_result is Err ==> final(self).outcomes@.last() is Failure,
            read_result is Err ==> final(self).outcomes@.last()->Failure_0
                == read_result->Err_0,
            read_result is Err ==> final(self).outcomes@.last()->Failure_1@ == path@,
    {
        let o = scan_read_result(read_result, m, path, opts);
        self.outcomes.push(o);
    }

    /// Appends a failure outcome for a directory that could not be
    /// enumerated; the failure is local, and everything gathered before — in
    /// particular from the directory's siblings — stays as it was.
    pub fn record_dir_failure(&mut self, kind: FileErrorKind, path: &str)
        ensures
            final(self).outcomes@ == old(self).outcomes@.push(final(self).outcomes@.last()),
            final(self).outcomes@.last() is Failure,
            final(self).outcomes@.last()->Failure_0 == kind,
            final(self).outcomes@.last()->Failure_1@ == path@,
    {
        self.outcomes.push(ScanOutcome::Failure(kind, path.to_owned()));
    }

    /// Appends every outcome of a finished subtree traversal, in order, after
    /// what this report already holds.
    pub fn merge(&mut self, other: TraversalReport)
        ensures
            final(self).outcomes@ == old(self).outcomes@ + other.outcomes@,
    {
        let mut rest = other.outcomes;
        self.outcomes.append(&mut rest);
    }
}

} // verus!
