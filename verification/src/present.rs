//! The result presenter: turns gathered outcomes into display lines. In
//! single-file mode the matching lines are joined with newlines — zero
//! matches join to an empty line, a documented quirk kept as it is. In
//! multi-file mode every file with at least one match contributes a header
//! with its path, leading `./` and `../` markers stripped, followed by its
//! joined match lines; files with no match, and failures, contribute nothing
//! there. Failures become one-line diagnostics for a separate error channel.

use vstd::prelude::*;
use vstd::string::StrSliceExecFns;
use vstd::string::StringExecFns;
use crate::outcome::FileErrorKind;
use crate::outcome::ScanOutcome;
use crate::outcome::TraversalReport;
use crate::scanner::MatchLine;
use crate::strutil::join_strings;
use crate::strutil::spec_join;

verus! {

/// A path with its leading `./` and `../` traversal markers stripped.
pub open spec fn spec_normalize(p: Seq<char>) -> Seq<char>
    decreases p.len(),
{
    if p.len() >= 2 && p[0] == '.' && p[1] == '/' {
        spec_normalize(p.skip(2))
    } else if p.len() >= 3 && p[0] == '.' && p[1] == '.' && p[2] == '/' {
        spec_normalize(p.skip(3))
    } else {
        p
    }
}

/// Strips the leading `./` and `../` traversal markers from a path; a purely
/// cosmetic normalization for display headers.
pub fn normalize_path(p: &str) -> (r: String)
    ensures
        r@ == spec_normalize(p@),
{
    let n = p.unicode_len();
    let mut start: usize = 0;
    let mut done = false;
    proof {
        assert(p@.skip(0) =~= p@);
    }
    while !done
        invariant
            n == p@.len(),
            start <= n,
            spec_normalize(p@) == spec_normalize(p@.skip(start as int)),
            done ==> spec_normalize(p@.skip(start as int)) == p@.skip(start as int),
        decreases n - start, (if done { 0int } else { 1int }),
    {
        let ghost rest = p@.skip(start as int);
        if n - start >= 2 && p.get_char(start) == '.' && p.get_char(start + 1) == '/' {
            proof {
                assert(rest[0] == '.' && rest[1] == '/');
                assert(rest.skip(2) =~= p@.skip(start + 2));
            }
            start = start + 2;
        } else if n - start >= 3 && p.get_char(start) == '.' && p.get_char(start + 1) == '.'
            && p.get_char(start + 2) == '/' {
            proof {
                assert(rest[0] == '.' && rest[1] == '.' && rest[2] == '/');
                assert(rest.skip(3) =~= p@.skip(start + 3));
            }
            start = start + 3;
        } else {
            proof {
                if rest.len() >= 2 && rest[0] == '.' && rest[1] == '/' {
                    assert(p@[start as int] == '.' && p@[start + 1] == '/');
                    assert(false);
                }
                if rest.len() >= 3 && rest[0] == '.' && rest[1] == '.' && rest[2] == '/' {
                    assert(p@[start as int] == '.' && p@[start + 1] == '.' && p@[start + 2]
                        == '/');
                    assert(false);
                }
            }
            done = true;
        }
    }
    let r = String::from_str(p.substring_char(start, n));
    proof {
        assert(p@.subrange(start as int, n as int) =~= p@.skip(start as int));
    }
    r
}

/// The one-line reason for a failure kind.
pub open spec fn spec_error_message(kind: FileErrorKind) -> Seq<char> {
    match kind {
        FileErrorKind::NotFound => "No such file or directory"@,
        FileErrorKind::PermissionDenied => "Permission denied"@,
        FileErrorKind::NotText => "Has invalid data, likely not a text file"@,
        FileErrorKind::Other(msg) => msg@,
    }
}

/// The reason text of a failure kind.
pub fn error_message(kind: &FileErrorKind) -> (r: String)
    ensures
        r@ == spec_error_message(*kind),
{
    match kind {
        FileErrorKind::NotFound => String::from_str("No such file or directory"),
        FileErrorKind::PermissionDenied => String::from_str("Permission denied"),
        FileErrorKind::NotText => String::from_str("Has invalid data, likely not a text file"),
        FileErrorKind::Other(msg) => msg.clone(),
    }
}

/// The one-line diagnostic for a suppressed failure: the path and the reason.
pub open spec fn spec_diagnostic(kind: FileErrorKind, path: Seq<char>) -> Seq<char> {
    "grep: "@ + path + ": "@ + spec_error_message(kind)
}

/// Formats the one-line diagnostic identifying `path` and the reason it was
/// not scanned.
pub fn diagnostic(kind: &FileErrorKind, path: &str) -> (r: String)
    ensures
        r@ == spec_diagnostic(*kind, path@),
{
    let mut s = String::from_str("grep: ");
    s.append(path);
    s.append(": ");
    let msg = error_message(kind);
    s.append(msg.as_str());
    proof {
        assert(s@ =~= spec_diagnostic(*kind, path@));
    }
    s
}

/// The rendered display texts of the match lines, in order and unchanged:
/// presentation never renders a line a second time.
pub fn rendered_texts(lines: &Vec<MatchLine>) -> (r: Vec<String>)
    ensures
        r@.map_values(|s: String| s@) == lines@.map_values(|ml: MatchLine| ml@.rendered_text),
{
    let mut r: Vec<String> = Vec::new();
    let mut i: usize = 0;
    proof {
        assert(r@.map_values(|s: String| s@) =~= lines@.map_values(
            |ml: MatchLine| ml@.rendered_text,
        ).take(0));
    }
    while i < lines.len()
        invariant
            i <= lines@.len(),
            r@.map_values(|s: String| s@) == lines@.map_values(
                |ml: MatchLine| ml@.rendered_text,
            ).take(i as int),
        decreases lines@.len() - i,
    {
        proof {
            let texts = lines@.map_values(|ml: MatchLine| ml@.rendered_text);
            assert((r@.push(lines@[i as int].rendered_text)).map_values(|s: String| s@)
                =~= r@.map_values(|s: String| s@).push(lines@[i as int].rendered_text@));
            assert(texts.take(i + 1) =~= texts.take(i as int).push(texts[i as int]));
        }
        r.push(lines[i].rendered_text.clone());
        i = i + 1;
    }
    proof {
        let texts = lines@.map_values(|ml: MatchLine| ml@.rendered_text);
        assert(texts.take(lines@.len() as int) =~= texts);
    }
    r
}

/// The single-file display: the rendered lines joined with newlines, so zero
/// matches come out as the empty string, printed as one empty output line.
pub fn present_single(lines: &Vec<MatchLine>) -> (r: String)
    ensures
        r@ == spec_join(lines@.map_values(|ml: MatchLine| ml@.rendered_text), "\n"@),
        lines@.len() == 0 ==> r@.len() == 0,
{
    let texts = rendered_texts(lines);
    let r = join_strings(&texts, "\n");
    proof {
        if lines@.len() == 0 {
            assert(lines@.map_values(|ml: MatchLine| ml@.rendered_text).len() == 0);
        }
    }
    r
}

/// The display lines one outcome contributes in multi-file mode: a header
/// with the normalized path and the joined match lines for a file with at
/// least one match; nothing for an empty match list or a failure.
pub open spec fn spec_present_outcome(o: ScanOutcome) -> Seq<Seq<char>> {
    match o {
        ScanOutcome::Matches(lines) => if lines@.len() > 0 {
            seq![
                spec_normalize(lines@[0]@.source_path),
                spec_join(lines@.map_values(|ml: MatchLine| ml@.rendered_text), "\n"@),
            ]
        } else {
            Seq::empty()
        },
        ScanOutcome::Failure(_, _) => Seq::empty(),
    }
}

/// The display lines of a whole report, outcome by outcome in order.
pub open spec fn spec_present(outs: Seq<ScanOutcome>) -> Seq<Seq<char>>
    decreases outs.len(),
{
    if outs.len() == 0 {
        Seq::empty()
    } else {
        spec_present_outcome(outs[0]) + spec_present(outs.skip(1))
    }
}

/// Presenting one more outcome appends exactly its own display lines.
proof fn lemma_present_push(outs: Seq<ScanOutcome>, o: ScanOutcome)
    ensures
        spec_present(outs.push(o)) == spec_present(outs) + spec_present_outcome(o),
    decreases outs.len(),
{
    if outs.len() == 0 {
        assert(outs.push(o)[0] == o);
        assert(outs.push(o).skip(1) =~= Seq::<ScanOutcome>::empty());
        assert(spec_present(Seq::<ScanOutcome>::empty()) == Seq::<Seq<char>>::empty());
        assert(spec_present(outs.push(o)) == spec_present_outcome(o) + spec_present(
            Seq::<ScanOutcome>::empty(),
        ));
        assert(spec_present(outs.push(o)) =~= spec_present_outcome(o));
        assert(spec_present(outs) + spec_present_outcome(o) =~= spec_present_outcome(o));
    } else {
        lemma_present_push(outs.skip(1), o);
        assert(outs.push(o).skip(1) =~= outs.skip(1).push(o));
        assert(outs.push(o)[0] == outs[0]);
        assert(spec_present_outcome(outs[0]) + (spec_present(outs.skip(1))
            + spec_present_outcome(o)) =~= (spec_present_outcome(outs[0]) + spec_present(
            outs.skip(1),
        )) + spec_present_outcome(o));
    }
}

/// The diagnostics of a whole report: one line per failure outcome, in order.
pub open spec fn spec_failure_lines(outs: Seq<ScanOutcome>) -> Seq<Seq<char>>
    decreases outs.len(),
{
    if outs.len() == 0 {
        Seq::empty()
    } else {
        let head = match outs[0] {
            ScanOutcome::Failure(kind, path) => seq![spec_diagnostic(kind, path@)],
            ScanOutcome::Matches(_) => Seq::<Seq<char>>::empty(),
        };
        head + spec_failure_lines(outs.skip(1))
    }
}

/// One more outcome appends exactly its own diagnostic, if it is a failure.
proof fn lemma_failure_lines_push(outs: Seq<ScanOutcome>, o: ScanOutcome)
    ensures
        o is Failure ==> spec_failure_lines(outs.push(o)) == spec_failure_lines(outs) + seq![
            spec_diagnostic(o->Failure_0, o->Failure_1@),
        ],
        o is Matches ==> spec_failure_lines(outs.push(o)) == spec_failure_lines(outs),
    decreases outs.len(),
{
    let tail = match o {
        ScanOutcome::Failure(kind, path) => seq![spec_diagnostic(kind, path@)],
        ScanOutcome::Matches(_) => Seq::<Seq<char>>::empty(),
    };
    if outs.len() == 0 {
        assert(outs.push(o)[0] == o);
        assert(outs.push(o).skip(1) =~= Seq::<ScanOutcome>::empty());
        assert(spec_failure_lines(Seq::<ScanOutcome>::empty()) == Seq::<Seq<char>>::empty());
        assert(spec_failure_lines(outs.push(o)) == tail + spec_failure_lines(
            Seq::<ScanOutcome>::empty(),
        ));
        assert(spec_failure_lines(outs.push(o)) =~= tail);
        assert(spec_failure_lines(outs) + tail =~= tail);
    } else {
        lemma_failure_lines_push(outs.skip(1), o);
        assert(outs.push(o).skip(1) =~= outs.skip(1).push(o));
        assert(outs.push(o)[0] == outs[0]);
        let head = match outs[0] {
            ScanOutcome::Failure(kind, path) => seq![spec_diagnostic(kind, path@)],
            ScanOutcome::Matches(_) => Seq::<Seq<char>>::empty(),
        };
        assert(head + (spec_failure_lines(outs.skip(1)) + tail) =~= (head + spec_failure_lines(
            outs.skip(1),
        )) + tail);
    }
}

/// Formats a report for multi-file display: for every file with at least one
/// match, its normalized path header and its joined match lines; files with
/// no match, and failures, contribute no output here.
pub fn present_report(report: &TraversalReport) -> (r: Vec<String>)
    ensures
        r@.map_values(|s: String| s@) == spec_present(report.outcomes@),
{
    let mut r: Vec<String> = Vec::new();
    let mut i: usize = 0;
    proof {
        assert(report.outcomes@.take(0) =~= Seq::<ScanOutcome>::empty());
        assert(r@.map_values(|s: String| s@) =~= spec_present(report.outcomes@.take(0)));
    }
    while i < report.outcomes.len()
        invariant
            i <= report.outcomes@.len(),
            r@.map_values(|s: String| s@) == spec_present(report.outcomes@.take(i as int)),
        decreases report.outcomes@.len() - i,
    {
        proof {
            lemma_present_push(report.outcomes@.take(i as int), report.outcomes@[i as int]);
            assert(report.outcomes@.take(i + 1) =~= report.outcomes@.take(i as int).push(
                report.outcomes@[i as int],
            ));
        }
        match &report.outcomes[i] {
            ScanOutcome::Matches(lines) => {
                if lines.len() > 0 {
                    let header = normalize_path(lines[0].source_path.as_str());
                    let texts = rendered_texts(lines);
                    let block = join_strings(&texts, "\n");
                    proof {
                        let shown = spec_present_outcome(report.outcomes@[i as int]);
                        assert((r@.push(header).push(block)).map_values(|s: String| s@)
                            =~= r@.map_values(|s: String| s@) + shown);
                    }
                    r.push(header);
                    r.push(block);
                } else {
                    proof {
                        assert(r@.map_values(|s: String| s@) + spec_present_outcome(
                            report.outcomes@[i as int],
                        ) =~= r@.map_values(|s: String| s@));
                    }
                }
            },
            ScanOutcome::Failure(_, _) => {
                proof {
                    assert(r@.map_values(|s: String| s@) + spec_present_outcome(
                        report.outcomes@[i as int],
                    ) =~= r@.map_values(|s: String| s@));
                }
            },
        }
        i = i + 1;
    }
    proof {
        assert(report.outcomes@.take(report.outcomes@.len() as int) =~= report.outcomes@);
    }
    r
}

/// Formats the one-line diagnostics of every failure in the report, in
/// order, for the error channel.
pub fn present_failures(report: &TraversalReport) -> (r: Vec<String>)
    ensures
        r@.map_values(|s: String| s@) == spec_failure_lines(report.outcomes@),
{
    let mut r: Vec<String> = Vec::new();
    let mut i: usize = 0;
    proof {
        assert(report.outcomes@.take(0) =~= Seq::<ScanOutcome>::empty());
        assert(r@.map_values(|s: String| s@) =~= spec_failure_lines(report.outcomes@.take(0)));
    }
    while i < report.outcomes.len()
        invariant
            i <= report.outcomes@.len(),
            r@.map_values(|s: String| s@) == spec_failure_lines(report.outcomes@.take(i as int)),
        decreases report.outcomes@.len() - i,
    {
        proof {
            lemma_failure_lines_push(report.outcomes@.take(i as int), report.outcomes@[i as int]);
            assert(report.outcomes@.take(i + 1) =~= report.outcomes@.take(i as int).push(
                report.outcomes@[i as int],
            ));
        }
        match &report.outcomes[i] {
            ScanOutcome::Failure(kind, path) => {
                let line = diagnostic(kind, path.as_str());
                proof {
                    let o = report.outcomes@[i as int];
                    assert((r@.push(line)).map_values(|s: String| s@) =~= r@.map_values(
                        |s: String| s@,
                    ) + seq![spec_diagnostic(o->Failure_0, o->Failure_1@)]);
                }
                r.push(line);
            },
            ScanOutcome::Matches(_) => {},
        }
        i = i + 1;
    }
    proof {
        assert(report.outcomes@.take(report.outcomes@.len() as int) =~= report.outcomes@);
    }
    r
}

} // verus!
