//! The line scanner: splits content on newline boundaries (an empty trailing
//! segment after a final newline counts as a line), tests each line against
//! the compiled matcher, and collects the matching lines in order, each
//! rendered once with its optional line-number prefix and optional highlight
//! markup, subject to the match-limit cutoff.

use vstd::prelude::*;
use vstd::string::StrSliceExecFns;
use vstd::string::StringExecFns;
use crate::matcher::CompiledMatcher;
use crate::matcher::regex_is_match;
use crate::matcher::regex_matches;
use crate::matcher::regex_replace_all;
use crate::matcher::replaced_of;
use crate::strutil::spec_digits;
use crate::strutil::usize_to_string;

verus! {

/// The segments of `content` split on `'\n'`: always one more segment than
/// there are newlines, so content ending in a newline ends in an empty line.
pub open spec fn spec_lines(content: Seq<char>) -> Seq<Seq<char>>
    decreases content.len(),
{
    if content.len() == 0 {
        seq![Seq::<char>::empty()]
    } else if content[0] == '\n' {
        seq![Seq::<char>::empty()] + spec_lines(content.skip(1))
    } else {
        let rest = spec_lines(content.skip(1));
        seq![seq![content[0]] + rest[0]] + rest.skip(1)
    }
}

/// Splitting always yields at least one segment.
proof fn lemma_lines_nonempty(content: Seq<char>)
    ensures
        spec_lines(content).len() >= 1,
    decreases content.len(),
{
    if content.len() == 0 {
    } else if content[0] == '\n' {
        lemma_lines_nonempty(content.skip(1));
    } else {
        lemma_lines_nonempty(content.skip(1));
    }
}

/// A newline-free prefix extends the first segment of what follows it.
proof fn lemma_lines_prefix(p: Seq<char>, s: Seq<char>)
    requires
        forall|k: int| 0 <= k < p.len() ==> p[k] != '\n',
    ensures
        spec_lines(p + s) == seq![p + spec_lines(s)[0]] + spec_lines(s).skip(1),
    decreases p.len(),
{
    lemma_lines_nonempty(s);
    if p.len() == 0 {
        assert(p + s =~= s);
        assert(p + spec_lines(s)[0] =~= spec_lines(s)[0]);
        assert(seq![spec_lines(s)[0]] + spec_lines(s).skip(1) =~= spec_lines(s));
    } else {
        assert((p + s).len() > 0);
        assert((p + s)[0] == p[0]);
        assert(p[0] != '\n');
        assert((p + s).skip(1) =~= p.skip(1) + s);
        lemma_lines_prefix(p.skip(1), s);
        let rest = spec_lines((p + s).skip(1));
        assert(rest == seq![p.skip(1) + spec_lines(s)[0]] + spec_lines(s).skip(1));
        assert(seq![(p + s)[0]] + rest[0] =~= p + spec_lines(s)[0]);
        assert(spec_lines(p + s) == seq![seq![(p + s)[0]] + rest[0]] + rest.skip(1));
        assert(rest.skip(1) =~= spec_lines(s).skip(1));
        assert(seq![seq![(p + s)[0]] + rest[0]] + rest.skip(1) =~= seq![p + spec_lines(s)[0]]
            + spec_lines(s).skip(1));
    }
}

/// A newline-free text is a single segment.
proof fn lemma_lines_no_newline(p: Seq<char>)
    requires
        forall|k: int| 0 <= k < p.len() ==> p[k] != '\n',
    ensures
        spec_lines(p) == seq![p],
{
    lemma_lines_prefix(p, Seq::<char>::empty());
    assert(p + Seq::<char>::empty() =~= p);
    assert(spec_lines(Seq::<char>::empty()) == seq![Seq::<char>::empty()]);
    assert(seq![p + spec_lines(Seq::<char>::empty())[0]] + spec_lines(
        Seq::<char>::empty(),
    ).skip(1) =~= seq![p]);
}

/// Splits `content` into its lines on the newline boundary.
pub fn split_lines(content: &str) -> (r: Vec<String>)
    ensures
        r@.map_values(|s: String| s@) == spec_lines(content@),
{
    let n = content.unicode_len();
    let mut lines: Vec<String> = Vec::new();
    let mut start: usize = 0;
    let mut i: usize = 0;
    proof {
        assert(content@.skip(0) =~= content@);
        assert(lines@.map_values(|s: String| s@) + spec_lines(content@) =~= spec_lines(content@));
    }
    while i < n
        invariant
            n == content@.len(),
            start <= i <= n,
            forall|k: int| start <= k < i ==> content@[k] != '\n',
            spec_lines(content@) == lines@.map_values(|s: String| s@) + spec_lines(
                content@.skip(start as int),
            ),
        decreases n - i,
    {
        let c = content.get_char(i);
        if c == '\n' {
            let seg = String::from_str(content.substring_char(start, i));
            proof {
                let sub = content@.subrange(start as int, i as int);
                let tail = content@.skip(i as int);
                assert(content@.skip(start as int) =~= sub + tail);
                lemma_lines_prefix(sub, tail);
                assert(tail[0] == '\n');
                assert(tail.skip(1) =~= content@.skip(i + 1));
                assert(spec_lines(tail) == seq![Seq::<char>::empty()] + spec_lines(
                    content@.skip(i + 1),
                ));
                assert(sub + spec_lines(tail)[0] =~= sub);
                assert(spec_lines(tail).skip(1) =~= spec_lines(content@.skip(i + 1)));
                assert(spec_lines(content@.skip(start as int)) =~= seq![sub] + spec_lines(
                    content@.skip(i + 1),
                ));
                assert((lines@.push(seg)).map_values(|s: String| s@) =~= lines@.map_values(
                    |s: String| s@,
                ).push(sub));
                assert(lines@.map_values(|s: String| s@).push(sub) + spec_lines(
                    content@.skip(i + 1),
                ) =~= lines@.map_values(|s: String| s@) + (seq![sub] + spec_lines(
                    content@.skip(i + 1),
                )));
            }
            lines.push(seg);
            start = i + 1;
        }
        i = i + 1;
    }
    let seg = String::from_str(content.substring_char(start, n));
    proof {
        let sub = content@.subrange(start as int, n as int);
        assert(content@.skip(start as int) =~= sub);
        lemma_lines_no_newline(sub);
        assert((lines@.push(seg)).map_values(|s: String| s@) =~= lines@.map_values(
            |s: String| s@,
        ).push(sub));
        assert(lines@.map_values(|s: String| s@).push(sub) =~= lines@.map_values(|s: String| s@)
            + seq![sub]);
    }
    lines.push(seg);
    lines
}

/// One output line: where it came from, its 1-based index, the unmodified
/// line text, and the display text rendered exactly once from it.
#[derive(Debug)]
pub struct MatchLine {
    pub source_path: String,
    pub line_index: usize,
    pub raw_text: String,
    pub rendered_text: String,
}

/// The mathematical shadow of a `MatchLine`.
pub struct MatchLineModel {
    pub source_path: Seq<char>,
    pub line_index: int,
    pub raw_text: Seq<char>,
    pub rendered_text: Seq<char>,
}

impl View for MatchLine {
    type V = MatchLineModel;

    open spec fn view(&self) -> MatchLineModel {
        MatchLineModel {
            source_path: self.source_path@,
            line_index: self.line_index as int,
            raw_text: self.raw_text@,
            rendered_text: self.rendered_text@,
        }
    }
}

/// The per-scan switches: line-number prefixes, highlight markup, and the
/// match limit (zero means unbounded).
#[derive(Clone, Copy, Debug, PartialEq, Eq, Structural)]
pub struct ScanOptions {
    pub show_line_number: bool,
    pub highlight_matches: bool,
    pub max_matches: usize,
}

/// The replacement template that wraps a matched span in terminal highlight
/// markers, reproducing the span itself.
pub open spec fn spec_highlight_template() -> Seq<char> {
    "\u{1b}[31m$0\u{1b}[0m"@
}

/// The executable highlight template.
pub fn highlight_template() -> (r: &'static str)
    ensures
        r@ == spec_highlight_template(),
{
    "\u{1b}[31m$0\u{1b}[0m"
}

/// The display text of a matching line: the optional `index:` prefix and the
/// line text, with every matched span highlighted when so configured.
pub open spec fn spec_render(pat: Seq<char>, line: Seq<char>, idx: int, opts: ScanOptions) -> Seq<
    char,
> {
    let base = if opts.show_line_number {
        spec_digits(idx as nat) + ":"@ + line
    } else {
        line
    };
    if opts.highlight_matches {
        replaced_of(pat, base, spec_highlight_template())
    } else {
        base
    }
}

/// The model of the output line built for line `idx` of a scan of `path`.
pub open spec fn spec_match_line(
    path: Seq<char>,
    idx: int,
    line: Seq<char>,
    pat: Seq<char>,
    opts: ScanOptions,
) -> MatchLineModel {
    MatchLineModel {
        source_path: path,
        line_index: idx,
        raw_text: line,
        rendered_text: spec_render(pat, line, idx, opts),
    }
}

/// The output of scanning `lines` from line `i` on, with `count` matches
/// already collected: every matching line in order, until the count strictly
/// exceeds a non-zero match limit, which admits one surplus match beyond the
/// stated limit.
pub open spec fn spec_scan(
    pat: Seq<char>,
    lines: Seq<Seq<char>>,
    path: Seq<char>,
    opts: ScanOptions,
    i: int,
    count: int,
) -> Seq<MatchLineModel>
    decreases lines.len() - i,
{
    if i >= lines.len() {
        Seq::empty()
    } else if opts.max_matches > 0 && count > opts.max_matches {
        Seq::empty()
    } else if regex_matches(pat, lines[i]) {
        seq![spec_match_line(path, i + 1, lines[i], pat, opts)] + spec_scan(
            pat,
            lines,
            path,
            opts,
            i + 1,
            count + 1,
        )
    } else {
        spec_scan(pat, lines, path, opts, i + 1, count)
    }
}

/// Renders the display text of matching line `idx`, once, from its raw text.
fn render_line(m: &CompiledMatcher, line: &str, idx: usize, opts: &ScanOptions) -> (r: String)
    ensures
        r@ == spec_render(m.pat(), line@, idx as int, *opts),
{
    let base: String = if opts.show_line_number {
        let mut s = usize_to_string(idx);
        s.append(":");
        s.append(line);
        proof {
            assert(s@ =~= spec_digits(idx as nat) + ":"@ + line@);
        }
        s
    } else {
        String::from_str(line)
    };
    if opts.highlight_matches {
        regex_replace_all(m, base.as_str(), highlight_template())
    } else {
        base
    }
}

/// Scans `content` line by line with the compiled matcher, collecting every
/// matching line in order as a rendered `MatchLine` for `path`, until a
/// non-zero match limit is strictly exceeded.
pub fn scan(content: &str, m: &CompiledMatcher, path: &str, opts: &ScanOptions) -> (r: Vec<
    MatchLine,
>)
    ensures
        r@.map_values(|ml: MatchLine| ml@) == spec_scan(
            m.pat(),
            spec_lines(content@),
            path@,
            *opts,
            0,
            0,
        ),
{
    let lines = split_lines(content);
    let ghost lseq = spec_lines(content@);
    let mut results: Vec<MatchLine> = Vec::new();
    let mut i: usize = 0;
    while i < lines.len() && (opts.max_matches == 0 || results.len() <= opts.max_matches)
        invariant
            lines@.map_values(|s: String| s@) == lseq,
            i <= lines@.len(),
            results@.len() <= i,
            spec_scan(m.pat(), lseq, path@, *opts, 0, 0) == results@.map_values(|ml: MatchLine| ml@)
                + spec_scan(m.pat(), lseq, path@, *opts, i as int, results@.len() as int),
        decreases lines@.len() - i,
    {
        let line = &lines[i];
        assert(line@ == lseq[i as int]);
        if regex_is_match(m, line.as_str()) {
            let rendered = render_line(m, line.as_str(), i + 1, opts);
            let ml = MatchLine {
                source_path: String::from_str(path),
                line_index: i + 1,
                raw_text: line.clone(),
                rendered_text: rendered,
            };
            proof {
                let prev = results@.map_values(|ml2: MatchLine| ml2@);
                let here = spec_match_line(path@, i + 1, lseq[i as int], m.pat(), *opts);
                assert(ml@ == here);
                assert(spec_scan(m.pat(), lseq, path@, *opts, i as int, results@.len() as int)
                    == seq![here] + spec_scan(
                    m.pat(),
                    lseq,
                    path@,
                    *opts,
                    i + 1,
                    results@.len() as int + 1,
                ));
                assert((results@.push(ml)).map_values(|ml2: MatchLine| ml2@) =~= prev.push(ml@));
                assert(prev.push(here) + spec_scan(
                    m.pat(),
                    lseq,
                    path@,
                    *opts,
                    i + 1,
                    results@.len() as int + 1,
                ) =~= prev + (seq![here] + spec_scan(
                    m.pat(),
                    lseq,
                    path@,
                    *opts,
                    i + 1,
                    results@.len() as int + 1,
                )));
            }
            results.push(ml);
        }
        i = i + 1;
    }
    proof {
        assert(spec_scan(m.pat(), lseq, path@, *opts, i as int, results@.len() as int)
            == Seq::<MatchLineModel>::empty());
        assert(results@.map_values(|ml: MatchLine| ml@) + Seq::<MatchLineModel>::empty()
            =~= results@.map_values(|ml: MatchLine| ml@));
    }
    results
}

/// No scan with a non-zero match limit collects more than the limit plus the
/// single documented surplus match.
pub proof fn lemma_scan_match_limit(
    pat: Seq<char>,
    lines: Seq<Seq<char>>,
    path: Seq<char>,
    opts: ScanOptions,
)
    requires
        opts.max_matches > 0,
    ensures
        spec_scan(pat, lines, path, opts, 0, 0).len() <= opts.max_matches + 1,
{
    lemma_scan_cutoff(pat, lines, path, opts, 0, 0);
}

/// When every line matches and there are more lines than a non-zero match
/// limit, the scan yields exactly the limit plus the one documented surplus
/// match: the cutoff fires only after the count strictly exceeds the limit.
pub proof fn lemma_scan_exact_surplus(
    pat: Seq<char>,
    lines: Seq<Seq<char>>,
    path: Seq<char>,
    opts: ScanOptions,
)
    requires
        opts.max_matches > 0,
        lines.len() >= opts.max_matches + 1,
        forall|k: int| 0 <= k < lines.len() ==> regex_matches(pat, #[trigger] lines[k]),
    ensures
        spec_scan(pat, lines, path, opts, 0, 0).len() == opts.max_matches + 1,
{
    lemma_scan_exact_from(pat, lines, path, opts, 0, 0);
}

/// The exact count, generalised over the scan position and running count.
proof fn lemma_scan_exact_from(
    pat: Seq<char>,
    lines: Seq<Seq<char>>,
    path: Seq<char>,
    opts: ScanOptions,
    i: int,
    count: int,
)
    requires
        opts.max_matches > 0,
        0 <= i,
        0 <= count <= opts.max_matches,
        lines.len() - i >= opts.max_matches + 1 - count,
        forall|k: int| 0 <= k < lines.len() ==> regex_matches(pat, #[trigger] lines[k]),
    ensures
        spec_scan(pat, lines, path, opts, i, count).len() == opts.max_matches + 1 - count,
    decreases lines.len() - i,
{
    assert(i < lines.len());
    assert(regex_matches(pat, lines[i]));
    if count + 1 <= opts.max_matches {
        lemma_scan_exact_from(pat, lines, path, opts, i + 1, count + 1);
    } else {
        assert(spec_scan(pat, lines, path, opts, i + 1, count + 1).len() == 0);
    }
}

/// The cutoff bound, generalised over the scan position and running count.
proof fn lemma_scan_cutoff(
    pat: Seq<char>,
    lines: Seq<Seq<char>>,
    path: Seq<char>,
    opts: ScanOptions,
    i: int,
    count: int,
)
    requires
        opts.max_matches > 0,
        0 <= count <= opts.max_matches + 1,
    ensures
        spec_scan(pat, lines, path, opts, i, count).len() + count <= opts.max_matches + 1,
    decreases lines.len() - i,
{
    if i >= lines.len() {
    } else if count > opts.max_matches {
    } else if regex_matches(pat, lines[i]) {
        lemma_scan_cutoff(pat, lines, path, opts, i + 1, count + 1);
    } else {
        lemma_scan_cutoff(pat, lines, path, opts, i + 1, count);
    }
}

} // verus!
