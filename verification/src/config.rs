//! Configuration: the strongly-typed record that one invocation runs under,
//! and the verified passes that recognise command-line flags. The first
//! argument is the program name, so flag recognition starts at index 1.

use vstd::prelude::*;
use crate::strutil::all_digits;
use crate::strutil::digits_value;
use crate::strutil::parse_usize;
use crate::strutil::str_eq;

verus! {

/// Everything one invocation runs under, built once and never mutated.
/// `max_matches` of zero means unbounded.
pub struct Configuration {
    pub pattern: String,
    pub targets: Vec<String>,
    pub ignore_case: bool,
    pub show_line_number: bool,
    pub highlight_matches: bool,
    pub recursive: bool,
    pub max_matches: usize,
}

impl Configuration {
    /// A configuration the core accepts: a pattern and at least one target,
    /// both non-empty. Violations are rejected by the argument parser and
    /// never reach the core.
    pub open spec fn well_formed(&self) -> bool {
        &&& self.pattern@.len() > 0
        &&& self.targets@.len() > 0
    }
}

/// The boolean flags recognised on the command line, each true exactly when
/// one of its spellings occurs among the arguments.
#[derive(Clone, Copy, Debug, PartialEq, Eq, Structural)]
pub struct FlagOptions {
    pub ignore_case: bool,
    pub line_number: bool,
    pub help: bool,
    pub version: bool,
    pub should_show_colour: bool,
    pub recursive: bool,
}

/// A spelling of the case-insensitivity flag.
pub open spec fn is_ignore_case_flag(s: Seq<char>) -> bool {
    s == "-i"@ || s == "--ignore-case"@
}

/// A spelling of the line-number flag.
pub open spec fn is_line_number_flag(s: Seq<char>) -> bool {
    s == "-n"@ || s == "--line-number"@
}

/// The help flag.
pub open spec fn is_help_flag(s: Seq<char>) -> bool {
    s == "--help"@
}

/// A spelling of the version flag.
pub open spec fn is_version_flag(s: Seq<char>) -> bool {
    s == "-V"@ || s == "--version"@
}

/// A spelling of the highlight flag.
pub open spec fn is_colour_flag(s: Seq<char>) -> bool {
    s == "-c"@ || s == "--colour"@
}

/// A spelling of the recursive flag.
pub open spec fn is_recursive_flag(s: Seq<char>) -> bool {
    s == "-r"@ || s == "--recursive"@
}

/// The match-limit flag, whose following argument carries the limit.
pub open spec fn is_max_flag(s: Seq<char>) -> bool {
    s == "-m"@
}

/// Recognises the boolean flags among `args`, the program name at index 0
/// excluded: each flag is set exactly when one of its spellings occurs.
pub fn parse_options_bool(args: &Vec<String>) -> (r: FlagOptions)
    ensures
        r.ignore_case == exists|i: int|
            1 <= i < args@.len() && is_ignore_case_flag(#[trigger] args@[i]@),
        r.line_number == exists|i: int|
            1 <= i < args@.len() && is_line_number_flag(#[trigger] args@[i]@),
        r.help == exists|i: int| 1 <= i < args@.len() && is_help_flag(#[trigger] args@[i]@),
        r.version == exists|i: int| 1 <= i < args@.len() && is_version_flag(#[trigger] args@[i]@),
        r.should_show_colour == exists|i: int|
            1 <= i < args@.len() && is_colour_flag(#[trigger] args@[i]@),
        r.recursive == exists|i: int|
            1 <= i < args@.len() && is_recursive_flag(#[trigger] args@[i]@),
{
    let mut r = FlagOptions {
        ignore_case: false,
        line_number: false,
        help: false,
        version: false,
        should_show_colour: false,
        recursive: false,
    };
    let mut i: usize = 1;
    while i < args.len()
        invariant
            1 <= i <= args@.len() || (args@.len() == 0 && i == 1),
            r.ignore_case == exists|j: int|
                1 <= j < i && is_ignore_case_flag(#[trigger] args@[j]@),
            r.line_number == exists|j: int|
                1 <= j < i && is_line_number_flag(#[trigger] args@[j]@),
            r.help == exists|j: int| 1 <= j < i && is_help_flag(#[trigger] args@[j]@),
            r.version == exists|j: int| 1 <= j < i && is_version_flag(#[trigger] args@[j]@),
            r.should_show_colour == exists|j: int|
                1 <= j < i && is_colour_flag(#[trigger] args@[j]@),
            r.recursive == exists|j: int| 1 <= j < i && is_recursive_flag(#[trigger] args@[j]@),
        decreases args@.len() - i,
    {
        let a = args[i].as_str();
        if str_eq(a, "-i") || str_eq(a, "--ignore-case") {
            r.ignore_case = true;
        }
        if str_eq(a, "-n") || str_eq(a, "--line-number") {
            r.line_number = true;
        }
        if str_eq(a, "--help") {
            r.help = true;
        }
        if str_eq(a, "-V") || str_eq(a, "--version") {
            r.version = true;
        }
        if str_eq(a, "-c") || str_eq(a, "--colour") {
            r.should_show_colour = true;
        }
        if str_eq(a, "-r") || str_eq(a, "--recursive") {
            r.recursive = true;
        }
        i = i + 1;
    }
    r
}

/// The match limit that `args` ask for: the value of the numeral after the
/// last `-m`, or zero (unbounded) when no `-m` occurs before `i`.
pub open spec fn spec_max_matches(args: Seq<Seq<char>>, i: int) -> nat
    decreases i,
{
    if i <= 1 || i > args.len() {
        0
    } else if is_max_flag(args[i - 1]) && i < args.len() {
        digits_value(args[i])
    } else {
        spec_max_matches(args, i - 1)
    }
}

/// Whether every `-m` among the arguments is followed by a decimal numeral
/// whose value fits in `usize`.
pub open spec fn max_flags_well_formed(args: Seq<Seq<char>>) -> bool {
    forall|i: int|
        1 <= i < args.len() && is_max_flag(#[trigger] args[i]) ==> i + 1 < args.len()
            && all_digits(args[i + 1]) && digits_value(args[i + 1]) <= usize::MAX
}

/// The views of the argument strings.
pub open spec fn arg_views(args: Seq<String>) -> Seq<Seq<char>> {
    args.map_values(|s: String| s@)
}

/// Reads the match limit from `args`: the numeral after the last `-m` wins,
/// and zero (the default) stands for unbounded. Every `-m` must be followed
/// by a decimal numeral that fits in `usize`; a caller that cannot promise
/// that checks first and fails its own way, since nothing sensible can be
/// returned for a malformed limit.
pub fn parse_options_int(args: &Vec<String>) -> (r: usize)
    requires
        max_flags_well_formed(arg_views(args@)),
    ensures
        r == spec_max_matches(arg_views(args@), args@.len() as int),
{
    let mut r: usize = 0;
    let mut i: usize = 1;
    while i < args.len()
        invariant
            max_flags_well_formed(arg_views(args@)),
            1 <= i <= args@.len() || (args@.len() == 0 && i == 1),
            r == spec_max_matches(arg_views(args@), i as int),
        decreases args@.len() - i,
    {
        if str_eq(args[i].as_str(), "-m") {
            assert(is_max_flag(arg_views(args@)[i as int]));
            r = parse_usize(args[i + 1].as_str());
        }
        i = i + 1;
    }
    r
}

} // verus!
