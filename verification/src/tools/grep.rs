//! Content search with ripgrep: the arguments a search is run with, and the
//! report made from ripgrep's JSON output.
use crate::text::{
    chars_of, decimal, decimal_u64, extend, extend_str, lines, lines_exec, owned, string_of,
    trim, trim_chars, views,
};
use crate::tools::bash::lexer::push_string;
use crate::tools::json::{
    opt_view, read_rg_event, rg_event_fields,
    RgEventView,
};
use crate::tools::permissions::ToolPermissionDescriptor;
use std::path::PathBuf;
use vstd::prelude::*;

verus! {

#[derive(Debug, Clone, Copy, PartialEq, Eq, Structural)]
pub enum OutputMode {
    FilesWithMatches,
    Content,
    Count,
}

/// The output mode named by the `output_mode` argument.
pub open spec fn output_mode_named(name: Option<Seq<char>>) -> OutputMode {
    if name == Some("content"@) {
        OutputMode::Content
    } else if name == Some("count"@) {
        OutputMode::Count
    } else {
        OutputMode::FilesWithMatches
    }
}

pub struct GrepArgs {
    pub pattern: String,
    pub path: Option<String>,
    pub output_mode: Option<String>,
    pub glob: Option<String>,
    pub file_type: Option<String>,
    pub case_insensitive: Option<bool>,
    pub line_numbers: Option<bool>,
    pub after_context: Option<u32>,
    pub before_context: Option<u32>,
    pub context: Option<u32>,
    pub multiline: Option<bool>,
    pub head_limit: Option<u32>,
    pub offset: Option<u32>,
}

/// A flag that defaults when absent.
pub open spec fn flag_or(f: Option<bool>, default: bool) -> bool {
    match f {
        Some(b) => b,
        None => default,
    }
}

/// `name=value` for an option with a number.
pub open spec fn numbered(name: Seq<char>, n: u32) -> Seq<char> {
    name + decimal(n as nat)
}

/// The ripgrep arguments for an output mode.
pub open spec fn mode_args(a: GrepArgs) -> Seq<Seq<char>> {
    match output_mode_named(opt_view(a.output_mode)) {
        OutputMode::FilesWithMatches => seq!["--files-with-matches"@],
        OutputMode::Content => if flag_or(a.line_numbers, true) {
            seq!["--line-number"@]
        } else {
            seq!["--no-line-number"@]
        },
        OutputMode::Count => seq!["--count"@],
    }
}

/// The ripgrep arguments for context lines: `-C` wins over `-A` and `-B`.
pub open spec fn context_args(a: GrepArgs) -> Seq<Seq<char>> {
    match a.context {
        Some(c) => seq![numbered("--context="@, c)],
        None => {
            let after = match a.after_context {
                Some(n) => seq![numbered("--after-context="@, n)],
                None => Seq::empty(),
            };
            let before = match a.before_context {
                Some(n) => seq![numbered("--before-context="@, n)],
                None => Seq::empty(),
            };
            after + before
        },
    }
}

/// An option with a text value, when the value is given.
pub open spec fn valued(name: Seq<char>, value: Option<String>) -> Seq<Seq<char>> {
    match value {
        Some(v) => seq![name, v@],
        None => Seq::empty(),
    }
}

/// The full ripgrep argument list for a search.
pub open spec fn rg_args(a: GrepArgs) -> Seq<Seq<char>> {
    let case_args = if flag_or(a.case_insensitive, false) {
        seq!["--ignore-case"@]
    } else {
        Seq::empty()
    };
    let multiline_args = if flag_or(a.multiline, false) {
        seq!["--multiline"@]
    } else {
        Seq::empty()
    };
    let limit_args = match a.head_limit {
        Some(l) => seq!["--max-count"@, decimal(l as nat)],
        None => Seq::empty(),
    };
    let path = match a.path {
        Some(p) => p@,
        None => "."@,
    };
    seq!["--json"@] + mode_args(a) + case_args + context_args(a) + multiline_args + valued(
        "--glob"@,
        a.glob,
    ) + valued("--type"@, a.file_type) + limit_args + seq![a.pattern@, path]
}

impl GrepArgs {
    pub fn get_output_mode(&self) -> (r: OutputMode)
        ensures
            r == output_mode_named(opt_view(self.output_mode)),
    {
        match &self.output_mode {
            Some(m) => {
                let cs = chars_of(m.as_str());
                let content = chars_of("content");
                let count = chars_of("count");
                if crate::text::eq_chars(cs.as_slice(), content.as_slice()) {
                    OutputMode::Content
                } else if crate::text::eq_chars(cs.as_slice(), count.as_slice()) {
                    OutputMode::Count
                } else {
                    OutputMode::FilesWithMatches
                }
            },
            None => OutputMode::FilesWithMatches,
        }
    }

    pub fn should_show_line_numbers(&self) -> (r: bool)
        ensures
            r == flag_or(self.line_numbers, true),
    {
        match self.line_numbers {
            Some(b) => b,
            None => true,
        }
    }

    pub fn is_case_insensitive(&self) -> (r: bool)
        ensures
            r == flag_or(self.case_insensitive, false),
    {
        match self.case_insensitive {
            Some(b) => b,
            None => false,
        }
    }

    pub fn multiline_enabled(&self) -> (r: bool)
        ensures
            r == flag_or(self.multiline, false),
    {
        match self.multiline {
            Some(b) => b,
            None => false,
        }
    }
}

pub struct Match {
    pub path: String,
    pub line_number: Option<u32>,
    pub content: Option<String>,
    pub count: Option<u32>,
}

pub struct GrepResult {
    pub matches: Vec<Match>,
    pub total_count: usize,
    pub truncated: bool,
}

/// A match found in ripgrep output: file, line number and line text.
pub type Found = (Seq<char>, u64, Seq<char>);

/// The match one line of ripgrep output reports, if it reports one.
pub open spec fn reported_match(line: Seq<char>) -> Option<(Seq<char>, u64, Seq<char>)> {
    if trim(line).len() == 0 {
        None
    } else {
        match rg_event_fields(line) {
            Some(e) => if e.kind == Some("match"@) && e.path is Some && e.line_number is Some
                && e.text is Some {
                Some((e.path->0, e.line_number->0, e.text->0))
            } else {
                None
            },
            None => None,
        }
    }
}

/// The matches reported by a sequence of output lines, in order.
pub open spec fn found_matches(ls: Seq<Seq<char>>) -> Seq<(Seq<char>, u64, Seq<char>)>
    decreases ls.len(),
{
    if ls.len() == 0 {
        Seq::empty()
    } else {
        match reported_match(ls.last()) {
            Some(m) => found_matches(ls.drop_last()).push(m),
            None => found_matches(ls.drop_last()),
        }
    }
}

/// Whether a stored match is the one found.
pub open spec fn match_is(m: Match, f: (Seq<char>, u64, Seq<char>)) -> bool {
    &&& m.path@ == f.0
    &&& m.line_number == Some(f.1 as u32)
    &&& opt_view(m.content) == Some(f.2)
    &&& m.count is None
}

/// Whether a search report holds the matches found in `output`, after
/// skipping `offset` of them and keeping at most `limit`.
pub open spec fn is_search_report(
    r: GrepResult,
    output: Seq<char>,
    offset: Option<u32>,
    limit: Option<u32>,
) -> bool {
    let found = found_matches(lines(output));
    let skip: int = match offset {
        Some(o) => if o as int <= found.len() {
            o as int
        } else {
            found.len() as int
        },
        None => 0,
    };
    let rest = found.skip(skip);
    let kept = match limit {
        Some(l) => if rest.len() > l {
            rest.take(l as int)
        } else {
            rest
        },
        None => rest,
    };
    &&& r.total_count == found.len()
    &&& r.truncated == match limit {
        Some(l) => rest.len() > l,
        None => false,
    }
    &&& r.matches@.len() == kept.len()
    &&& forall|i: int| 0 <= i < kept.len() ==> match_is(#[trigger] r.matches@[i], kept[i])
}

/// How a search call is shown.
pub open spec fn grep_call_display(pattern: Option<Seq<char>>, path: Option<Seq<char>>) -> Seq<
    char,
> {
    match pattern {
        Some(p) => "Grep("@ + p + ", "@ + match path {
            Some(d) => d,
            None => "."@,
        } + ")"@,
        None => "Grep(...)"@,
    }
}

/// The one-line summary of a search report: how many matches it holds and
/// whether the list was cut, or `Search completed` when the report could
/// not be read (`None`).
pub open spec fn grep_summary(report: Option<(nat, bool)>) -> Seq<char> {
    match report {
        Some((n, truncated)) => "Found "@ + decimal(n) + (if n == 1 {
            " match"@
        } else {
            " matches"@
        }) + (if truncated {
            " (truncated)"@
        } else {
            Seq::empty()
        }),
        None => "Search completed"@,
    }
}

pub struct GrepTool {
    working_directory: PathBuf,
}

impl GrepTool {
    /// The directory searches run in.
    pub closed spec fn directory(&self) -> PathBuf {
        self.working_directory
    }

    pub fn with_working_directory(working_dir: PathBuf) -> (r: Self)
        ensures
            r.directory() == working_dir,
    {
        Self { working_directory: working_dir }
    }

    /// The directory searches run in.
    pub fn working_directory(&self) -> (r: &PathBuf)
        ensures
            *r == self.directory(),
    {
        &self.working_directory
    }

    pub fn name(&self) -> (r: &'static str)
        ensures
            r@ == "grep"@,
    {
        "grep"
    }

    pub fn display_name(&self) -> (r: &'static str)
        ensures
            r@ == "Grep"@,
    {
        "Grep"
    }

    pub fn description(&self) -> (r: &'static str)
        ensures
            r@ == "Search code using regex patterns. Built on ripgrep for fast, accurate searches across large codebases."@,
    {
        "Search code using regex patterns. Built on ripgrep for fast, accurate searches across large codebases."
    }

    /// The ripgrep arguments for a search (see [`rg_args`]); ripgrep runs
    /// them in the tool's directory.
    pub fn command_args(&self, args: &GrepArgs) -> (r: Vec<String>)
        ensures
            r.deep_view() == rg_args(*args),
    {
        let mut v: Vec<String> = Vec::new();
        push_string(&mut v, owned("--json"));
        append_strings(&mut v, mode_args_exec(args));
        let mut case_args: Vec<String> = Vec::new();
        if args.is_case_insensitive() {
            push_string(&mut case_args, owned("--ignore-case"));
        }
        append_strings(&mut v, case_args);
        append_strings(&mut v, context_args_exec(args));
        let mut multiline_args: Vec<String> = Vec::new();
        if args.multiline_enabled() {
            push_string(&mut multiline_args, owned("--multiline"));
        }
        append_strings(&mut v, multiline_args);
        append_strings(&mut v, valued_exec("--glob", &args.glob));
        append_strings(&mut v, valued_exec("--type", &args.file_type));
        let mut limit_args: Vec<String> = Vec::new();
        if let Some(limit) = args.head_limit {
            push_string(&mut limit_args, owned("--max-count"));
            let digits = decimal_u64(limit as u64);
            push_string(&mut limit_args, string_of(digits.as_slice()));
        }
        append_strings(&mut v, limit_args);
        let mut tail: Vec<String> = Vec::new();
        push_string(&mut tail, owned(args.pattern.as_str()));
        match &args.path {
            Some(p) => push_string(&mut tail, owned(p.as_str())),
            None => push_string(&mut tail, owned(".")),
        }
        append_strings(&mut v, tail);
        v
    }

    /// The search report for ripgrep's JSON output (see [`is_search_report`]).
    pub fn parse_output(&self, args: &GrepArgs, output: &str) -> (r: GrepResult)
        ensures
            is_search_report(r, output@, args.offset, args.head_limit),
    {
        let cs = chars_of(output);
        let ls = lines_exec(cs.as_slice());
        let ghost lv = views(ls@);
        let mut found: Vec<Match> = Vec::new();
        let mut i: usize = 0;
        while i < ls.len()
            invariant
                i <= ls@.len(),
                lv == views(ls@),
                lv == lines(output@),
                found@.len() == found_matches(lv.take(i as int)).len(),
                forall|j: int|
                    0 <= j < found@.len() ==> match_is(
                        #[trigger] found@[j],
                        found_matches(lv.take(i as int))[j],
                    ),
            decreases ls@.len() - i,
        {
            assert(lv.take(i + 1).drop_last() =~= lv.take(i as int));
            assert(lv.take(i + 1).last() == ls@[i as int]@);
            let line = string_of(ls[i].as_slice());
            let blank = trim_chars(ls[i].as_slice());
            if blank.len() > 0 {
                if let Some(e) = read_rg_event(line.as_str()) {
                    let is_match = match &e.kind {
                        Some(k) => {
                            let kc = chars_of(k.as_str());
                            let m = chars_of("match");
                            crate::text::eq_chars(kc.as_slice(), m.as_slice())
                        },
                        None => false,
                    };
                    if is_match {
                        match (e.path, e.line_number, e.text) {
                            (Some(p), Some(n), Some(t)) => {
                                found.push(
                                    Match {
                                        path: p,
                                        line_number: Some(#[verifier::truncate] (n as u32)),
                                        content: Some(t),
                                        count: None,
                                    },
                                );
                            },
                            _ => {},
                        }
                    }
                }
            }
            i += 1;
        }
        assert(lv.take(ls@.len() as int) =~= lv);
        let total_count = found.len();
        let offset: usize = match args.offset {
            Some(o) => if (o as usize) <= found.len() {
                o as usize
            } else {
                found.len()
            },
            None => 0,
        };
        let mut kept: Vec<Match> = Vec::new();
        let rest_len = found.len() - offset;
        let keep: usize = match args.head_limit {
            Some(l) => if rest_len > (l as usize) {
                l as usize
            } else {
                rest_len
            },
            None => rest_len,
        };
        let truncated = match args.head_limit {
            Some(l) => rest_len > (l as usize),
            None => false,
        };
        let ghost all = found_matches(lines(output@));
        let mut found = found;
        let mut j: usize = 0;
        while j < keep
            invariant
                j <= keep,
                offset + keep <= found.len(),
                found@.len() == all.len(),
                forall|m: int| 0 <= m < found@.len() ==> match_is(#[trigger] found@[m], all[m]),
                kept@.len() == j,
                forall|m: int| 0 <= m < j ==> match_is(#[trigger] kept@[m], all[offset + m]),
            decreases keep - j,
        {
            let m = take_match(&found, offset + j);
            kept.push(m);
            j += 1;
        }
        proof {
            let skip = offset as int;
            let rest = all.skip(skip);
            assert(rest.len() == rest_len);
            assert forall|m: int| 0 <= m < keep implies match_is(
                #[trigger] kept@[m],
                (if args.head_limit is Some && rest.len() > args.head_limit->0 {
                    rest.take(args.head_limit->0 as int)
                } else {
                    rest
                })[m],
            ) by {
                assert(rest[m] == all[offset + m]);
            }
        }
        GrepResult { matches: kept, total_count, truncated }
    }

    /// How a search call is shown (see [`grep_call_display`]).
    pub fn call_display(pattern: Option<&str>, path: Option<&str>) -> (r: String)
        ensures
            r@ == grep_call_display(
                match pattern {
                    Some(p) => Some(p@),
                    None => None,
                },
                match path {
                    Some(p) => Some(p@),
                    None => None,
                },
            ),
    {
        match pattern {
            Some(p) => {
                let mut r = chars_of("Grep(");
                extend_str(&mut r, p);
                extend_str(&mut r, ", ");
                match path {
                    Some(d) => extend_str(&mut r, d),
                    None => extend_str(&mut r, "."),
                }
                extend_str(&mut r, ")");
                string_of(r.as_slice())
            },
            None => owned("Grep(...)"),
        }
    }

    /// How a search call is shown, from its arguments: the pattern and path
    /// as [`GrepTool::call_display`] shows them, or `Grep(...)` when the
    /// arguments did not parse (`None`).
    pub fn format_call_display(&self, args: Option<&GrepArgs>) -> (r: String)
        ensures
            r@ == match args {
                Some(a) => grep_call_display(Some(a.pattern@), opt_view(a.path)),
                None => grep_call_display(None, None),
            },
    {
        match args {
            Some(a) => {
                let d = match &a.path {
                    Some(s) => Some(s.as_str()),
                    None => None,
                };
                Self::call_display(Some(a.pattern.as_str()), d)
            },
            None => Self::call_display(None, None),
        }
    }

    /// The one-line summary of a search report (see [`grep_summary`]);
    /// `None` when the report text did not parse as one.
    pub fn result_summary(&self, report: Option<&GrepResult>) -> (r: String)
        ensures
            r@ == grep_summary(
                match report {
                    Some(g) => Some((g.matches@.len(), g.truncated)),
                    None => None,
                },
            ),
    {
        match report {
            Some(g) => {
                let n = g.matches.len();
                let mut r = chars_of("Found ");
                extend(&mut r, crate::text::decimal_exec(n).as_slice());
                if n == 1 {
                    extend_str(&mut r, " match");
                } else {
                    extend_str(&mut r, " matches");
                }
                if g.truncated {
                    extend_str(&mut r, " (truncated)");
                } else {
                    assert(r@ + Seq::<char>::empty() =~= r@);
                }
                string_of(r.as_slice())
            },
            None => owned("Search completed"),
        }
    }

    /// The permission request for searching `target`: read-only, never
    /// destructive.
    pub fn describe_permission(&self, target: Option<&str>) -> (r: ToolPermissionDescriptor)
        ensures
            r.kind@ == "grep"@,
            r.target@ == match target {
                Some(t) => t@,
                None => "*"@,
            },
            r.read_only,
            !r.destructive,
    {
        let t: &str = match target {
            Some(t) => t,
            None => "*",
        };
        ToolPermissionDescriptor {
            kind: owned("grep"),
            target: owned(t),
            read_only: true,
            destructive: false,
            approval_title: None,
            approval_prompt: None,
            persistent_message: None,
            suggested_pattern: None,
            command_preview: None,
        }
    }
}

/// Appends the strings of `w` to `v`.
fn append_strings(v: &mut Vec<String>, w: Vec<String>)
    ensures
        final(v).deep_view() == old(v).deep_view() + w.deep_view(),
{
    let ghost start = v.deep_view();
    let ghost wv = w.deep_view();
    let mut i: usize = 0;
    while i < w.len()
        invariant
            i <= w@.len(),
            wv == w.deep_view(),
            v.deep_view() == start + wv.take(i as int),
        decreases w@.len() - i,
    {
        let ghost before = v.deep_view();
        v.push(owned(w[i].as_str()));
        assert(v.deep_view() =~= before.push(wv[i as int]));
        assert(wv.take(i + 1) =~= wv.take(i as int).push(wv[i as int]));
        i += 1;
    }
    assert(wv.take(w@.len() as int) =~= wv);
}

/// The ripgrep arguments for the output mode (see [`mode_args`]).
fn mode_args_exec(args: &GrepArgs) -> (r: Vec<String>)
    ensures
        r.deep_view() == mode_args(*args),
{
    let mut v: Vec<String> = Vec::new();
    match args.get_output_mode() {
        OutputMode::FilesWithMatches => push_string(&mut v, owned("--files-with-matches")),
        OutputMode::Content => {
            if args.should_show_line_numbers() {
                push_string(&mut v, owned("--line-number"));
            } else {
                push_string(&mut v, owned("--no-line-number"));
            }
        },
        OutputMode::Count => push_string(&mut v, owned("--count")),
    }
    assert(v.deep_view() =~= mode_args(*args));
    v
}

/// The ripgrep arguments for context lines (see [`context_args`]).
fn context_args_exec(args: &GrepArgs) -> (r: Vec<String>)
    ensures
        r.deep_view() == context_args(*args),
{
    let mut v: Vec<String> = Vec::new();
    match args.context {
        Some(c) => push_string(&mut v, numbered_exec("--context=", c)),
        None => {
            if let Some(after) = args.after_context {
                push_string(&mut v, numbered_exec("--after-context=", after));
            }
            if let Some(before) = args.before_context {
                push_string(&mut v, numbered_exec("--before-context=", before));
            }
        },
    }
    assert(v.deep_view() =~= context_args(*args));
    v
}

/// An option with a text value, when the value is given (see [`valued`]).
fn valued_exec(name: &str, value: &Option<String>) -> (r: Vec<String>)
    ensures
        r.deep_view() == valued(name@, *value),
{
    let mut v: Vec<String> = Vec::new();
    if let Some(x) = value {
        push_string(&mut v, owned(name));
        push_string(&mut v, owned(x.as_str()));
    }
    assert(v.deep_view() =~= valued(name@, *value));
    v
}

/// `name` followed by the decimal digits of `n`.
fn numbered_exec(name: &str, n: u32) -> (r: String)
    ensures
        r@ == numbered(name@, n),
{
    let mut r = chars_of(name);
    let digits = decimal_u64(n as u64);
    extend(&mut r, digits.as_slice());
    string_of(r.as_slice())
}

/// A copy of the match at index `i`.
fn take_match(found: &Vec<Match>, i: usize) -> (r: Match)
    requires
        i < found@.len(),
    ensures
        r.path@ == found@[i as int].path@,
        r.line_number == found@[i as int].line_number,
        opt_view(r.content) == opt_view(found@[i as int].content),
        r.count == found@[i as int].count,
{
    let m = &found[i];
    Match {
        path: owned(m.path.as_str()),
        line_number: m.line_number,
        content: match &m.content {
            Some(c) => Some(owned(c.as_str())),
            None => None,
        },
        count: m.count,
    }
}

/// A search report never holds more matches than it counts, and it is
/// marked truncated exactly when the limit cut matches off, in which case it
/// holds exactly the limit.
pub proof fn law_search_report_bounds(
    r: GrepResult,
    output: Seq<char>,
    offset: Option<u32>,
    limit: Option<u32>,
)
    requires
        is_search_report(r, output, offset, limit),
    ensures
        r.matches@.len() <= r.total_count,
        r.truncated ==> limit is Some && r.matches@.len() == limit->0,
        limit is Some ==> r.matches@.len() <= limit->0,
{
}

} // verus!
