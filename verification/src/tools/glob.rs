//! File search by glob pattern: which of the walked files match, in what
//! order they are reported, and how a search is shown.
use crate::text::{chars_of, decimal, extend, extend_str, owned, string_of};
use crate::tools::json::opt_view;
use crate::tools::permissions::ToolPermissionDescriptor;
use vstd::prelude::*;

verus! {

/// What `glob::Pattern::new` makes of a pattern text: `Ok` when it is a
/// valid pattern, else the text of the error it reports.
pub uninterp spec fn glob_compile(pattern: Seq<char>) -> Result<(), Seq<char>>;

/// What `glob::Pattern::matches` answers for a (valid) pattern and a path.
pub uninterp spec fn glob_matches(pattern: Seq<char>, path: Seq<char>) -> bool;

/// Compiles a glob pattern (`glob::Pattern::new`), keeping only whether it
/// compiled and, if not, the error's text; both are the crate's
/// deterministic answer for the pattern, named [`glob_compile`].
#[verifier::external_body]
fn compile_glob(pattern: &str) -> (r: Result<(), String>)
    ensures
        match r {
            Ok(_) => glob_compile(pattern@) is Ok,
            Err(e) => glob_compile(pattern@) == Err::<(), Seq<char>>(e@),
        },
{
    match glob::Pattern::new(pattern) {
        Ok(_) => Ok(()),
        Err(e) => Err(e.to_string()),
    }
}

/// Whether a path matches a glob pattern (`glob::Pattern::new`, then
/// `Pattern::matches`): the crate's answer, named [`glob_matches`], for a
/// pattern that compiles, and `false` for one that does not.
#[verifier::external_body]
fn glob_match(pattern: &str, path: &str) -> (r: bool)
    ensures
        r == (glob_compile(pattern@) is Ok && glob_matches(pattern@, path@)),
{
    match glob::Pattern::new(pattern) {
        Ok(p) => p.matches(path),
        Err(_) => false,
    }
}

/// A file found by a search, with its modification time in seconds since
/// the Unix epoch when known.
pub struct FileMatch {
    pub path: String,
    pub modified: Option<i64>,
}

impl View for FileMatch {
    type V = (Seq<char>, Option<i64>);

    open spec fn view(&self) -> (Seq<char>, Option<i64>) {
        (self.path@, self.modified)
    }
}

/// The views of a list of file matches.
pub open spec fn match_views(v: Seq<FileMatch>) -> Seq<(Seq<char>, Option<i64>)> {
    Seq::new(v.len(), |i: int| v[i]@)
}

/// Whether a file with modification time `y` is listed after one with `x`:
/// files without a time first, then newer files before older ones.
pub open spec fn listed_after(y: Option<i64>, x: Option<i64>) -> bool {
    match (y, x) {
        (Some(_), None) => true,
        (Some(a), Some(b)) => a < b,
        _ => false,
    }
}

/// `x` inserted into `s` before the first element listed after it.
pub open spec fn insert_by_recency(
    s: Seq<(Seq<char>, Option<i64>)>,
    x: (Seq<char>, Option<i64>),
) -> Seq<(Seq<char>, Option<i64>)>
    decreases s.len(),
{
    if s.len() == 0 {
        seq![x]
    } else if listed_after(s[0].1, x.1) {
        seq![x] + s
    } else {
        seq![s[0]] + insert_by_recency(s.drop_first(), x)
    }
}

/// Stable sort: files without a time first, then newest first.
pub open spec fn sort_by_recency(s: Seq<(Seq<char>, Option<i64>)>) -> Seq<(Seq<char>, Option<i64>)>
    decreases s.len(),
{
    if s.len() == 0 {
        Seq::empty()
    } else {
        insert_by_recency(sort_by_recency(s.drop_last()), s.last())
    }
}

/// The files of `s` whose path matches `pattern`, in order.
pub open spec fn matching_files(pattern: Seq<char>, s: Seq<(Seq<char>, Option<i64>)>) -> Seq<
    (Seq<char>, Option<i64>),
>
    decreases s.len(),
{
    if s.len() == 0 {
        Seq::empty()
    } else if glob_matches(pattern, s.last().0) {
        matching_files(pattern, s.drop_last()).push(s.last())
    } else {
        matching_files(pattern, s.drop_last())
    }
}

/// How a glob call is shown.
pub open spec fn glob_call_display(pattern: Option<Seq<char>>, path: Option<Seq<char>>) -> Seq<
    char,
> {
    match pattern {
        Some(p) => "Glob("@ + p + ", "@ + match path {
            Some(d) => d,
            None => "."@,
        } + ")"@,
        None => "Glob(...)"@,
    }
}

/// A glob report: the files found, and how many there are.
pub struct GlobResult {
    pub matches: Vec<FileMatch>,
    pub total_count: usize,
}

/// The one-line summary of a glob report: its file count, or `Search
/// completed` when the report could not be read (`None`).
pub open spec fn glob_summary(total_count: Option<usize>) -> Seq<char> {
    match total_count {
        Some(t) => "Found "@ + decimal(t as nat) + (if t == 1 {
            " file"@
        } else {
            " files"@
        }),
        None => "Search completed"@,
    }
}

/// The arguments of a glob call: the pattern, and the directory searched
/// (the working directory when absent).
pub struct GlobArgs {
    pub pattern: String,
    pub path: Option<String>,
}

pub struct GlobTool;

impl GlobTool {
    pub fn new() -> (r: Self) {
        Self
    }

    pub fn name(&self) -> (r: &'static str)
        ensures
            r@ == "glob"@,
    {
        "glob"
    }

    pub fn display_name(&self) -> (r: &'static str)
        ensures
            r@ == "Glob"@,
    {
        "Glob"
    }

    pub fn description(&self) -> (r: &'static str)
        ensures
            r@ == "Fast file pattern matching tool for finding files by name patterns (e.g., **/*.js, **/src/**/*.rs)"@,
    {
        "Fast file pattern matching tool for finding files by name patterns (e.g., **/*.js, **/src/**/*.rs)"
    }

    /// The walked files that match `pattern`: files without a modification
    /// time first, then newest first, ties in walk order, or the error for a
    /// pattern that does not compile.
    pub fn select_matches(&self, pattern: &str, files: Vec<FileMatch>) -> (r: Result<
        Vec<FileMatch>,
        String,
    >)
        ensures
            match glob_compile(pattern@) {
                Ok(_) => r is Ok && match_views(r->Ok_0@) == sort_by_recency(
                    matching_files(pattern@, match_views(files@)),
                ),
                Err(e) => r is Err && r->Err_0@ == "Invalid glob pattern: "@ + e,
            },
    {
        match compile_glob(pattern) {
            Err(e) => {
                let mut m = chars_of("Invalid glob pattern: ");
                extend_str(&mut m, e.as_str());
                Err(string_of(m.as_slice()))
            },
            Ok(_) => {
                let ghost fv = match_views(files@);
                let mut out: Vec<FileMatch> = Vec::new();
                let mut i: usize = 0;
                while i < files.len()
                    invariant
                        glob_compile(pattern@) is Ok,
                        i <= files@.len(),
                        fv == match_views(files@),
                        match_views(out@) == sort_by_recency(
                            matching_files(pattern@, fv.take(i as int)),
                        ),
                    decreases files@.len() - i,
                {
                    let f = FileMatch {
                        path: owned(files[i].path.as_str()),
                        modified: files[i].modified,
                    };
                    proof {
                        assert(fv.take(i + 1).drop_last() =~= fv.take(i as int));
                        assert(fv.take(i + 1).last() == f@);
                    }
                    let ghost m = matching_files(pattern@, fv.take(i as int));
                    if glob_match(pattern, f.path.as_str()) {
                        proof {
                            assert(m.push(f@).drop_last() =~= m);
                        }
                        insert_by_recency_exec(&mut out, f);
                    }
                    i += 1;
                }
                assert(fv.take(i as int) =~= fv);
                Ok(out)
            },
        }
    }

    /// How a glob call is shown (see [`glob_call_display`]).
    pub fn call_display(pattern: Option<&str>, path: Option<&str>) -> (r: String)
        ensures
            r@ == glob_call_display(
                match pattern {
                    Some(p) => Some(p@),
                    None => None,
                },
                match path {
                    Some(p) => Some(p@),
                    None => None,
                },
            ),
    {
        match pattern {
            Some(p) => {
                let mut r = chars_of("Glob(");
                extend_str(&mut r, p);
                extend_str(&mut r, ", ");
                match path {
                    Some(d) => extend_str(&mut r, d),
                    None => extend_str(&mut r, "."),
                }
                extend_str(&mut r, ")");
                string_of(r.as_slice())
            },
            None => owned("Glob(...)"),
        }
    }

    /// How a glob call is shown, from its arguments: the pattern and path as
    /// [`GlobTool::call_display`] shows them, or `Glob(...)` when the
    /// arguments did not parse (`None`).
    pub fn format_call_display(&self, args: Option<&GlobArgs>) -> (r: String)
        ensures
            r@ == match args {
                Some(a) => glob_call_display(Some(a.pattern@), opt_view(a.path)),
                None => glob_call_display(None, None),
            },
    {
        match args {
            Some(a) => {
                let d = match &a.path {
                    Some(s) => Some(s.as_str()),
                    None => None,
                };
                Self::call_display(Some(a.pattern.as_str()), d)
            },
            None => Self::call_display(None, None),
        }
    }

    /// The one-line summary of a glob report (see [`glob_summary`]); `None`
    /// when the report text did not parse as one.
    pub fn result_summary(&self, report: Option<&GlobResult>) -> (r: String)
        ensures
            r@ == glob_summary(
                match report {
                    Some(g) => Some(g.total_count),
                    None => None,
                },
            ),
    {
        match report {
            Some(g) => {
                let t = g.total_count;
                let mut r = chars_of("Found ");
                extend(&mut r, crate::text::decimal_exec(t).as_slice());
                if t == 1 {
                    extend_str(&mut r, " file");
                } else {
                    extend_str(&mut r, " files");
                }
                string_of(r.as_slice())
            },
            None => owned("Search completed"),
        }
    }

    /// The permission request for a search over `target`: read-only, never
    /// destructive.
    pub fn describe_permission(&self, target: Option<&str>) -> (r: ToolPermissionDescriptor)
        ensures
            r.kind@ == "glob"@,
            r.target@ == match target {
                Some(t) => t@,
                None => "*"@,
            },
            r.read_only,
            !r.destructive,
    {
        let t: &str = match target {
            Some(t) => t,
            None => "*",
        };
        ToolPermissionDescriptor {
            kind: owned("glob"),
            target: owned(t),
            read_only: true,
            destructive: false,
            approval_title: None,
            approval_prompt: None,
            persistent_message: None,
            suggested_pattern: None,
            command_preview: None,
        }
    }
}

impl Default for GlobTool {
    fn default() -> (r: Self) {
        Self
    }
}

/// Whether `y` is listed after `x` (see [`listed_after`]).
fn listed_after_exec(y: Option<i64>, x: Option<i64>) -> (r: bool)
    ensures
        r == listed_after(y, x),
{
    match (y, x) {
        (Some(_), None) => true,
        (Some(a), Some(b)) => a < b,
        _ => false,
    }
}

/// Inserts `x` into `v` before the first element listed after it.
fn insert_by_recency_exec(v: &mut Vec<FileMatch>, x: FileMatch)
    ensures
        match_views(final(v)@) == insert_by_recency(match_views(old(v)@), x@),
{
    let ghost orig = match_views(v@);
    let ghost xv = x@;
    let mut pos: usize = 0;
    assert(orig.skip(0) =~= orig);
    assert(orig.take(0) + insert_by_recency(orig, xv) =~= insert_by_recency(orig, xv));
    while pos < v.len()
        invariant
            pos <= v@.len(),
            orig == match_views(v@),
            orig == match_views(old(v)@),
            xv == x@,
            insert_by_recency(orig, xv) == orig.take(pos as int) + insert_by_recency(
                orig.skip(pos as int),
                xv,
            ),
        decreases v@.len() - pos,
    {
        let ghost rest = orig.skip(pos as int);
        assert(rest[0] == v@[pos as int]@);
        if listed_after_exec(v[pos].modified, x.modified) {
            let ghost before = v@;
            v.insert(pos, x);
            assert(match_views(v@) =~= orig.take(pos as int) + (seq![xv] + rest));
            return;
        }
        assert(rest.drop_first() =~= orig.skip(pos + 1));
        assert(orig.take(pos as int) + (seq![rest[0]] + insert_by_recency(orig.skip(pos + 1), xv))
            =~= orig.take(pos + 1) + insert_by_recency(orig.skip(pos + 1), xv));
        pos += 1;
    }
    assert(orig.skip(pos as int) =~= Seq::<(Seq<char>, Option<i64>)>::empty());
    v.push(x);
    assert(match_views(v@) =~= orig.take(pos as int) + seq![xv]);
}

// ---------------------------------------------------------------------------
// Laws
// ---------------------------------------------------------------------------
/// No file of `s` is listed before one it should follow.
pub open spec fn recency_ordered(s: Seq<(Seq<char>, Option<i64>)>) -> bool {
    forall|a: int, b: int| 0 <= a < b < s.len() ==> !listed_after(#[trigger] s[a].1, #[trigger] s[b].1)
}

/// Every file of `insert_by_recency(t, x)` is `x` or one of `t`.
proof fn lemma_insert_elements(t: Seq<(Seq<char>, Option<i64>)>, x: (Seq<char>, Option<i64>))
    ensures
        insert_by_recency(t, x).len() == t.len() + 1,
        forall|k: int|
            0 <= k < insert_by_recency(t, x).len() ==> #[trigger] insert_by_recency(t, x)[k] == x
                || t.contains(insert_by_recency(t, x)[k]),
    decreases t.len(),
{
    if t.len() > 0 && !listed_after(t[0].1, x.1) {
        let rest = t.drop_first();
        lemma_insert_elements(rest, x);
        assert forall|k: int| 0 <= k < insert_by_recency(t, x).len() implies #[trigger] insert_by_recency(
            t,
            x,
        )[k] == x || t.contains(insert_by_recency(t, x)[k]) by {
            if k == 0 {
                assert(t[0] == insert_by_recency(t, x)[0]);
            } else {
                let e = insert_by_recency(rest, x)[k - 1];
                assert(insert_by_recency(t, x)[k] == e);
                if e != x {
                    let j = choose|j: int| 0 <= j < rest.len() && rest[j] == e;
                    assert(t[j + 1] == e);
                }
            }
        }
    } else if t.len() > 0 {
        assert forall|k: int| 0 <= k < insert_by_recency(t, x).len() implies #[trigger] insert_by_recency(
            t,
            x,
        )[k] == x || t.contains(insert_by_recency(t, x)[k]) by {
            if k > 0 {
                assert(insert_by_recency(t, x)[k] == t[k - 1]);
            }
        }
    }
}

/// Inserting a file into an ordered list keeps it ordered.
proof fn lemma_insert_ordered(t: Seq<(Seq<char>, Option<i64>)>, x: (Seq<char>, Option<i64>))
    requires
        recency_ordered(t),
    ensures
        recency_ordered(insert_by_recency(t, x)),
    decreases t.len(),
{
    let out = insert_by_recency(t, x);
    if t.len() == 0 {
    } else if listed_after(t[0].1, x.1) {
        assert forall|a: int, b: int| 0 <= a < b < out.len() implies !listed_after(
            #[trigger] out[a].1,
            #[trigger] out[b].1,
        ) by {
            if a == 0 {
                assert(out[b] == t[b - 1]);
                if b - 1 > 0 {
                    assert(!listed_after(t[0].1, t[b - 1].1));
                }
            } else {
                assert(out[a] == t[a - 1] && out[b] == t[b - 1]);
            }
        }
    } else {
        let rest = t.drop_first();
        assert(recency_ordered(rest)) by {
            assert forall|a: int, b: int| 0 <= a < b < rest.len() implies !listed_after(
                #[trigger] rest[a].1,
                #[trigger] rest[b].1,
            ) by {
                assert(rest[a] == t[a + 1] && rest[b] == t[b + 1]);
            }
        }
        lemma_insert_ordered(rest, x);
        lemma_insert_elements(rest, x);
        let inner = insert_by_recency(rest, x);
        assert forall|a: int, b: int| 0 <= a < b < out.len() implies !listed_after(
            #[trigger] out[a].1,
            #[trigger] out[b].1,
        ) by {
            if a == 0 {
                let e = inner[b - 1];
                assert(out[b] == e);
                if e != x {
                    let j = choose|j: int| 0 <= j < rest.len() && rest[j] == e;
                    assert(t[j + 1] == e);
                }
            } else {
                assert(out[a] == inner[a - 1] && out[b] == inner[b - 1]);
            }
        }
    }
}

/// The files a search reports come out with those without a modification
/// time first, then newest first: sorting never lists a file before one
/// that should precede it.
pub proof fn law_sorted_by_recency(s: Seq<(Seq<char>, Option<i64>)>)
    ensures
        recency_ordered(sort_by_recency(s)),
        sort_by_recency(s).len() == s.len(),
    decreases s.len(),
{
    if s.len() > 0 {
        law_sorted_by_recency(s.drop_last());
        lemma_insert_ordered(sort_by_recency(s.drop_last()), s.last());
        lemma_insert_elements(sort_by_recency(s.drop_last()), s.last());
    }
}

} // verus!
