//! Completion of file paths after `@` in the prompt: which paths match what
//! was typed, and in what order they are offered.
use crate::text::{
    chars_of, contains, eq_chars, owned, starts_with, starts_with_chars, contains_chars,
    lowercase_of, to_lowercase,
};
use std::path::PathBuf;
use vstd::prelude::*;
use vstd::utf8::encode_utf8;

verus! {

/// The characters of `p` that are still unmatched after walking through `t`
/// and matching, in order, each character of `p` against the first equal
/// character of `t` that follows the previous match.
pub open spec fn unmatched(p: Seq<char>, t: Seq<char>) -> Seq<char>
    decreases t.len(),
{
    if p.len() == 0 || t.len() == 0 {
        p
    } else if p[0] == t[0] {
        unmatched(p.drop_first(), t.drop_first())
    } else {
        unmatched(p, t.drop_first())
    }
}

/// Whether a typed pattern fuzzily matches a path: an empty pattern matches
/// everything; otherwise the lower-cased pattern's characters appear in the
/// lower-cased path in order.
pub open spec fn fuzzy(pattern: Seq<char>, target: Seq<char>) -> bool {
    pattern.len() == 0 || unmatched(lowercase_of(pattern), lowercase_of(target)).len() == 0
}

/// How well a path matches a pattern, both lower-cased: 1000 for the
/// pattern itself; otherwise 500 when it starts with the pattern, 300 more
/// when it contains it, 100 more when it matches fuzzily, less one per byte
/// of the path.
pub open spec fn match_score(pattern: Seq<char>, target: Seq<char>) -> int {
    let p = lowercase_of(pattern);
    let t = lowercase_of(target);
    if t == p {
        1000
    } else {
        (if starts_with(t, p) {
            500int
        } else {
            0
        }) + (if contains(t, p) {
            300int
        } else {
            0
        }) + (if fuzzy(pattern, target) {
            100int
        } else {
            0
        }) - encode_utf8(target).len()
    }
}

/// `x` inserted into `s` before the first entry with a lower score.
pub open spec fn insert_by_score(s: Seq<(Seq<char>, int)>, x: (Seq<char>, int)) -> Seq<
    (Seq<char>, int),
>
    decreases s.len(),
{
    if s.len() == 0 {
        seq![x]
    } else if s[0].1 < x.1 {
        seq![x] + s
    } else {
        seq![s[0]] + insert_by_score(s.drop_first(), x)
    }
}

/// Stable sort by descending score.
pub open spec fn sort_by_score(s: Seq<(Seq<char>, int)>) -> Seq<(Seq<char>, int)>
    decreases s.len(),
{
    if s.len() == 0 {
        Seq::empty()
    } else {
        insert_by_score(sort_by_score(s.drop_last()), s.last())
    }
}

/// The paths that fuzzily match the query, each with its score, in order.
pub open spec fn scored(query: Seq<char>, paths: Seq<Seq<char>>) -> Seq<(Seq<char>, int)>
    decreases paths.len(),
{
    if paths.len() == 0 {
        Seq::empty()
    } else {
        let rest = scored(query, paths.drop_last());
        let p = paths.last();
        if fuzzy(query, p) {
            rest.push((p, match_score(query, p)))
        } else {
            rest
        }
    }
}

/// How many completions are offered at most.
pub const MAX_COMPLETIONS: usize = 50;

/// The completions offered for a query: the matching paths, best score
/// first (ties in their listed order), at most [`MAX_COMPLETIONS`].
pub open spec fn ranked(query: Seq<char>, paths: Seq<Seq<char>>) -> Seq<Seq<char>> {
    let sorted = sort_by_score(scored(query, paths));
    sorted.take(
        if sorted.len() < MAX_COMPLETIONS {
            sorted.len() as int
        } else {
            MAX_COMPLETIONS as int
        },
    ).map_values(|e: (Seq<char>, int)| e.0)
}

/// A directory entry the scan passes over: hidden entries, build output
/// (`target`) and installed packages (`node_modules`).
pub open spec fn skipped_entry(name: Seq<char>) -> bool {
    starts_with(name, "."@) || name == "target"@ || name == "node_modules"@
}

/// Offers the files under a directory as completions of `@`.
pub struct FileCompleter {
    working_directory: PathBuf,
}

impl FileCompleter {
    /// The directory whose files are offered.
    pub closed spec fn directory(&self) -> PathBuf {
        self.working_directory
    }

    pub fn new(working_directory: PathBuf) -> (r: Self)
        ensures
            r.directory() == working_directory,
    {
        Self { working_directory }
    }

    /// The directory whose files are offered.
    pub fn working_directory(&self) -> (r: &PathBuf)
        ensures
            *r == self.directory(),
    {
        &self.working_directory
    }

    /// The key that opens this completion.
    pub fn trigger_key(&self) -> (r: char)
        ensures
            r == '@',
    {
        '@'
    }

    /// How a chosen completion is inserted: as it is.
    pub fn format_completion(&self, item: &str) -> (r: String)
        ensures
            r@ == item@,
    {
        owned(item)
    }

    /// Whether the scan passes over an entry of this name (see [`skipped_entry`]).
    pub fn skips_entry(file_name: &str) -> (r: bool)
        ensures
            r == skipped_entry(file_name@),
    {
        let name = chars_of(file_name);
        let dot = chars_of(".");
        let target = chars_of("target");
        let modules = chars_of("node_modules");
        starts_with_chars(name.as_slice(), dot.as_slice()) || eq_chars(
            name.as_slice(),
            target.as_slice(),
        ) || eq_chars(name.as_slice(), modules.as_slice())
    }

    /// Whether `pattern` fuzzily matches `target` (see [`fuzzy`]).
    pub fn fuzzy_match(pattern: &str, target: &str) -> (r: bool)
        ensures
            r == fuzzy(pattern@, target@),
    {
        if pattern.is_empty() {
            return true;
        }
        let p = chars_of(to_lowercase(pattern).as_str());
        let t = chars_of(to_lowercase(target).as_str());
        let mut j: usize = 0;
        let mut i: usize = 0;
        assert(p@.skip(0) =~= p@);
        assert(t@.skip(0) =~= t@);
        while i < t.len()
            invariant
                i <= t@.len(),
                j <= p@.len(),
                unmatched(p@, t@) == unmatched(p@.skip(j as int), t@.skip(i as int)),
            decreases t@.len() - i,
        {
            let ghost ps = p@.skip(j as int);
            let ghost ts = t@.skip(i as int);
            assert(ts.drop_first() =~= t@.skip(i + 1));
            if j < p.len() && p[j] == t[i] {
                assert(ps.drop_first() =~= p@.skip(j + 1));
                j += 1;
            }
            i += 1;
        }
        assert(t@.skip(i as int) =~= Seq::<char>::empty());
        j == p.len()
    }

    /// How well `target` matches `pattern` (see [`match_score`]).
    pub fn score_match(pattern: &str, target: &str) -> (r: i32)
        requires
            encode_utf8(target@).len() <= i32::MAX,
        ensures
            r as int == match_score(pattern@, target@),
    {
        let p = chars_of(to_lowercase(pattern).as_str());
        let t = chars_of(to_lowercase(target).as_str());
        if eq_chars(t.as_slice(), p.as_slice()) {
            return 1000;
        }
        let mut score: i32 = 0;
        if starts_with_chars(t.as_slice(), p.as_slice()) {
            score += 500;
        }
        if contains_chars(t.as_slice(), p.as_slice()) {
            score += 300;
        }
        if Self::fuzzy_match(pattern, target) {
            score += 100;
        }
        let len = target.len();
        score - len as i32
    }

    /// The completions offered for `query` among `paths` (see [`ranked`]).
    pub fn rank_completions(query: &str, paths: &Vec<String>) -> (r: Vec<String>)
        requires
            forall|k: int| 0 <= k < paths@.len() ==> encode_utf8(#[trigger] paths@[k]@).len()
                <= i32::MAX,
        ensures
            r.deep_view() == ranked(query@, paths.deep_view()),
    {
        let ghost pv = paths.deep_view();
        let mut matches: Vec<(String, i32)> = Vec::new();
        let mut k: usize = 0;
        assert(pv.take(0) =~= Seq::<Seq<char>>::empty());
        while k < paths.len()
            invariant
                k <= paths@.len(),
                pv == paths.deep_view(),
                forall|j: int| 0 <= j < paths@.len() ==> encode_utf8(#[trigger] paths@[j]@).len()
                    <= i32::MAX,
                entry_views(matches@) == sort_by_score(scored(query@, pv.take(k as int))),
            decreases paths@.len() - k,
        {
            let path = &paths[k];
            assert(pv.take(k + 1).drop_last() =~= pv.take(k as int));
            assert(pv.take(k + 1).last() == path@);
            let ghost before = entry_views(matches@);
            let ghost prev = scored(query@, pv.take(k as int));
            if Self::fuzzy_match(query, path.as_str()) {
                let score = Self::score_match(query, path.as_str());
                let entry = (path.clone(), score);
                let ghost xv = (path@, score as int);
                insert_by_score_exec(&mut matches, entry);
                assert(scored(query@, pv.take(k + 1)) == prev.push(xv));
                assert(prev.push(xv).drop_last() =~= prev);
                assert(sort_by_score(prev.push(xv)) == insert_by_score(sort_by_score(prev), xv));
            } else {
                assert(scored(query@, pv.take(k + 1)) == prev);
            }
            k += 1;
        }
        assert(pv.take(paths@.len() as int) =~= pv);
        let mut out: Vec<String> = Vec::new();
        let mut i: usize = 0;
        let n = if matches.len() < MAX_COMPLETIONS {
            matches.len()
        } else {
            MAX_COMPLETIONS
        };
        let ghost sorted = entry_views(matches@);
        while i < n
            invariant
                n <= matches@.len(),
                i <= n,
                sorted == entry_views(matches@),
                out.deep_view() == sorted.take(i as int).map_values(|e: (Seq<char>, int)| e.0),
            decreases n - i,
        {
            let ghost before = out.deep_view();
            out.push(matches[i].0.clone());
            assert(sorted[i as int].0 == matches@[i as int].0@);
            assert(out.deep_view() =~= before.push(matches@[i as int].0@));
            assert(sorted.take(i + 1).map_values(|e: (Seq<char>, int)| e.0) =~= sorted.take(
                i as int,
            ).map_values(|e: (Seq<char>, int)| e.0).push(sorted[i as int].0));
            i += 1;
        }
        out
    }
}

/// The entries by what they show: the path's text and its score.
pub open spec fn entry_views(v: Seq<(String, i32)>) -> Seq<(Seq<char>, int)> {
    v.map_values(|e: (String, i32)| (e.0@, e.1 as int))
}

/// Inserts `x` into `v` before the first entry with a lower score.
fn insert_by_score_exec(v: &mut Vec<(String, i32)>, x: (String, i32))
    ensures
        entry_views(final(v)@) == insert_by_score(entry_views(old(v)@), (x.0@, x.1 as int)),
{
    let ghost orig = entry_views(v@);
    let ghost xv = (x.0@, x.1 as int);
    let mut pos: usize = 0;
    assert(orig.skip(0) =~= orig);
    assert(orig.take(0) + insert_by_score(orig, xv) =~= insert_by_score(orig, xv));
    while pos < v.len()
        invariant
            pos <= v@.len(),
            orig == entry_views(v@),
            orig == entry_views(old(v)@),
            xv == (x.0@, x.1 as int),
            insert_by_score(orig, xv) == orig.take(pos as int) + insert_by_score(
                orig.skip(pos as int),
                xv,
            ),
        decreases v@.len() - pos,
    {
        let ghost rest = orig.skip(pos as int);
        assert(rest[0] == (v@[pos as int].0@, v@[pos as int].1 as int));
        if v[pos].1 < x.1 {
            v.insert(pos, x);
            assert(entry_views(v@) =~= orig.take(pos as int) + (seq![xv] + rest));
            return;
        }
        assert(rest.drop_first() =~= orig.skip(pos + 1));
        assert(orig.take(pos as int) + (seq![rest[0]] + insert_by_score(orig.skip(pos + 1), xv))
            =~= orig.take(pos + 1) + insert_by_score(orig.skip(pos + 1), xv));
        pos += 1;
    }
    assert(orig.skip(pos as int) =~= Seq::<(Seq<char>, int)>::empty());
    v.push(x);
    assert(entry_views(v@) =~= orig.take(pos as int) + seq![xv]);
}

// ---------------------------------------------------------------------------
// Laws
// ---------------------------------------------------------------------------
/// No entry of `s` has a lower score than one after it.
pub open spec fn best_first(s: Seq<(Seq<char>, int)>) -> bool {
    forall|a: int, b: int| 0 <= a < b < s.len() ==> #[trigger] s[a].1 >= #[trigger] s[b].1
}

/// Every entry of `insert_by_score(t, x)` is `x` or one of `t`.
proof fn lemma_insert_elements(t: Seq<(Seq<char>, int)>, x: (Seq<char>, int))
    ensures
        insert_by_score(t, x).len() == t.len() + 1,
        forall|k: int|
            0 <= k < insert_by_score(t, x).len() ==> #[trigger] insert_by_score(t, x)[k] == x
                || t.contains(insert_by_score(t, x)[k]),
    decreases t.len(),
{
    if t.len() > 0 && !(t[0].1 < x.1) {
        let rest = t.drop_first();
        lemma_insert_elements(rest, x);
        assert forall|k: int| 0 <= k < insert_by_score(t, x).len() implies #[trigger] insert_by_score(
            t,
            x,
        )[k] == x || t.contains(insert_by_score(t, x)[k]) by {
            if k == 0 {
                assert(t[0] == insert_by_score(t, x)[0]);
            } else {
                let e = insert_by_score(rest, x)[k - 1];
                assert(insert_by_score(t, x)[k] == e);
                if e != x {
                    let j = choose|j: int| 0 <= j < rest.len() && rest[j] == e;
                    assert(t[j + 1] == e);
                }
            }
        }
    } else if t.len() > 0 {
        assert forall|k: int| 0 <= k < insert_by_score(t, x).len() implies #[trigger] insert_by_score(
            t,
            x,
        )[k] == x || t.contains(insert_by_score(t, x)[k]) by {
            if k > 0 {
                assert(insert_by_score(t, x)[k] == t[k - 1]);
            }
        }
    }
}

/// Inserting into a list that is best first keeps it best first.
proof fn lemma_insert_best_first(t: Seq<(Seq<char>, int)>, x: (Seq<char>, int))
    requires
        best_first(t),
    ensures
        best_first(insert_by_score(t, x)),
    decreases t.len(),
{
    let out = insert_by_score(t, x);
    if t.len() == 0 {
    } else if t[0].1 < x.1 {
        assert forall|a: int, b: int| 0 <= a < b < out.len() implies #[trigger] out[a].1
            >= #[trigger] out[b].1 by {
            if a == 0 {
                assert(out[b] == t[b - 1]);
                if b - 1 > 0 {
                    assert(t[0].1 >= t[b - 1].1);
                }
            } else {
                assert(out[a] == t[a - 1] && out[b] == t[b - 1]);
            }
        }
    } else {
        let rest = t.drop_first();
        assert(best_first(rest)) by {
            assert forall|a: int, b: int| 0 <= a < b < rest.len() implies #[trigger] rest[a].1
                >= #[trigger] rest[b].1 by {
                assert(rest[a] == t[a + 1] && rest[b] == t[b + 1]);
            }
        }
        lemma_insert_best_first(rest, x);
        lemma_insert_elements(rest, x);
        let inner = insert_by_score(rest, x);
        assert forall|a: int, b: int| 0 <= a < b < out.len() implies #[trigger] out[a].1
            >= #[trigger] out[b].1 by {
            if a == 0 {
                let e = inner[b - 1];
                assert(out[b] == e);
                if e != x {
                    let j = choose|j: int| 0 <= j < rest.len() && rest[j] == e;
                    assert(t[j + 1] == e);
                }
            } else {
                assert(out[a] == inner[a - 1] && out[b] == inner[b - 1]);
            }
        }
    }
}

/// Sorting puts the best scores first and keeps exactly the entries given.
proof fn lemma_sort_by_score(s: Seq<(Seq<char>, int)>)
    ensures
        best_first(sort_by_score(s)),
        sort_by_score(s).len() == s.len(),
        forall|k: int|
            0 <= k < sort_by_score(s).len() ==> s.contains(#[trigger] sort_by_score(s)[k]),
    decreases s.len(),
{
    if s.len() > 0 {
        let init = s.drop_last();
        lemma_sort_by_score(init);
        lemma_insert_best_first(sort_by_score(init), s.last());
        lemma_insert_elements(sort_by_score(init), s.last());
        let out = sort_by_score(s);
        assert forall|k: int| 0 <= k < out.len() implies s.contains(#[trigger] out[k]) by {
            if out[k] == s.last() {
                assert(s[s.len() - 1] == s.last());
            } else {
                let j = choose|j: int|
                    0 <= j < sort_by_score(init).len() && sort_by_score(init)[j] == out[k];
                let i = choose|i: int| 0 <= i < init.len() && init[i] == sort_by_score(init)[j];
                assert(s[i] == init[i]);
            }
        }
    }
}

/// Every scored entry is a listed path that matches the query, with its score.
proof fn lemma_scored(query: Seq<char>, paths: Seq<Seq<char>>)
    ensures
        forall|k: int|
            0 <= k < scored(query, paths).len() ==> paths.contains(
                (#[trigger] scored(query, paths)[k]).0,
            ) && fuzzy(query, scored(query, paths)[k].0) && scored(query, paths)[k].1
                == match_score(query, scored(query, paths)[k].0),
    decreases paths.len(),
{
    if paths.len() > 0 {
        let init = paths.drop_last();
        lemma_scored(query, init);
        let out = scored(query, paths);
        assert forall|k: int| 0 <= k < out.len() implies paths.contains((#[trigger] out[k]).0)
            && fuzzy(query, out[k].0) && out[k].1 == match_score(query, out[k].0) by {
            if k < scored(query, init).len() {
                assert(out[k] == scored(query, init)[k]);
                let j = choose|j: int| 0 <= j < init.len() && init[j] == out[k].0;
                assert(paths[j] == init[j]);
            } else {
                assert(paths[paths.len() - 1] == paths.last());
            }
        }
    }
}

/// The completions come best score first, number at most
/// [`MAX_COMPLETIONS`], and are listed paths that match the query.
pub proof fn law_completions_best_first(query: Seq<char>, paths: Seq<Seq<char>>)
    ensures
        ranked(query, paths).len() <= MAX_COMPLETIONS,
        best_first(sort_by_score(scored(query, paths))),
        forall|k: int|
            0 <= k < ranked(query, paths).len() ==> paths.contains(#[trigger] ranked(query, paths)[k])
                && fuzzy(query, ranked(query, paths)[k]),
{
    let sc = scored(query, paths);
    lemma_scored(query, paths);
    lemma_sort_by_score(sc);
    let sorted = sort_by_score(sc);
    let r = ranked(query, paths);
    assert forall|k: int| 0 <= k < r.len() implies paths.contains(#[trigger] r[k]) && fuzzy(
        query,
        r[k],
    ) by {
        assert(r[k] == sorted[k].0);
        let j = choose|j: int| 0 <= j < sc.len() && sc[j] == sorted[k];
    }
}

/// A path equal to the query, case aside, scores above every other path:
/// an exact match is offered first.
pub proof fn law_exact_match_first(query: Seq<char>, exact: Seq<char>, other: Seq<char>)
    requires
        lowercase_of(exact) == lowercase_of(query),
        lowercase_of(other) != lowercase_of(query),
    ensures
        match_score(query, other) < match_score(query, exact),
{
}

} // verus!
