//! Splitting of bash command lines into subcommands and command words.
use crate::text::{
    chars_of, concat, contains, eq_chars, first_line, first_line_exec, has_char, is_ws, join,
    join_chars, lemma_trim_no_edge_ws, owned, views, starts_with, starts_with_chars, str_contains,
    string_of, trim, trim_chars,
};
use crate::tools::bash::lexer::{push_string, shell_words, shlex_words};
use crate::tools::bash::ordered_set::{
    index_set_insert, index_set_into_vec, index_set_items, index_set_new,
};
use vstd::prelude::*;

verus! {

pub struct BashCommandParser;

// ---------------------------------------------------------------------------
// Specification of the subcommand splitter
// ---------------------------------------------------------------------------
/// `segs` with the trimmed `cur` appended, unless it trims to nothing.
pub open spec fn push_seg(segs: Seq<Seq<char>>, cur: Seq<char>) -> Seq<Seq<char>> {
    if trim(cur).len() > 0 {
        segs.push(trim(cur))
    } else {
        segs
    }
}

/// The scan the splitter performs from index `i` of `cs`, given the quoting
/// state (`sq`: inside '…', `dq`: inside "…", `bt`: inside `…`), the nesting
/// depth of `( )` / `$( )`, the text of the segment being built and the
/// segments already cut. Gives all segments of the whole line.
pub open spec fn scan(
    cs: Seq<char>,
    i: int,
    sq: bool,
    dq: bool,
    bt: bool,
    depth: int,
    cur: Seq<char>,
    segs: Seq<Seq<char>>,
) -> Seq<Seq<char>>
    decreases cs.len() - i,
{
    if i >= cs.len() || i < 0 {
        push_seg(segs, cur)
    } else {
        let c = cs[i];
        let next2 = i + 1 < cs.len();
        if c == '\\' && !sq {
            if next2 {
                scan(cs, i + 2, sq, dq, bt, depth, cur.push(c).push(cs[i + 1]), segs)
            } else {
                scan(cs, i + 1, sq, dq, bt, depth, cur.push(c), segs)
            }
        } else if sq {
            scan(cs, i + 1, c != '\'', dq, bt, depth, cur.push(c), segs)
        } else if dq {
            scan(cs, i + 1, sq, c != '"', bt, depth, cur.push(c), segs)
        } else if c == '\'' {
            scan(cs, i + 1, true, dq, bt, depth, cur.push(c), segs)
        } else if c == '"' {
            scan(cs, i + 1, sq, true, bt, depth, cur.push(c), segs)
        } else if c == '`' {
            scan(cs, i + 1, sq, dq, !bt, depth, cur.push(c), segs)
        } else if bt {
            scan(cs, i + 1, sq, dq, bt, depth, cur.push(c), segs)
        } else if c == '$' && next2 && cs[i + 1] == '(' {
            scan(cs, i + 2, sq, dq, bt, depth + 1, cur.push('$').push('('), segs)
        } else if c == '(' {
            scan(cs, i + 1, sq, dq, bt, depth + 1, cur.push(c), segs)
        } else if c == ')' {
            scan(
                cs,
                i + 1,
                sq,
                dq,
                bt,
                if depth - 1 > 0 {
                    depth - 1
                } else {
                    0
                },
                cur.push(c),
                segs,
            )
        } else if depth > 0 {
            scan(cs, i + 1, sq, dq, bt, depth, cur.push(c), segs)
        } else if c == ';' {
            scan(cs, i + 1, sq, dq, bt, depth, Seq::empty(), push_seg(segs, cur))
        } else if c == '|' {
            scan(
                cs,
                if next2 && cs[i + 1] == '|' {
                    i + 2
                } else {
                    i + 1
                },
                sq,
                dq,
                bt,
                depth,
                Seq::empty(),
                push_seg(segs, cur),
            )
        } else if c == '&' && next2 && cs[i + 1] == '&' {
            scan(cs, i + 2, sq, dq, bt, depth, Seq::empty(), push_seg(segs, cur))
        } else {
            scan(cs, i + 1, sq, dq, bt, depth, cur.push(c), segs)
        }
    }
}

/// The part of a command line that is analysed: with a heredoc (`<<`) only
/// its first line, since the rest is the document's body.
pub open spec fn command_line(input: Seq<char>) -> Seq<char> {
    if contains(input, "<<"@) {
        first_line(input)
    } else {
        input
    }
}

/// The top-level subcommands of `input` (see
/// [`BashCommandParser::split_subcommands`]).
pub open spec fn subcommands(input: Seq<char>) -> Seq<Seq<char>> {
    scan(command_line(input), 0, false, false, false, 0, Seq::empty(), Seq::empty())
}

// ---------------------------------------------------------------------------
// Specification of the word-level helpers
// ---------------------------------------------------------------------------
/// A `VAR=value` environment assignment (a word with `=` that is no flag).
pub open spec fn is_env_assignment(t: Seq<char>) -> bool {
    t.contains('=') && !starts_with(t, "-"@)
}

/// The first word of `toks` from index `j` on that is no env assignment.
pub open spec fn first_command_word(toks: Seq<Seq<char>>, j: int) -> Option<Seq<char>>
    decreases toks.len() - j,
{
    if j >= toks.len() || j < 0 {
        None
    } else if !is_env_assignment(toks[j]) {
        Some(toks[j])
    } else {
        first_command_word(toks, j + 1)
    }
}

/// The index of the first word of `toks` from `j` on that is no env
/// assignment (`toks.len()` when there is none).
pub open spec fn first_command_index(toks: Seq<Seq<char>>, j: int) -> int
    decreases toks.len() - j,
{
    if j >= toks.len() || j < 0 {
        toks.len() as int
    } else if !is_env_assignment(toks[j]) {
        j
    } else {
        first_command_index(toks, j + 1)
    }
}

/// The command word of one subcommand: its first shell word that is no env
/// assignment; `None` when the subcommand does not lex or has no such word.
pub open spec fn command_token(segment: Seq<char>) -> Option<Seq<char>> {
    match shlex_words(segment) {
        None => None,
        Some(toks) => first_command_word(toks, 0),
    }
}

/// `acc` with `x` appended unless it already holds it.
pub open spec fn insert_new(acc: Seq<Seq<char>>, x: Seq<char>) -> Seq<Seq<char>> {
    if acc.contains(x) {
        acc
    } else {
        acc.push(x)
    }
}

/// The distinct command words of `segs`, in order of first appearance.
pub open spec fn distinct_commands(segs: Seq<Seq<char>>) -> Seq<Seq<char>>
    decreases segs.len(),
{
    if segs.len() == 0 {
        Seq::empty()
    } else {
        let acc = distinct_commands(segs.drop_last());
        match command_token(segs.last()) {
            Some(c) => insert_new(acc, c),
            None => acc,
        }
    }
}

/// The base commands of a command line (see
/// [`BashCommandParser::extract_base_commands`]).
pub open spec fn base_commands(input: Seq<char>) -> Seq<Seq<char>> {
    distinct_commands(subcommands(input))
}

/// The control operators `|`, `||`, `&&` and `;` as shell words.
pub open spec fn is_control_op(t: Seq<char>) -> bool {
    t == "|"@ || t == "||"@ || t == "&&"@ || t == ";"@
}

/// The `cd` targets in a word stream. `mode` 0: a command word is expected;
/// 1: inside a command's arguments; 2: looking for a `cd` argument.
pub open spec fn cd_scan(toks: Seq<Seq<char>>, j: int, mode: int) -> Seq<Seq<char>>
    decreases toks.len() - j, if mode == 2 {
        1int
    } else {
        0int
    },
{
    if j >= toks.len() || j < 0 {
        if mode == 2 {
            seq![Seq::empty()]
        } else {
            Seq::empty()
        }
    } else {
        let t = toks[j];
        if mode == 2 {
            if is_control_op(t) {
                seq![Seq::empty()] + cd_scan(toks, j, 1)
            } else if t == "-"@ {
                seq![t] + cd_scan(toks, j + 1, 1)
            } else if starts_with(t, "-"@) {
                cd_scan(toks, j + 1, 2)
            } else {
                seq![t] + cd_scan(toks, j + 1, 1)
            }
        } else if is_control_op(t) {
            cd_scan(toks, j + 1, 0)
        } else if mode == 0 {
            if is_env_assignment(t) {
                cd_scan(toks, j + 1, 0)
            } else if t == "cd"@ {
                cd_scan(toks, j + 1, 2)
            } else {
                cd_scan(toks, j + 1, 1)
            }
        } else {
            cd_scan(toks, j + 1, 1)
        }
    }
}

/// The `cd` targets of a command line (see
/// [`BashCommandParser::extract_cd_targets`]).
pub open spec fn cd_targets(input: Seq<char>) -> Seq<Seq<char>> {
    match shlex_words(command_line(input)) {
        None => Seq::empty(),
        Some(toks) => cd_scan(toks, 0, 0),
    }
}

/// The first command of a command line and the word after it, unless that
/// word is a control operator (see
/// [`BashCommandParser::extract_first_command_and_arg`]).
pub open spec fn first_command_and_arg(input: Seq<char>) -> Option<(Seq<char>, Option<Seq<char>>)> {
    match shlex_words(command_line(input)) {
        None => None,
        Some(toks) => {
            let k = first_command_index(toks, 0);
            if k >= toks.len() {
                None
            } else if k + 1 < toks.len() && !is_control_op(toks[k + 1]) {
                Some((toks[k], Some(toks[k + 1])))
            } else {
                Some((toks[k], None))
            }
        }
    }
}

/// Lexicographic order on character sequences by code point (the order of
/// `String` comparison, since UTF-8 preserves code point order).
pub open spec fn lex_lt(a: Seq<char>, b: Seq<char>) -> bool
    decreases a.len(),
{
    if a.len() == 0 {
        b.len() > 0
    } else if b.len() == 0 {
        false
    } else if (a[0] as u32) < (b[0] as u32) {
        true
    } else if a[0] == b[0] {
        lex_lt(a.drop_first(), b.drop_first())
    } else {
        false
    }
}

/// `s` inserted into the strictly increasing `sorted`, unless already there.
pub open spec fn insert_sorted(sorted: Seq<Seq<char>>, s: Seq<char>) -> Seq<Seq<char>>
    decreases sorted.len(),
{
    if sorted.len() == 0 {
        seq![s]
    } else if s == sorted[0] {
        sorted
    } else if lex_lt(s, sorted[0]) {
        seq![s] + sorted
    } else {
        seq![sorted[0]] + insert_sorted(sorted.drop_first(), s)
    }
}

/// The distinct elements of `items`, in increasing order (`sort` + `dedup`).
pub open spec fn sorted_unique(items: Seq<Seq<char>>) -> Seq<Seq<char>>
    decreases items.len(),
{
    if items.len() == 0 {
        Seq::empty()
    } else {
        insert_sorted(sorted_unique(items.drop_last()), items.last())
    }
}

/// Each element followed by `:*`.
pub open spec fn with_wildcard(items: Seq<Seq<char>>) -> Seq<Seq<char>> {
    Seq::new(items.len(), |i: int| items[i] + ":*"@)
}

/// The rule pattern suggested for a list of base commands (see
/// [`BashCommandParser::suggest_pattern`]).
pub open spec fn suggested_pattern(cmds: Seq<Seq<char>>) -> Seq<char> {
    if cmds.len() == 0 {
        "*"@
    } else {
        join(with_wildcard(sorted_unique(cmds)), "|"@)
    }
}

// ---------------------------------------------------------------------------
// Laws
// ---------------------------------------------------------------------------
/// A segment as the splitter emits it: non-empty, without whitespace at
/// either end.
pub open spec fn is_clean_segment(s: Seq<char>) -> bool {
    s.len() > 0 && !is_ws(s[0]) && !is_ws(s.last())
}

/// Every segment of `segs` is clean.
pub open spec fn all_clean(segs: Seq<Seq<char>>) -> bool {
    forall|k: int| 0 <= k < segs.len() ==> is_clean_segment(#[trigger] segs[k])
}

proof fn lemma_push_seg_clean(segs: Seq<Seq<char>>, cur: Seq<char>)
    requires
        all_clean(segs),
    ensures
        all_clean(push_seg(segs, cur)),
{
    lemma_trim_no_edge_ws(cur);
    if trim(cur).len() > 0 {
        assert forall|k: int| 0 <= k < push_seg(segs, cur).len() implies is_clean_segment(
            #[trigger] push_seg(segs, cur)[k],
        ) by {
            if k < segs.len() {
                assert(push_seg(segs, cur)[k] == segs[k]);
            }
        }
    }
}

proof fn lemma_scan_clean(
    cs: Seq<char>,
    i: int,
    sq: bool,
    dq: bool,
    bt: bool,
    depth: int,
    cur: Seq<char>,
    segs: Seq<Seq<char>>,
)
    requires
        all_clean(segs),
    ensures
        all_clean(scan(cs, i, sq, dq, bt, depth, cur, segs)),
    decreases cs.len() - i,
{
    lemma_push_seg_clean(segs, cur);
    if i >= cs.len() || i < 0 {
    } else {
        let c = cs[i];
        let next2 = i + 1 < cs.len();
        if c == '\\' && !sq {
            if next2 {
                lemma_scan_clean(cs, i + 2, sq, dq, bt, depth, cur.push(c).push(cs[i + 1]), segs);
            } else {
                lemma_scan_clean(cs, i + 1, sq, dq, bt, depth, cur.push(c), segs);
            }
        } else if sq {
            lemma_scan_clean(cs, i + 1, c != '\'', dq, bt, depth, cur.push(c), segs);
        } else if dq {
            lemma_scan_clean(cs, i + 1, sq, c != '"', bt, depth, cur.push(c), segs);
        } else if c == '\'' {
            lemma_scan_clean(cs, i + 1, true, dq, bt, depth, cur.push(c), segs);
        } else if c == '"' {
            lemma_scan_clean(cs, i + 1, sq, true, bt, depth, cur.push(c), segs);
        } else if c == '`' {
            lemma_scan_clean(cs, i + 1, sq, dq, !bt, depth, cur.push(c), segs);
        } else if bt {
            lemma_scan_clean(cs, i + 1, sq, dq, bt, depth, cur.push(c), segs);
        } else if c == '$' && next2 && cs[i + 1] == '(' {
            lemma_scan_clean(cs, i + 2, sq, dq, bt, depth + 1, cur.push('$').push('('), segs);
        } else if c == '(' {
            lemma_scan_clean(cs, i + 1, sq, dq, bt, depth + 1, cur.push(c), segs);
        } else if c == ')' {
            let d = if depth - 1 > 0 {
                depth - 1
            } else {
                0
            };
            lemma_scan_clean(cs, i + 1, sq, dq, bt, d, cur.push(c), segs);
        } else if depth > 0 {
            lemma_scan_clean(cs, i + 1, sq, dq, bt, depth, cur.push(c), segs);
        } else if c == ';' {
            lemma_scan_clean(cs, i + 1, sq, dq, bt, depth, Seq::empty(), push_seg(segs, cur));
        } else if c == '|' {
            let ni = if next2 && cs[i + 1] == '|' {
                i + 2
            } else {
                i + 1
            };
            lemma_scan_clean(cs, ni, sq, dq, bt, depth, Seq::empty(), push_seg(segs, cur));
        } else if c == '&' && next2 && cs[i + 1] == '&' {
            lemma_scan_clean(cs, i + 2, sq, dq, bt, depth, Seq::empty(), push_seg(segs, cur));
        } else {
            lemma_scan_clean(cs, i + 1, sq, dq, bt, depth, cur.push(c), segs);
        }
    }
}

/// Every subcommand the splitter yields is non-empty and trimmed: blank
/// pieces between operators are dropped, never returned.
pub proof fn law_subcommands_are_trimmed(input: Seq<char>)
    ensures
        all_clean(subcommands(input)),
{
    lemma_scan_clean(command_line(input), 0, false, false, false, 0, Seq::empty(), Seq::empty());
}

/// `s` holds no operator that splits a line: no `;`, no `|`, and no `&`
/// followed by another `&` (a single `&` does not split).
pub open spec fn operator_free(s: Seq<char>) -> bool {
    forall|k: int|
        0 <= k < s.len() ==> #[trigger] s[k] != ';' && s[k] != '|' && !(s[k] == '&' && k + 1
            < s.len() && s[k + 1] == '&')
}

proof fn lemma_scan_operator_free(
    cs: Seq<char>,
    i: int,
    sq: bool,
    dq: bool,
    bt: bool,
    depth: int,
    cur: Seq<char>,
    segs: Seq<Seq<char>>,
)
    requires
        operator_free(cs),
        0 <= i <= cs.len(),
    ensures
        scan(cs, i, sq, dq, bt, depth, cur, segs) == push_seg(segs, cur + cs.skip(i)),
    decreases cs.len() - i,
{
    if i >= cs.len() {
        assert(cur + cs.skip(i) =~= cur);
    } else {
        let c = cs[i];
        let next2 = i + 1 < cs.len();
        if c == '\\' && !sq && next2 {
            lemma_scan_operator_free(cs, i + 2, sq, dq, bt, depth, cur.push(c).push(cs[i + 1]), segs);
            assert(cur.push(c).push(cs[i + 1]) + cs.skip(i + 2) =~= cur + cs.skip(i));
        } else if c == '$' && !sq && !dq && !bt && next2 && cs[i + 1] == '(' && c != '\\' {
            lemma_scan_operator_free(cs, i + 2, sq, dq, bt, depth + 1, cur.push('$').push('('), segs);
            assert(cur.push('$').push('(') + cs.skip(i + 2) =~= cur + cs.skip(i));
        } else {
            let nsq = if c == '\\' && !sq {
                sq
            } else if sq {
                c != '\''
            } else if dq {
                sq
            } else if c == '\'' {
                true
            } else {
                sq
            };
            let ndq = if c == '\\' && !sq {
                dq
            } else if sq {
                dq
            } else if dq {
                c != '"'
            } else if c == '\'' {
                dq
            } else if c == '"' {
                true
            } else {
                dq
            };
            let nbt = if c == '\\' && !sq {
                bt
            } else if sq || dq || c == '\'' || c == '"' {
                bt
            } else if c == '`' {
                !bt
            } else {
                bt
            };
            let nd = if c == '\\' && !sq {
                depth
            } else if sq || dq || c == '\'' || c == '"' || c == '`' || bt {
                depth
            } else if c == '(' {
                depth + 1
            } else if c == ')' {
                if depth - 1 > 0 {
                    depth - 1
                } else {
                    0
                }
            } else {
                depth
            };
            lemma_scan_operator_free(cs, i + 1, nsq, ndq, nbt, nd, cur.push(c), segs);
            assert(cur.push(c) + cs.skip(i + 1) =~= cur + cs.skip(i));
        }
    }
}

/// A command line without `;`, `|` or `&&` is never split (a lone `&` does
/// not split either): it yields its trimmed analysed line as the only
/// subcommand, or nothing when blank.
pub proof fn law_operator_free_line_is_one_subcommand(input: Seq<char>)
    requires
        operator_free(command_line(input)),
    ensures
        subcommands(input) == push_seg(Seq::empty(), command_line(input)),
{
    let cs = command_line(input);
    lemma_scan_operator_free(cs, 0, false, false, false, 0, Seq::empty(), Seq::empty());
    assert(Seq::<char>::empty() + cs.skip(0) =~= cs);
}

proof fn lemma_distinct_commands_unique(segs: Seq<Seq<char>>)
    ensures
        distinct_commands(segs).no_duplicates(),
        forall|x: Seq<char>|
            distinct_commands(segs).contains(x) ==> exists|k: int|
                0 <= k < segs.len() && command_token(#[trigger] segs[k]) == Some(x),
    decreases segs.len(),
{
    if segs.len() > 0 {
        lemma_distinct_commands_unique(segs.drop_last());
        let acc = distinct_commands(segs.drop_last());
        assert forall|x: Seq<char>| distinct_commands(segs).contains(x) implies exists|k: int|
            0 <= k < segs.len() && command_token(#[trigger] segs[k]) == Some(x) by {
            if acc.contains(x) {
                let k = choose|k: int|
                    0 <= k < segs.drop_last().len() && command_token(
                        #[trigger] segs.drop_last()[k],
                    ) == Some(x);
                assert(segs[k] == segs.drop_last()[k]);
            } else {
                assert(segs[segs.len() - 1] == segs.last());
            }
        }
    }
}

/// The base commands of a line hold no duplicates, and each is the command
/// word of one of the line's subcommands.
pub proof fn law_base_commands_distinct(input: Seq<char>)
    ensures
        base_commands(input).no_duplicates(),
        forall|x: Seq<char>|
            base_commands(input).contains(x) ==> exists|k: int|
                0 <= k < subcommands(input).len() && command_token(#[trigger] subcommands(input)[k])
                    == Some(x),
{
    lemma_distinct_commands_unique(subcommands(input));
}

// ---------------------------------------------------------------------------
// Executable code
// ---------------------------------------------------------------------------
impl BashCommandParser {
    /// Extract base commands using proper tokenization.
    /// Handles:
    /// - Quotes: 'echo "a | b"' -> ["echo"] (not ["echo", "b"])
    /// - Env Vars: 'Start=1 cargo build' -> ["cargo"]
    /// - Chains: 'git commit && git push' -> ["git"]
    /// - No-space operators: 'cat a|grep b' -> ["cat", "grep"]
    pub fn extract_base_commands(input: &str) -> (r: Vec<String>)
        ensures
            r.deep_view() == base_commands(input@),
    {
        let segments = Self::split_subcommands(input);
        let ghost segs = segments.deep_view();
        let mut commands = index_set_new();
        let mut i: usize = 0;
        while i < segments.len()
            invariant
                i <= segments@.len(),
                segs == segments.deep_view(),
                segs == subcommands(input@),
                index_set_items(commands) == distinct_commands(segs.take(i as int)),
            decreases segments@.len() - i,
        {
            assert(segs.take(i + 1).drop_last() =~= segs.take(i as int));
            assert(segs.take(i + 1).last() == segments@[i as int]@);
            if let Some(cmd) = Self::first_command_token(segments[i].as_str()) {
                index_set_insert(&mut commands, cmd);
            }
            i += 1;
        }
        assert(segs.take(segments@.len() as int) =~= segs);
        index_set_into_vec(commands)
    }

    /// Split a command into its top-level subcommands, breaking on `&&`, `||`,
    /// `;` and `|` while respecting quotes and `$( )` / `( )` / backtick
    /// nesting. Operators inside quotes or subshells are NOT split, so
    /// `echo $(a | b)` and `git commit -m 'x | y'` each stay a single segment.
    /// Redirections (`2>&1`, `>`) are left attached to their segment.
    pub fn split_subcommands(input: &str) -> (r: Vec<String>)
        ensures
            r.deep_view() == subcommands(input@),
    {
        let all = chars_of(input);
        let chars = if Self::contains_heredoc(input) {
            first_line_exec(all.as_slice())
        } else {
            all
        };
        let ghost cs = chars@;
        assert(cs == command_line(input@));
        let ghost goal = subcommands(input@);
        let mut segments: Vec<String> = Vec::new();
        let mut current: Vec<char> = Vec::new();
        let mut i: usize = 0;
        let mut in_single = false;
        let mut in_double = false;
        let mut in_backtick = false;
        let mut depth: usize = 0;
        assert(segments.deep_view() =~= Seq::<Seq<char>>::empty());
        while i < chars.len()
            invariant
                cs == chars@,
                i <= chars@.len(),
                depth <= i,
                scan(
                    cs,
                    i as int,
                    in_single,
                    in_double,
                    in_backtick,
                    depth as int,
                    current@,
                    segments.deep_view(),
                ) == goal,
            decreases chars@.len() - i,
        {
            let c = chars[i];
            let next2 = i + 1 < chars.len();
            if c == '\\' && !in_single {
                current.push(c);
                if next2 {
                    current.push(chars[i + 1]);
                    i += 2;
                } else {
                    i += 1;
                }
            } else if in_single {
                current.push(c);
                in_single = c != '\'';
                i += 1;
            } else if in_double {
                current.push(c);
                in_double = c != '"';
                i += 1;
            } else if c == '\'' {
                in_single = true;
                current.push(c);
                i += 1;
            } else if c == '"' {
                in_double = true;
                current.push(c);
                i += 1;
            } else if c == '`' {
                in_backtick = !in_backtick;
                current.push(c);
                i += 1;
            } else if in_backtick {
                current.push(c);
                i += 1;
            } else if c == '$' && next2 && chars[i + 1] == '(' {
                depth += 1;
                current.push('$');
                current.push('(');
                i += 2;
            } else if c == '(' {
                depth += 1;
                current.push(c);
                i += 1;
            } else if c == ')' {
                depth = if depth > 1 {
                    depth - 1
                } else {
                    0
                };
                current.push(c);
                i += 1;
            } else if depth > 0 {
                current.push(c);
                i += 1;
            } else if c == ';' {
                Self::push_segment(&mut segments, &mut current);
                i += 1;
            } else if c == '|' {
                Self::push_segment(&mut segments, &mut current);
                i += if next2 && chars[i + 1] == '|' {
                    2
                } else {
                    1
                };
            } else if c == '&' && next2 && chars[i + 1] == '&' {
                Self::push_segment(&mut segments, &mut current);
                i += 2;
            } else {
                current.push(c);
                i += 1;
            }
        }
        Self::push_segment(&mut segments, &mut current);
        segments
    }

    /// Moves the trimmed `current` into `segments` (when non-blank) and
    /// clears it.
    fn push_segment(segments: &mut Vec<String>, current: &mut Vec<char>)
        ensures
            final(segments).deep_view() == push_seg(old(segments).deep_view(), old(current)@),
            final(current)@ == Seq::<char>::empty(),
    {
        let trimmed = trim_chars(current.as_slice());
        if trimmed.len() > 0 {
            push_string(segments, string_of(trimmed.as_slice()));
        }
        current.clear();
    }

    /// First real command token of a single subcommand: skips `VAR=val`
    /// env-var prefixes. Returns `None` on an empty/unparseable segment.
    fn first_command_token(segment: &str) -> (r: Option<String>)
        ensures
            r.deep_view() == command_token(segment@),
    {
        let tokens = match shell_words(segment) {
            Some(t) => t,
            None => return None,
        };
        let ghost toks = tokens.deep_view();
        let k = Self::first_command_position(&tokens);
        proof {
            Self::lemma_first_word_at_index(toks, 0);
        }
        if k < tokens.len() {
            Some(tokens[k].clone())
        } else {
            None
        }
    }

    proof fn lemma_first_word_at_index(toks: Seq<Seq<char>>, j: int)
        requires
            0 <= j <= toks.len(),
        ensures
            first_command_word(toks, j) == if first_command_index(toks, j) < toks.len() {
                Some(toks[first_command_index(toks, j)])
            } else {
                None
            },
            j <= first_command_index(toks, j) <= toks.len(),
        decreases toks.len() - j,
    {
        if j < toks.len() && is_env_assignment(toks[j]) {
            Self::lemma_first_word_at_index(toks, j + 1);
        }
    }

    /// Whether a word is a `VAR=value` assignment.
    fn is_env_word(t: &[char]) -> (r: bool)
        ensures
            r == is_env_assignment(t@),
    {
        let dash = chars_of("-");
        has_char(t, '=') && !starts_with_chars(t, dash.as_slice())
    }

    /// The index of the first word of `tokens` that is no env assignment.
    fn first_command_position(tokens: &Vec<String>) -> (k: usize)
        ensures
            k == first_command_index(tokens.deep_view(), 0),
    {
        let ghost toks = tokens.deep_view();
        let mut j: usize = 0;
        while j < tokens.len()
            invariant
                j <= tokens@.len(),
                toks == tokens.deep_view(),
                first_command_index(toks, 0) == first_command_index(toks, j as int),
            decreases tokens@.len() - j,
        {
            let t = chars_of(tokens[j].as_str());
            if !Self::is_env_word(t.as_slice()) {
                return j;
            }
            j += 1;
        }
        j
    }

    /// Whether the text holds a heredoc marker `<<`.
    pub fn contains_heredoc(input: &str) -> (r: bool)
        ensures
            r == contains(input@, "<<"@),
    {
        str_contains(input, "<<")
    }

    /// Whether the text holds a command substitution `$(` or a backtick.
    pub fn contains_subshell(input: &str) -> (r: bool)
        ensures
            r == (contains(input@, "$("@) || input@.contains('`')),
    {
        // Basic check for $(...) or backticks `...`
        let cs = chars_of(input);
        str_contains(input, "$(") || has_char(cs.as_slice(), '`')
    }

    /// The rule pattern to suggest for the given base commands: `*` when
    /// there are none, else each distinct command as `cmd:*`, sorted and
    /// joined by `|`.
    pub fn suggest_pattern(base_commands: &[String]) -> (r: String)
        ensures
            r@ == suggested_pattern(base_commands@.map_values(|s: String| s@)),
    {
        let ghost cmds = base_commands@.map_values(|s: String| s@);
        if base_commands.len() == 0 {
            return owned("*");
        }
        // Deduplicate for display

        let mut unique: Vec<Vec<char>> = Vec::new();
        let mut i: usize = 0;
        while i < base_commands.len()
            invariant
                i <= base_commands@.len(),
                cmds == base_commands@.map_values(|s: String| s@),
                views(unique@) == sorted_unique(cmds.take(i as int)),
            decreases base_commands@.len() - i,
        {
            assert(cmds.take(i + 1).drop_last() =~= cmds.take(i as int));
            let c = chars_of(base_commands[i].as_str());
            insert_sorted_exec(&mut unique, c);
            i += 1;
        }
        assert(cmds.take(base_commands@.len() as int) =~= cmds);
        let ghost su = views(unique@);
        let suffix = chars_of(":*");
        let mut parts: Vec<Vec<char>> = Vec::new();
        let mut j: usize = 0;
        while j < unique.len()
            invariant
                j <= unique@.len(),
                su == views(unique@),
                suffix@ == ":*"@,
                views(parts@) == with_wildcard(su).take(j as int),
            decreases unique@.len() - j,
        {
            let p = concat(unique[j].as_slice(), suffix.as_slice());
            assert(su[j as int] == unique@[j as int]@);
            assert(p@ == with_wildcard(su)[j as int]);
            let ghost before = views(parts@);
            parts.push(p);
            assert(views(parts@) =~= before.push(p@));
            assert(views(parts@) =~= with_wildcard(su).take(j + 1));
            j += 1;
        }
        assert(with_wildcard(su).take(unique@.len() as int) =~= with_wildcard(su));
        let sep = chars_of("|");
        let joined = join_chars(&parts, sep.as_slice());
        string_of(joined.as_slice())
    }

    /// Whether a shell word is one of the control operators.
    fn is_control_operator(token: &[char]) -> (r: bool)
        ensures
            r == is_control_op(token@),
    {
        let a = chars_of("|");
        let b = chars_of("||");
        let c = chars_of("&&");
        let d = chars_of(";");
        eq_chars(token, a.as_slice()) || eq_chars(token, b.as_slice()) || eq_chars(
            token,
            c.as_slice(),
        ) || eq_chars(token, d.as_slice())
    }

    /// The text analysed for a command line: only the first line when it
    /// holds a heredoc.
    fn command_line_of(input: &str) -> (r: String)
        ensures
            r@ == command_line(input@),
    {
        let all = chars_of(input);
        if Self::contains_heredoc(input) {
            let l = first_line_exec(all.as_slice());
            string_of(l.as_slice())
        } else {
            string_of(all.as_slice())
        }
    }

    /// Find every `cd <path>` invocation in the command and return the
    /// target arg. Useful for sandbox checks. `cd` with no arg returns
    /// an empty string (which the caller should treat as "go to $HOME",
    /// almost always outside cwd).
    ///
    /// Walks the shlex-tokenized stream, resets on control operators so
    /// that `cd /tmp && cd /var` returns both targets.
    pub fn extract_cd_targets(input: &str) -> (r: Vec<String>)
        ensures
            r.deep_view() == cd_targets(input@),
    {
        let line = Self::command_line_of(input);
        let tokens = match shell_words(line.as_str()) {
            Some(t) => t,
            None => {
                let v: Vec<String> = Vec::new();
                assert(v.deep_view() =~= Seq::<Seq<char>>::empty());
                return v;
            },
        };
        let ghost toks = tokens.deep_view();
        let ghost goal = cd_scan(toks, 0, 0);
        let mut targets: Vec<String> = Vec::new();
        let mut mode: u8 = 0;
        let mut j: usize = 0;
        let cd = chars_of("cd");
        let dash = chars_of("-");
        assert(targets.deep_view() + cd_scan(toks, 0, 0) =~= goal);
        while j < tokens.len()
            invariant
                j <= tokens@.len(),
                toks == tokens.deep_view(),
                cd@ == "cd"@,
                dash@ == "-"@,
                mode <= 2,
                targets.deep_view() + cd_scan(toks, j as int, mode as int) == goal,
            decreases tokens@.len() - j, if mode == 2 {
                1int
            } else {
                0int
            },
        {
            let t = chars_of(tokens[j].as_str());
            assert(t@ == toks[j as int]);
            let ghost before = targets.deep_view();
            if mode == 2 {
                if Self::is_control_operator(t.as_slice()) {
                    push_string(&mut targets, String::new());
                    assert(targets.deep_view() + cd_scan(toks, j as int, 1) =~= before + cd_scan(
                        toks,
                        j as int,
                        2,
                    ));
                    mode = 1;
                } else if eq_chars(t.as_slice(), dash.as_slice()) {
                    push_string(&mut targets, tokens[j].clone());
                    assert(targets.deep_view() + cd_scan(toks, j + 1, 1) =~= before + cd_scan(
                        toks,
                        j as int,
                        2,
                    ));
                    mode = 1;
                    j += 1;
                } else if starts_with_chars(t.as_slice(), dash.as_slice()) {
                    j += 1;
                } else {
                    push_string(&mut targets, tokens[j].clone());
                    assert(targets.deep_view() + cd_scan(toks, j + 1, 1) =~= before + cd_scan(
                        toks,
                        j as int,
                        2,
                    ));
                    mode = 1;
                    j += 1;
                }
            } else if Self::is_control_operator(t.as_slice()) {
                mode = 0;
                j += 1;
            } else if mode == 0 {
                if Self::is_env_word(t.as_slice()) {
                    j += 1;
                } else if eq_chars(t.as_slice(), cd.as_slice()) {
                    mode = 2;
                    j += 1;
                } else {
                    mode = 1;
                    j += 1;
                }
            } else {
                j += 1;
            }
        }
        if mode == 2 {
            let ghost before = targets.deep_view();
            push_string(&mut targets, String::new());
            assert(targets.deep_view() =~= before + cd_scan(toks, j as int, 2));
        } else {
            assert(targets.deep_view() =~= targets.deep_view() + cd_scan(toks, j as int, mode as int));
        }
        targets
    }

    /// The first command of a command line (skipping env assignments) and
    /// the word after it, unless that word is a control operator.
    pub fn extract_first_command_and_arg(input: &str) -> (r: Option<(String, Option<String>)>)
        ensures
            match r {
                None => first_command_and_arg(input@) is None,
                Some((c, a)) => first_command_and_arg(input@) == Some((c@, a.deep_view())),
            },
    {
        let line = Self::command_line_of(input);
        let tokens = match shell_words(line.as_str()) {
            Some(t) => t,
            None => return None,
        };
        let ghost toks = tokens.deep_view();
        // Skip env vars (RUST_LOG=1 ...)
        let k = Self::first_command_position(&tokens);
        if k >= tokens.len() {
            return None;
        }
        let command = tokens[k].clone();
        // If the next token is a control operator, there is no argument
        if k + 1 < tokens.len() {
            let next = chars_of(tokens[k + 1].as_str());
            if !Self::is_control_operator(next.as_slice()) {
                return Some((command, Some(tokens[k + 1].clone())));
            }
        }
        Some((command, None))
    }
}

/// Inserts `s` into the strictly increasing `sorted` unless already there.
fn insert_sorted_exec(sorted: &mut Vec<Vec<char>>, s: Vec<char>)
    ensures
        views(final(sorted)@) == insert_sorted(views(old(sorted)@), s@),
{
    let ghost orig = views(sorted@);
    let mut pos: usize = 0;
    assert(orig.skip(0) =~= orig);
    assert(orig.take(0) + insert_sorted(orig, s@) =~= insert_sorted(orig, s@));
    while pos < sorted.len()
        invariant
            pos <= sorted@.len(),
            orig == views(sorted@),
            orig == views(old(sorted)@),
            insert_sorted(orig, s@) == orig.take(pos as int) + insert_sorted(
                orig.skip(pos as int),
                s@,
            ),
        decreases sorted@.len() - pos,
    {
        let ghost rest = orig.skip(pos as int);
        assert(rest.len() > 0);
        assert(rest[0] == sorted@[pos as int]@);
        if eq_chars(sorted[pos].as_slice(), s.as_slice()) {
            assert(insert_sorted(rest, s@) == rest);
            assert(orig.take(pos as int) + rest =~= orig);
            return;
        }
        if lex_lt_exec(s.as_slice(), sorted[pos].as_slice()) {
            sorted.insert(pos, s);
            assert(views(sorted@) =~= orig.take(pos as int) + (seq![s@] + rest));
            return;
        }
        assert(rest.drop_first() =~= orig.skip(pos + 1));
        assert(orig.take(pos as int) + (seq![rest[0]] + insert_sorted(orig.skip(pos + 1), s@))
            =~= orig.take(pos + 1) + insert_sorted(orig.skip(pos + 1), s@));
        pos += 1;
    }
    assert(orig.skip(pos as int) =~= Seq::<Seq<char>>::empty());
    sorted.push(s);
    assert(views(sorted@) =~= orig.take(pos as int) + seq![s@]);
    assert(orig.take(pos as int) =~= orig);
}

/// Lexicographic comparison by code point.
pub fn lex_lt_exec(a: &[char], b: &[char]) -> (r: bool)
    ensures
        r == lex_lt(a@, b@),
{
    let mut i: usize = 0;
    assert(a@.skip(0) =~= a@);
    assert(b@.skip(0) =~= b@);
    while i < a.len() && i < b.len() && a[i] == b[i]
        invariant
            i <= a@.len(),
            i <= b@.len(),
            lex_lt(a@, b@) == lex_lt(a@.skip(i as int), b@.skip(i as int)),
        decreases a@.len() - i,
    {
        assert(a@.skip(i as int).drop_first() =~= a@.skip(i + 1));
        assert(b@.skip(i as int).drop_first() =~= b@.skip(i + 1));
        i += 1;
    }
    if i == a.len() {
        return i < b.len();
    }
    if i == b.len() {
        return false;
    }
    (a[i] as u32) < (b[i] as u32)
}

} // verus!
