//! Command shapes (heredoc, subshell, pipeline, ...) and the permission rule
//! each shape suggests and matches.
use crate::text::{
    chars_of, concat, contains, ends_with, ends_with_chars, eq_chars, eq_ignore_ascii_case,
    eq_ignore_ascii_case_exec, extend, extend_str, has_char, join, join_chars, owned,
    skip_chars, starts_with, starts_with_chars, str_contains, string_of, take_chars, trim,
    trim_chars, views,
};
use crate::tools::bash::lexer::{shell_words, shlex_words};
use crate::tools::bash::parser::{
    base_commands, first_command_and_arg, insert_new, subcommands, with_wildcard,
    BashCommandParser,
};
use vstd::prelude::*;

verus! {

/// The abstract content of a [`CommandPatternResult`].
pub struct PatternOutcome {
    pub description: Seq<char>,
    pub summary: Seq<char>,
    pub pattern: Seq<char>,
    pub persistent_message: Seq<char>,
    pub safe: bool,
    pub allow_project_wide_trust: bool,
}

#[derive(Debug, Clone, PartialEq)]
pub struct CommandPatternResult {
    pub description: String,
    /// One-line, plain-English gloss of what the command does, shown in the
    /// permission dialog so the user understands the request at a glance.
    pub summary: String,
    pub pattern: String,
    pub persistent_message: String,
    pub safe: bool,
    /// When false, the permission dialog must NOT offer the "trust project"
    /// option for this command — typically because the pattern is too dynamic
    /// for blanket trust (e.g. arbitrary subshells).
    pub allow_project_wide_trust: bool,
}

impl View for CommandPatternResult {
    type V = PatternOutcome;

    open spec fn view(&self) -> PatternOutcome {
        PatternOutcome {
            description: self.description@,
            summary: self.summary@,
            pattern: self.pattern@,
            persistent_message: self.persistent_message@,
            safe: self.safe,
            allow_project_wide_trust: self.allow_project_wide_trust,
        }
    }
}

/// An outcome built from its six parts.
pub open spec fn outcome(
    description: Seq<char>,
    summary: Seq<char>,
    pattern: Seq<char>,
    persistent_message: Seq<char>,
    safe: bool,
    allow_project_wide_trust: bool,
) -> PatternOutcome {
    PatternOutcome {
        description,
        summary,
        pattern,
        persistent_message,
        safe,
        allow_project_wide_trust,
    }
}

/// A result built from its parts, with the matching view.
fn make_result(
    description: Vec<char>,
    summary: Vec<char>,
    pattern: Vec<char>,
    persistent_message: Vec<char>,
    safe: bool,
    allow_project_wide_trust: bool,
) -> (r: CommandPatternResult)
    ensures
        r@ == outcome(
            description@,
            summary@,
            pattern@,
            persistent_message@,
            safe,
            allow_project_wide_trust,
        ),
{
    CommandPatternResult {
        description: string_of(description.as_slice()),
        summary: string_of(summary.as_slice()),
        pattern: string_of(pattern.as_slice()),
        persistent_message: string_of(persistent_message.as_slice()),
        safe,
        allow_project_wide_trust,
    }
}

/// `x` followed by the literal `b`.
fn suffixed(x: &[char], b: &str) -> (r: Vec<char>)
    ensures
        r@ == x@ + b@,
{
    let y = chars_of(b);
    concat(x, y.as_slice())
}

/// The literal `a` followed by `x`.
fn prefixed(a: &str, x: &[char]) -> (r: Vec<char>)
    ensures
        r@ == a@ + x@,
{
    let y = chars_of(a);
    concat(y.as_slice(), x)
}

/// `a`, `b` and `c` one after the other.
fn cat3(a: &[char], b: &[char], c: &[char]) -> (r: Vec<char>)
    ensures
        r@ == a@ + b@ + c@,
{
    let mut r = concat(a, b);
    extend(&mut r, c);
    r
}

/// A literal between two pieces: `a` + `lit` + `b`.
fn around(a: &str, mid: &[char], b: &str) -> (r: Vec<char>)
    ensures
        r@ == a@ + mid@ + b@,
{
    let x = chars_of(a);
    let y = chars_of(b);
    cat3(x.as_slice(), mid, y.as_slice())
}

impl Default for CommandPatternResult {
    fn default() -> (r: Self)
        ensures
            r@ == outcome(Seq::empty(), Seq::empty(), "*"@, Seq::empty(), false, true),
    {
        Self {
            description: String::new(),
            summary: String::new(),
            pattern: owned("*"),
            persistent_message: String::new(),
            safe: false,
            allow_project_wide_trust: true,
        }
    }
}

// ---------------------------------------------------------------------------
// Friendly lists
// ---------------------------------------------------------------------------
/// A list of names in prose: none → "a command", one → itself, more →
/// "a, b and c".
pub open spec fn prose_list(items: Seq<Seq<char>>) -> Seq<char> {
    if items.len() == 0 {
        "a command"@
    } else if items.len() == 1 {
        items[0]
    } else {
        join(items.drop_last(), ", "@) + " and "@ + items.last()
    }
}

/// Each item between double quotes.
pub open spec fn quoted(items: Seq<Seq<char>>) -> Seq<Seq<char>> {
    Seq::new(items.len(), |i: int| "\""@ + items[i] + "\""@)
}

/// Render a list of base command names as a friendly inline list:
/// `["git"]` -> "git", `["npm", "cp"]` -> "npm and cp",
/// `["a", "b", "c"]` -> "a, b and c".
pub fn join_commands(commands: &[String]) -> (r: String)
    ensures
        r@ == prose_list(commands@.map_values(|s: String| s@)),
{
    let ghost items = commands@.map_values(|s: String| s@);
    let mut parts: Vec<Vec<char>> = Vec::new();
    let mut i: usize = 0;
    while i < commands.len()
        invariant
            i <= commands@.len(),
            items == commands@.map_values(|s: String| s@),
            views(parts@) == items.take(i as int),
        decreases commands@.len() - i,
    {
        let ghost before = views(parts@);
        parts.push(chars_of(commands[i].as_str()));
        assert(views(parts@) =~= before.push(items[i as int]));
        assert(items.take(i + 1) =~= items.take(i as int).push(items[i as int]));
        i += 1;
    }
    assert(items.take(commands@.len() as int) =~= items);
    let r = prose_list_exec(parts);
    string_of(r.as_slice())
}

/// The prose list of character sequences.
fn prose_list_exec(mut parts: Vec<Vec<char>>) -> (r: Vec<char>)
    ensures
        r@ == prose_list(views(parts@)),
{
    let ghost items = views(parts@);
    if parts.len() == 0 {
        return chars_of("a command");
    }
    if parts.len() == 1 {
        return parts[0].clone();
    }
    let last = parts.pop().unwrap();
    assert(views(parts@) =~= items.drop_last());
    let sep = chars_of(", ");
    let head = join_chars(&parts, sep.as_slice());
    let and = chars_of(" and ");
    cat3(head.as_slice(), and.as_slice(), last.as_slice())
}

/// Quote each item, then join into a friendly inline list:
/// `["npx playwright", "docker compose"]` -> `"npx playwright" and "docker compose"`.
pub fn quoted_join(items: &[String]) -> (r: String)
    ensures
        r@ == prose_list(quoted(items@.map_values(|s: String| s@))),
{
    let r = quoted_join_chars(items);
    string_of(r.as_slice())
}

fn quoted_join_chars(items: &[String]) -> (r: Vec<char>)
    ensures
        r@ == prose_list(quoted(items@.map_values(|s: String| s@))),
{
    let ghost xs = items@.map_values(|s: String| s@);
    let mut parts: Vec<Vec<char>> = Vec::new();
    let mut i: usize = 0;
    while i < items.len()
        invariant
            i <= items@.len(),
            xs == items@.map_values(|s: String| s@),
            views(parts@) == quoted(xs).take(i as int),
        decreases items@.len() - i,
    {
        let c = chars_of(items[i].as_str());
        let q = around("\"", c.as_slice(), "\"");
        let ghost before = views(parts@);
        parts.push(q);
        assert(xs[i as int] == items@[i as int]@);
        assert(q@ == quoted(xs)[i as int]);
        assert(views(parts@) =~= before.push(q@));
        assert(quoted(xs).take(i + 1) =~= quoted(xs).take(i as int).push(quoted(xs)[i as int]));
        i += 1;
    }
    assert(quoted(xs).take(items@.len() as int) =~= quoted(xs));
    prose_list_exec(parts)
}

// ---------------------------------------------------------------------------
// Whitelist of read-only commands
// ---------------------------------------------------------------------------
/// Commands that only report information.
pub open spec fn is_info_command(cmd: Seq<char>) -> bool {
    cmd == "ls"@ || cmd == "pwd"@ || cmd == "whoami"@ || cmd == "date"@ || cmd == "echo"@ || cmd
        == "which"@ || cmd == "type"@ || cmd == "hostname"@
}

/// Read-only text processing commands.
pub open spec fn is_text_reader(cmd: Seq<char>) -> bool {
    cmd == "cat"@ || cmd == "head"@ || cmd == "tail"@ || cmd == "less"@ || cmd == "more"@ || cmd
        == "grep"@ || cmd == "wc"@ || cmd == "sort"@ || cmd == "uniq"@ || cmd == "diff"@
}

/// Whether `cmd`, run as `full_command`, is read-only enough to approve
/// without asking: information and text-reading commands unless the line
/// redirects output, `find` unless it runs `-exec`, `-delete` or `-ok`.
pub open spec fn whitelisted(cmd: Seq<char>, full_command: Seq<char>) -> bool {
    if is_info_command(cmd) || is_text_reader(cmd) {
        !full_command.contains('>')
    } else if cmd == "find"@ {
        !contains(full_command, "-exec"@) && !contains(full_command, "-delete"@) && !contains(
            full_command,
            "-ok"@,
        )
    } else {
        false
    }
}

/// Whether `cmd` equals one of the literals.
fn is_one_of(cmd: &[char], names: &Vec<&str>) -> (r: bool)
    ensures
        r == exists|k: int| 0 <= k < names@.len() && cmd@ == names@[k]@,
{
    let mut k: usize = 0;
    while k < names.len()
        invariant
            k <= names@.len(),
            forall|j: int| 0 <= j < k ==> cmd@ != names@[j]@,
        decreases names@.len() - k,
    {
        let n = chars_of(names[k]);
        if eq_chars(cmd, n.as_slice()) {
            return true;
        }
        k += 1;
    }
    false
}

// ---------------------------------------------------------------------------
// Compound rules (pipelines and chains)
// ---------------------------------------------------------------------------
/// Scan state of [`meaningful_prefixes`]: the distinct meaningful prefixes and
/// the distinct bare command names of the first `n` subcommands.
pub open spec fn prefix_scan(subs: Seq<Seq<char>>) -> (Seq<Seq<char>>, Seq<Seq<char>>)
    decreases subs.len(),
{
    if subs.len() == 0 {
        (Seq::empty(), Seq::empty())
    } else {
        let (meaningful, bare_all) = prefix_scan(subs.drop_last());
        let sub = subs.last();
        match first_command_and_arg(sub) {
            None => (meaningful, bare_all),
            Some((cmd, arg)) => {
                let bare = insert_new(bare_all, cmd);
                if cmd == "cd"@ || whitelisted(cmd, sub) {
                    (meaningful, bare)
                } else {
                    let prefix = match arg {
                        Some(a) => cmd + " "@ + a,
                        None => cmd,
                    };
                    (insert_new(meaningful, prefix), bare)
                }
            },
        }
    }
}

/// The commands of a compound line that warrant a rule (see
/// [`meaningful_prefixes`]).
pub open spec fn meaningful(command: Seq<char>) -> Seq<Seq<char>> {
    let (m, bare) = prefix_scan(subcommands(command));
    if m.len() == 0 {
        bare
    } else {
        m
    }
}

/// The commands in a compound pipeline/chain that actually warrant a rule —
/// the read-only/whitelisted subcommands and `cd` are dropped as noise, so a
/// rule keys on the meaningful work (e.g. `npx playwright` out of
/// `cd web && npx playwright test … | grep …`).
///
/// Meaningful commands are returned as 2-word prefixes (`cmd subcmd`) so rules
/// stay reusably scoped. If *every* subcommand is read-only/`cd`, there is no
/// noise to strip and we fall back to the bare base-command names.
pub fn meaningful_prefixes(command: &str) -> (r: Vec<String>)
    ensures
        r.deep_view() == meaningful(command@),
{
    let subs = BashCommandParser::split_subcommands(command);
    let ghost ss = subs.deep_view();
    let mut meaningful_v: Vec<String> = Vec::new();
    let mut bare_all: Vec<String> = Vec::new();
    let mut i: usize = 0;
    let cd = chars_of("cd");
    while i < subs.len()
        invariant
            i <= subs@.len(),
            ss == subs.deep_view(),
            ss == subcommands(command@),
            cd@ == "cd"@,
            (meaningful_v.deep_view(), bare_all.deep_view()) == prefix_scan(ss.take(i as int)),
        decreases subs@.len() - i,
    {
        assert(ss.take(i + 1).drop_last() =~= ss.take(i as int));
        assert(ss.take(i + 1).last() == subs@[i as int]@);
        let sub = subs[i].as_str();
        match BashCommandParser::extract_first_command_and_arg(sub) {
            None => {},
            Some((cmd, arg)) => {
                let cmd_c = chars_of(cmd.as_str());
                add_distinct(&mut bare_all, cmd.clone());
                if eq_chars(cmd_c.as_slice(), cd.as_slice()) || SingleCommandPattern::is_whitelisted(
                    cmd.as_str(),
                    sub,
                ) {
                } else {
                    let prefix = match arg {
                        Some(a) => {
                            let ac = chars_of(a.as_str());
                            let p = suffixed(cmd_c.as_slice(), " ");
                            let mut p = p;
                            extend(&mut p, ac.as_slice());
                            assert(p@ =~= cmd@ + " "@ + a@);
                            string_of(p.as_slice())
                        },
                        None => cmd,
                    };
                    add_distinct(&mut meaningful_v, prefix);
                }
            },
        }
        i += 1;
    }
    assert(ss.take(subs@.len() as int) =~= ss);
    if meaningful_v.len() == 0 {
        bare_all
    } else {
        meaningful_v
    }
}

/// Appends `s` to `v` unless an equal string is already there.
fn add_distinct(v: &mut Vec<String>, s: String)
    ensures
        final(v).deep_view() == insert_new(old(v).deep_view(), s@),
{
    let sc = chars_of(s.as_str());
    let mut k: usize = 0;
    while k < v.len()
        invariant
            k <= v@.len(),
            sc@ == s@,
            forall|j: int| 0 <= j < k ==> #[trigger] v.deep_view()[j] != s@,
        decreases v@.len() - k,
    {
        let e = chars_of(v[k].as_str());
        if eq_chars(e.as_slice(), sc.as_slice()) {
            assert(v.deep_view()[k as int] == s@);
            return;
        }
        k += 1;
    }
    assert(!v.deep_view().contains(s@));
    let ghost before = v.deep_view();
    v.push(s);
    assert(v.deep_view() =~= before.push(s@));
}

/// `s` with every trailing repetition of a non-empty `p` removed
/// (`str::trim_end_matches`).
pub open spec fn strip_all_suffix(s: Seq<char>, p: Seq<char>) -> Seq<char>
    decreases s.len(),
{
    if p.len() > 0 && ends_with(s, p) {
        strip_all_suffix(s.take(s.len() - p.len()), p)
    } else {
        s
    }
}

/// The pieces of `s` between `|` and `&` characters, read from index `i`
/// with `cur` the piece under construction and `acc` the pieces before it.
pub open spec fn split_bars(s: Seq<char>, i: int, cur: Seq<char>, acc: Seq<Seq<char>>) -> Seq<
    Seq<char>,
>
    decreases s.len() - i,
{
    if i >= s.len() || i < 0 {
        acc.push(cur)
    } else if s[i] == '|' || s[i] == '&' {
        split_bars(s, i + 1, Seq::empty(), acc.push(cur))
    } else {
        split_bars(s, i + 1, cur.push(s[i]), acc)
    }
}

/// One stored piece of a compound rule, cleaned: trimmed, with trailing
/// `:*` and `*` removed, trimmed again.
pub open spec fn clean_piece(p: Seq<char>) -> Seq<char> {
    trim(strip_all_suffix(strip_all_suffix(trim(p), ":*"@), "*"@))
}

/// The non-empty cleaned pieces of `pieces`.
pub open spec fn stored_prefixes(pieces: Seq<Seq<char>>) -> Seq<Seq<char>>
    decreases pieces.len(),
{
    if pieces.len() == 0 {
        Seq::empty()
    } else {
        let rest = stored_prefixes(pieces.drop_last());
        let c = clean_piece(pieces.last());
        if c.len() > 0 {
            rest.push(c)
        } else {
            rest
        }
    }
}

/// The command prefixes a compound rule trusts.
pub open spec fn rule_prefixes(pattern: Seq<char>) -> Seq<Seq<char>> {
    stored_prefixes(split_bars(pattern, 0, Seq::empty(), Seq::empty()))
}

/// The text of `p` before its first space (all of `p` when it has none).
pub open spec fn first_word(p: Seq<char>) -> Seq<char> {
    if p.contains(' ') {
        let k = choose|k: int|
            0 <= k < p.len() && p[k] == ' ' && forall|j: int| 0 <= j < k ==> p[j] != ' ';
        p.take(k)
    } else {
        p
    }
}

/// Whether a stored set of prefixes covers one incoming prefix: it holds the
/// prefix itself or its bare command.
pub open spec fn covered(stored: Seq<Seq<char>>, prefix: Seq<char>) -> bool {
    stored.contains(prefix) || stored.contains(first_word(prefix))
}

/// Whether a compound rule matches a command (see [`compound_matches`]).
pub open spec fn compound_rule_matches(pattern: Seq<char>, command: Seq<char>) -> bool {
    if pattern == "*"@ {
        true
    } else {
        let stored = rule_prefixes(pattern);
        let incoming = meaningful(command);
        stored.len() > 0 && incoming.len() > 0 && forall|k: int|
            0 <= k < incoming.len() ==> covered(stored, #[trigger] incoming[k])
    }
}

/// `s` with every trailing repetition of `p` removed.
fn strip_all_suffix_exec(s: &[char], p: &[char]) -> (r: Vec<char>)
    requires
        p@.len() > 0,
    ensures
        r@ == strip_all_suffix(s@, p@),
{
    let mut n: usize = s.len();
    assert(s@.take(n as int) =~= s@);
    loop
        invariant
            n <= s@.len(),
            p@.len() > 0,
            strip_all_suffix(s@, p@) == strip_all_suffix(s@.take(n as int), p@),
        decreases n,
    {
        let cur = take_chars(s, n);
        if ends_with_chars(cur.as_slice(), p) {
            assert(cur@.take(cur@.len() - p@.len()) =~= s@.take(n - p@.len()));
            n = n - p.len();
        } else {
            return cur;
        }
    }
}

/// The pieces of `s` between `|` and `&`.
fn split_bars_exec(s: &[char]) -> (r: Vec<Vec<char>>)
    ensures
        views(r@) == split_bars(s@, 0, Seq::empty(), Seq::empty()),
{
    let mut acc: Vec<Vec<char>> = Vec::new();
    let mut cur: Vec<char> = Vec::new();
    let mut i: usize = 0;
    assert(views(acc@) =~= Seq::<Seq<char>>::empty());
    while i < s.len()
        invariant
            i <= s@.len(),
            split_bars(s@, i as int, cur@, views(acc@)) == split_bars(
                s@,
                0,
                Seq::empty(),
                Seq::empty(),
            ),
        decreases s@.len() - i,
    {
        if s[i] == '|' || s[i] == '&' {
            let ghost before = views(acc@);
            let piece = cur;
            acc.push(piece);
            assert(views(acc@) =~= before.push(piece@));
            cur = Vec::new();
        } else {
            cur.push(s[i]);
        }
        i += 1;
    }
    let ghost before = views(acc@);
    acc.push(cur);
    assert(views(acc@) =~= before.push(cur@));
    acc
}

/// The non-empty cleaned pieces of a compound rule.
fn rule_prefixes_exec(pattern: &[char]) -> (r: Vec<Vec<char>>)
    ensures
        views(r@) == rule_prefixes(pattern@),
{
    let pieces = split_bars_exec(pattern);
    let ghost ps = views(pieces@);
    let colon_star = chars_of(":*");
    let star = chars_of("*");
    proof {
        reveal_strlit(":*");
        reveal_strlit("*");
    }
    let mut out: Vec<Vec<char>> = Vec::new();
    let mut i: usize = 0;
    while i < pieces.len()
        invariant
            i <= pieces@.len(),
            ps == views(pieces@),
            colon_star@ == ":*"@,
            star@ == "*"@,
            colon_star@.len() > 0,
            star@.len() > 0,
            views(out@) == stored_prefixes(ps.take(i as int)),
        decreases pieces@.len() - i,
    {
        assert(ps.take(i + 1).drop_last() =~= ps.take(i as int));
        assert(ps.take(i + 1).last() == pieces@[i as int]@);
        let t1 = trim_chars(pieces[i].as_slice());
        let t2 = strip_all_suffix_exec(t1.as_slice(), colon_star.as_slice());
        let t3 = strip_all_suffix_exec(t2.as_slice(), star.as_slice());
        let c = trim_chars(t3.as_slice());
        if c.len() > 0 {
            let ghost before = views(out@);
            out.push(c);
            assert(views(out@) =~= before.push(c@));
        }
        i += 1;
    }
    assert(ps.take(pieces@.len() as int) =~= ps);
    out
}

/// The text of `p` before its first space.
fn first_word_exec(p: &[char]) -> (r: Vec<char>)
    ensures
        r@ == first_word(p@),
{
    let mut k: usize = 0;
    while k < p.len() && p[k] != ' '
        invariant
            k <= p@.len(),
            forall|j: int| 0 <= j < k ==> p@[j] != ' ',
        decreases p@.len() - k,
    {
        k += 1;
    }
    if k == p.len() {
        assert(!p@.contains(' '));
        assert(p@.take(k as int) =~= p@);
        return take_chars(p, k);
    }
    assert(p@.contains(' ')) by {
        assert(p@[k as int] == ' ');
    }
    proof {
        let idx = choose|k: int|
            0 <= k < p@.len() && p@[k] == ' ' && forall|j: int| 0 <= j < k ==> p@[j] != ' ';
        assert(0 <= k < p@.len() && p@[k as int] == ' ' && forall|j: int|
            0 <= j < k ==> p@[j] != ' ');
        if idx < k {
            assert(p@[idx] != ' ');
        }
        if idx > k {
            assert(p@[k as int] != ' ');
        }
    }
    take_chars(p, k)
}

/// Whether `stored` holds `x`.
fn holds(stored: &Vec<Vec<char>>, x: &[char]) -> (r: bool)
    ensures
        r == views(stored@).contains(x@),
{
    let mut k: usize = 0;
    while k < stored.len()
        invariant
            k <= stored@.len(),
            forall|j: int| 0 <= j < k ==> views(stored@)[j] != x@,
        decreases stored@.len() - k,
    {
        if eq_chars(stored[k].as_slice(), x) {
            assert(views(stored@)[k as int] == x@);
            return true;
        }
        k += 1;
    }
    false
}

/// Shared matcher for pipeline/chain rules. A stored rule trusts a set of
/// command prefixes; a command matches only when *every* meaningful command it
/// runs is covered by that set (subset-of-trust, the safe direction). A stored
/// 2-word prefix (`npx playwright`) matches that exact prefix; a stored bare
/// command (`cargo`) matches any of its subcommands.
pub fn compound_matches(pattern: &str, command: &str) -> (r: bool)
    ensures
        r == compound_rule_matches(pattern@, command@),
{
    let pc = chars_of(pattern);
    let star = chars_of("*");
    if eq_chars(pc.as_slice(), star.as_slice()) {
        return true;
    }
    let stored = rule_prefixes_exec(pc.as_slice());
    if stored.len() == 0 {
        return false;
    }
    let incoming = meaningful_prefixes(command);
    let ghost inc = incoming.deep_view();
    if incoming.len() == 0 {
        return false;
    }
    let mut k: usize = 0;
    while k < incoming.len()
        invariant
            k <= incoming@.len(),
            inc == incoming.deep_view(),
            inc == meaningful(command@),
            pattern@ != "*"@,
            views(stored@) == rule_prefixes(pattern@),
            forall|j: int| 0 <= j < k ==> covered(views(stored@), #[trigger] inc[j]),
        decreases incoming@.len() - k,
    {
        let prefix = chars_of(incoming[k].as_str());
        let base = first_word_exec(prefix.as_slice());
        if !(holds(&stored, prefix.as_slice()) || holds(&stored, base.as_slice())) {
            assert(!covered(views(stored@), inc[k as int]));
            return false;
        }
        k += 1;
    }
    true
}

proof fn lemma_split_bars_acc(s: Seq<char>, i: int, cur: Seq<char>, acc: Seq<Seq<char>>)
    requires
        0 <= i,
    ensures
        split_bars(s, i, cur, acc) == acc + split_bars(s, i, cur, Seq::empty()),
    decreases s.len() - i,
{
    if i >= s.len() {
        assert(acc.push(cur) =~= acc + Seq::<Seq<char>>::empty().push(cur));
    } else if s[i] == '|' || s[i] == '&' {
        let one = Seq::<Seq<char>>::empty().push(cur);
        lemma_split_bars_acc(s, i + 1, Seq::empty(), acc.push(cur));
        lemma_split_bars_acc(s, i + 1, Seq::empty(), one);
        let rest = split_bars(s, i + 1, Seq::empty(), Seq::empty());
        assert(acc.push(cur) + rest =~= acc + (one + rest));
    } else {
        lemma_split_bars_acc(s, i + 1, cur.push(s[i]), acc);
        lemma_split_bars_acc(s, i + 1, cur.push(s[i]), Seq::empty());
    }
}

proof fn lemma_split_bars_shift(pre: Seq<char>, t: Seq<char>, j: int, cur: Seq<char>, acc: Seq<Seq<char>>)
    requires
        0 <= j,
    ensures
        split_bars(pre + t, pre.len() + j, cur, acc) == split_bars(t, j, cur, acc),
    decreases t.len() - j,
{
    if j < t.len() {
        assert((pre + t)[pre.len() + j] == t[j]);
        if t[j] == '|' || t[j] == '&' {
            lemma_split_bars_shift(pre, t, j + 1, Seq::empty(), acc.push(cur));
        } else {
            lemma_split_bars_shift(pre, t, j + 1, cur.push(t[j]), acc);
        }
    }
}

/// Splitting `p|q` splits `p`, then goes on with `q`.
proof fn lemma_split_bars_joined(p: Seq<char>, q: Seq<char>, i: int, cur: Seq<char>, acc: Seq<Seq<char>>)
    requires
        0 <= i <= p.len(),
    ensures
        split_bars(p + seq!['|'] + q, i, cur, acc) == split_bars(q, 0, Seq::empty(), split_bars(p, i, cur, acc)),
    decreases p.len() - i,
{
    let s = p + seq!['|'] + q;
    if i == p.len() {
        assert(s[i] == '|');
        lemma_split_bars_shift(p + seq!['|'], q, 0, Seq::empty(), acc.push(cur));
        assert(p + seq!['|'] + q == s);
    } else {
        assert(s[i] == p[i]);
        if p[i] == '|' || p[i] == '&' {
            lemma_split_bars_joined(p, q, i + 1, Seq::empty(), acc.push(cur));
        } else {
            lemma_split_bars_joined(p, q, i + 1, cur.push(p[i]), acc);
        }
    }
}

proof fn lemma_stored_prefixes_concat(x: Seq<Seq<char>>, y: Seq<Seq<char>>)
    ensures
        stored_prefixes(x + y) == stored_prefixes(x) + stored_prefixes(y),
    decreases y.len(),
{
    if y.len() == 0 {
        assert(x + y =~= x);
        assert(stored_prefixes(x) + stored_prefixes(y) =~= stored_prefixes(x));
    } else {
        assert((x + y).drop_last() =~= x + y.drop_last());
        assert((x + y).last() == y.last());
        lemma_stored_prefixes_concat(x, y.drop_last());
        let c = clean_piece(y.last());
        if c.len() > 0 {
            assert(stored_prefixes(x) + stored_prefixes(y.drop_last()).push(c) =~= (stored_prefixes(x)
                + stored_prefixes(y.drop_last())).push(c));
        }
    }
}

/// Trusting more prefixes never revokes a match: when a stored pipeline or
/// chain rule `p` (other than the catch-all `*`) matches a command, the
/// rule `p|q`, which trusts the prefixes of `q` as well, matches it too.
pub proof fn law_compound_rule_grows(p: Seq<char>, q: Seq<char>, command: Seq<char>)
    requires
        p != "*"@,
        compound_rule_matches(p, command),
    ensures
        compound_rule_matches(p + "|"@ + q, command),
{
    reveal_strlit("*");
    reveal_strlit("|");
    let s = p + "|"@ + q;
    assert(s == p + seq!['|'] + q);
    assert(s[p.len() as int] == '|');
    assert(s != "*"@) by {
        if s == "*"@ {
            assert(s.len() == 1);
            assert(s[0] == '*');
        }
    }
    let sp = split_bars(p, 0, Seq::empty(), Seq::empty());
    let sq = split_bars(q, 0, Seq::empty(), Seq::empty());
    lemma_split_bars_joined(p, q, 0, Seq::empty(), Seq::empty());
    lemma_split_bars_acc(q, 0, Seq::empty(), sp);
    lemma_stored_prefixes_concat(sp, sq);
    let old_stored = rule_prefixes(p);
    let new_stored = rule_prefixes(s);
    assert(new_stored == old_stored + stored_prefixes(sq));
    let incoming = meaningful(command);
    assert forall|k: int| 0 <= k < incoming.len() implies covered(new_stored, #[trigger] incoming[k]) by {
        let x = incoming[k];
        assert(covered(old_stored, x));
        if old_stored.contains(x) {
            let m = choose|m: int| 0 <= m < old_stored.len() && old_stored[m] == x;
            assert(new_stored[m] == x);
        } else {
            let w = first_word(x);
            let m = choose|m: int| 0 <= m < old_stored.len() && old_stored[m] == w;
            assert(new_stored[m] == w);
        }
    }
}

// ---------------------------------------------------------------------------
// The pattern trait and its implementations
// ---------------------------------------------------------------------------
pub trait BashCommandPattern: Send + Sync {
    /// Whether this shape applies to a command.
    spec fn shape_matches(&self, command: Seq<char>) -> bool;

    /// Whether a stored rule of this shape covers a command.
    spec fn rule_matches(&self, pattern: Seq<char>, command: Seq<char>) -> bool;

    /// The description and suggested rule for a command of this shape.
    spec fn analysis(&self, command: Seq<char>) -> PatternOutcome;

    /// The rank of the shape: higher ranks are tried first.
    spec fn rank(&self) -> u32;

    fn matches(&self, command: &str) -> (r: bool)
        ensures
            r == self.shape_matches(command@),
    ;

    fn matches_pattern(&self, pattern: &str, command: &str) -> (r: bool)
        ensures
            r == self.rule_matches(pattern@, command@),
    ;

    fn analyze(&self, command: &str) -> (r: CommandPatternResult)
        ensures
            r@ == self.analysis(command@),
    ;

    fn priority(&self) -> (r: u32)
        ensures
            r == self.rank(),
    ;
}

/// A command substitution (`$(`) or a backtick occurs in the text.
pub open spec fn has_subshell(c: Seq<char>) -> bool {
    contains(c, "$("@) || c.contains('`')
}

/// The first base command of a line, or `*` when it has none.
pub open spec fn lead_command(c: Seq<char>) -> Seq<char> {
    if base_commands(c).len() > 0 {
        base_commands(c)[0]
    } else {
        "*"@
    }
}

fn lead_command_exec(command: &str) -> (r: Vec<char>)
    ensures
        r@ == lead_command(command@),
{
    let base = BashCommandParser::extract_base_commands(command);
    if base.len() > 0 {
        chars_of(base[0].as_str())
    } else {
        chars_of("*")
    }
}

pub struct SubshellPattern;

/// The outcome for any command with a subshell.
pub open spec fn subshell_outcome() -> PatternOutcome {
    outcome(
        "command with subshell execution"@,
        "Runs a command that executes another command inline (subshell)"@,
        "subshell:none"@,
        "subshells are evaluated per-call and cannot be pre-approved project-wide"@,
        false,
        false,
    )
}

impl BashCommandPattern for SubshellPattern {
    open spec fn shape_matches(&self, command: Seq<char>) -> bool {
        has_subshell(command)
    }

    open spec fn rule_matches(&self, pattern: Seq<char>, command: Seq<char>) -> bool {
        pattern == "*"@ && has_subshell(command)
    }

    open spec fn analysis(&self, command: Seq<char>) -> PatternOutcome {
        subshell_outcome()
    }

    open spec fn rank(&self) -> u32 {
        90
    }

    fn matches(&self, command: &str) -> (r: bool) {
        BashCommandParser::contains_subshell(command)
    }

    fn matches_pattern(&self, pattern: &str, command: &str) -> (r: bool) {
        // Subshell patterns always use wildcard
        let p = chars_of(pattern);
        let star = chars_of("*");
        eq_chars(p.as_slice(), star.as_slice()) && BashCommandParser::contains_subshell(command)
    }

    fn analyze(&self, _command: &str) -> (r: CommandPatternResult) {
        // A subshell rule used to be stored as "*" — that silently
        // matched every future bash command and granted blanket trust.
        // Keep the pattern stable but mark trust-project as disallowed
        // so no rule ever gets persisted from this prompt.
        make_result(
            chars_of("command with subshell execution"),
            chars_of("Runs a command that executes another command inline (subshell)"),
            chars_of("subshell:none"),
            chars_of("subshells are evaluated per-call and cannot be pre-approved project-wide"),
            false,  // NEVER safe to auto-approve subshells
            false,
        )
    }

    fn priority(&self) -> (r: u32) {
        90  // High priority, just below Heredoc

    }
}

pub struct RedirectionPattern;

/// A `>` or `<` occurs, but no heredoc `<<`.
pub open spec fn has_redirection(c: Seq<char>) -> bool {
    (c.contains('>') || c.contains('<')) && !contains(c, "<<"@)
}

/// The outcome for a command with redirection.
pub open spec fn redirection_outcome(c: Seq<char>) -> PatternOutcome {
    let cmd = lead_command(c);
    outcome(
        cmd + " with redirection"@,
        "Runs `"@ + cmd + "` and redirects its input/output to a file"@,
        cmd + ":>"@,
        "don't ask me again for \""@ + cmd + "\" commands with redirection (>, <) in this project"@,
        false,
        true,
    )
}

/// Whether a stored redirection rule `cmd:>` covers a command: the trimmed
/// command starts with `cmd` and writes with `>`.
pub open spec fn redirection_rule_matches(pattern: Seq<char>, command: Seq<char>) -> bool {
    if ends_with(pattern, ":>"@) {
        let cmd = pattern.take(pattern.len() - 2);
        starts_with(trim(command), cmd) && command.contains('>')
    } else {
        false
    }
}

impl BashCommandPattern for RedirectionPattern {
    open spec fn shape_matches(&self, command: Seq<char>) -> bool {
        has_redirection(command)
    }

    open spec fn rule_matches(&self, pattern: Seq<char>, command: Seq<char>) -> bool {
        redirection_rule_matches(pattern, command)
    }

    open spec fn analysis(&self, command: Seq<char>) -> PatternOutcome {
        redirection_outcome(command)
    }

    open spec fn rank(&self) -> u32 {
        70
    }

    fn matches(&self, command: &str) -> (r: bool) {
        // Match > or < but not << (heredoc)
        let c = chars_of(command);
        (has_char(c.as_slice(), '>') || has_char(c.as_slice(), '<')) && !str_contains(
            command,
            "<<",
        )
    }

    fn analyze(&self, command: &str) -> (r: CommandPatternResult) {
        let cmd = lead_command_exec(command);
        make_result(
            suffixed(cmd.as_slice(), " with redirection"),
            around("Runs `", cmd.as_slice(), "` and redirects its input/output to a file"),
            suffixed(cmd.as_slice(), ":>"),
            around(
                "don't ask me again for \"",
                cmd.as_slice(),
                "\" commands with redirection (>, <) in this project",
            ),
            false,
            true,
        )
    }

    fn priority(&self) -> (r: u32) {
        70
    }

    fn matches_pattern(&self, pattern: &str, command: &str) -> (r: bool) {
        let p = chars_of(pattern);
        let suffix = chars_of(":>");
        if ends_with_chars(p.as_slice(), suffix.as_slice()) {
            proof {
                reveal_strlit(":>");
            }
            let cmd = take_chars(p.as_slice(), p.len() - 2);
            let c = chars_of(command);
            let t = trim_chars(c.as_slice());
            starts_with_chars(t.as_slice(), cmd.as_slice()) && has_char(c.as_slice(), '>')
        } else {
            false
        }
    }
}

pub struct HeredocPattern;

/// The outcome for a command with a heredoc.
pub open spec fn heredoc_outcome(c: Seq<char>) -> PatternOutcome {
    let cmd = lead_command(c);
    outcome(
        cmd + " with heredoc"@,
        "Feeds an inline document (heredoc) into `"@ + cmd + "`"@,
        cmd + ":<<"@,
        "don't ask me again for \""@ + cmd + "\" commands with heredoc (<<) in this project"@,
        false,
        true,
    )
}

/// Whether a stored heredoc rule `cmd:<<` (or `*:<<`) covers a command: it
/// holds a heredoc and, unless the rule is `*`, its trimmed text starts with
/// `cmd` followed by the end or a space.
pub open spec fn heredoc_rule_matches(pattern: Seq<char>, command: Seq<char>) -> bool {
    if ends_with(pattern, ":<<"@) {
        let prefix = pattern.take(pattern.len() - 3);
        if prefix == "*"@ {
            contains(command, "<<"@)
        } else {
            let clean = trim(command);
            if starts_with(clean, prefix) {
                let rest = clean.skip(prefix.len() as int);
                (rest.len() == 0 || rest[0] == ' ') && contains(command, "<<"@)
            } else {
                false
            }
        }
    } else {
        false
    }
}

impl BashCommandPattern for HeredocPattern {
    open spec fn shape_matches(&self, command: Seq<char>) -> bool {
        contains(command, "<<"@)
    }

    open spec fn rule_matches(&self, pattern: Seq<char>, command: Seq<char>) -> bool {
        heredoc_rule_matches(pattern, command)
    }

    open spec fn analysis(&self, command: Seq<char>) -> PatternOutcome {
        heredoc_outcome(command)
    }

    open spec fn rank(&self) -> u32 {
        100
    }

    fn matches(&self, command: &str) -> (r: bool) {
        BashCommandParser::contains_heredoc(command)
    }

    fn matches_pattern(&self, pattern: &str, command: &str) -> (r: bool) {
        let p = chars_of(pattern);
        let suffix = chars_of(":<<");
        if ends_with_chars(p.as_slice(), suffix.as_slice()) {
            proof {
                reveal_strlit(":<<");
            }
            let prefix = take_chars(p.as_slice(), p.len() - 3);
            let star = chars_of("*");
            if eq_chars(prefix.as_slice(), star.as_slice()) {
                return str_contains(command, "<<");
            }
            let c = chars_of(command);
            let clean_target = trim_chars(c.as_slice());
            if starts_with_chars(clean_target.as_slice(), prefix.as_slice()) {
                let rest = skip_chars(clean_target.as_slice(), prefix.len());
                let valid_word_boundary = rest.len() == 0 || rest[0] == ' ';
                return valid_word_boundary && str_contains(command, "<<");
            }
            false
        } else {
            false
        }
    }

    fn analyze(&self, command: &str) -> (r: CommandPatternResult) {
        let cmd = lead_command_exec(command);
        make_result(
            suffixed(cmd.as_slice(), " with heredoc"),
            around("Feeds an inline document (heredoc) into `", cmd.as_slice(), "`"),
            suffixed(cmd.as_slice(), ":<<"),
            around(
                "don't ask me again for \"",
                cmd.as_slice(),
                "\" commands with heredoc (<<) in this project",
            ),
            false,
            true,
        )
    }

    fn priority(&self) -> (r: u32) {
        100
    }
}

/// All base commands are the first one.
pub open spec fn all_same(bc: Seq<Seq<char>>) -> bool {
    forall|k: int| 0 <= k < bc.len() ==> #[trigger] bc[k] == bc[0]
}

fn all_same_exec(bc: &Vec<String>) -> (r: bool)
    requires
        bc@.len() > 0,
    ensures
        r == all_same(bc.deep_view()),
{
    let ghost dv = bc.deep_view();
    let first = chars_of(bc[0].as_str());
    let mut k: usize = 0;
    while k < bc.len()
        invariant
            k <= bc@.len(),
            dv == bc.deep_view(),
            first@ == dv[0],
            forall|j: int| 0 <= j < k ==> #[trigger] dv[j] == dv[0],
        decreases bc@.len() - k,
    {
        let x = chars_of(bc[k].as_str());
        if !eq_chars(x.as_slice(), first.as_slice()) {
            assert(dv[k as int] != dv[0]);
            return false;
        }
        k += 1;
    }
    true
}

pub struct PipelinePattern;

/// The outcome for a pipeline.
pub open spec fn pipeline_outcome(c: Seq<char>) -> PatternOutcome {
    let bc = base_commands(c);
    if bc.len() == 0 {
        outcome(
            "pipeline"@,
            "Pipes output between commands"@,
            "*"@,
            "don't ask me again for bash in this project"@,
            false,
            true,
        )
    } else if all_same(bc) {
        outcome(
            bc[0],
            "Pipes data through `"@ + bc[0] + "`"@,
            bc[0] + ":*"@,
            "don't ask me again for \""@ + bc[0] + "\" commands in this project"@,
            false,
            true,
        )
    } else {
        let prefixes = meaningful(c);
        if prefixes.len() == 1 {
            let p = prefixes[0];
            outcome(
                p,
                "Runs `"@ + p + "` and pipes its output"@,
                p + ":*"@,
                "don't ask me again for \""@ + p + "\" commands in this project"@,
                false,
                true,
            )
        } else {
            outcome(
                join(prefixes, ", "@),
                "Pipes output through "@ + prose_list(prefixes),
                join(with_wildcard(prefixes), "|"@),
                "don't ask me again for "@ + prose_list(quoted(prefixes)) + " commands in this project"@,
                false,
                true,
            )
        }
    }
}

impl BashCommandPattern for PipelinePattern {
    open spec fn shape_matches(&self, command: Seq<char>) -> bool {
        command.contains('|') && !contains(command, "||"@)
    }

    open spec fn rule_matches(&self, pattern: Seq<char>, command: Seq<char>) -> bool {
        compound_rule_matches(pattern, command)
    }

    open spec fn analysis(&self, command: Seq<char>) -> PatternOutcome {
        pipeline_outcome(command)
    }

    open spec fn rank(&self) -> u32 {
        80
    }

    fn matches(&self, command: &str) -> (r: bool) {
        let c = chars_of(command);
        has_char(c.as_slice(), '|') && !str_contains(command, "||")
    }

    fn matches_pattern(&self, pattern: &str, command: &str) -> (r: bool) {
        compound_matches(pattern, command)
    }

    fn analyze(&self, command: &str) -> (r: CommandPatternResult) {
        let base_commands = BashCommandParser::extract_base_commands(command);
        if base_commands.len() == 0 {
            return make_result(
                chars_of("pipeline"),
                chars_of("Pipes output between commands"),
                chars_of("*"),
                chars_of("don't ask me again for bash in this project"),
                false,
                true,
            );
        }
        if all_same_exec(&base_commands) {
            let b = chars_of(base_commands[0].as_str());
            return make_result(
                b.clone(),
                around("Pipes data through `", b.as_slice(), "`"),
                suffixed(b.as_slice(), ":*"),
                around("don't ask me again for \"", b.as_slice(), "\" commands in this project"),
                false,
                true,
            );
        }
        let prefixes = meaningful_prefixes(command);
        compound_outcome(&prefixes, true)
    }

    fn priority(&self) -> (r: u32) {
        80
    }
}

/// The rule for several meaningful prefixes: one prefix keys alone, more are
/// joined (`|` for pipelines, `&` for chains).
fn compound_outcome(prefixes: &Vec<String>, pipeline: bool) -> (r: CommandPatternResult)
    ensures
        r@ == if pipeline {
            pipeline_multi(prefixes.deep_view())
        } else {
            chain_multi(prefixes.deep_view())
        },
{
    let ghost ps = prefixes.deep_view();
    if prefixes.len() == 1 {
        let p = chars_of(prefixes[0].as_str());
        let summary = if pipeline {
            around("Runs `", p.as_slice(), "` and pipes its output")
        } else {
            around("Runs `", p.as_slice(), "`")
        };
        return make_result(
            p.clone(),
            summary,
            suffixed(p.as_slice(), ":*"),
            around("don't ask me again for \"", p.as_slice(), "\" commands in this project"),
            false,
            true,
        );
    }
    let mut parts: Vec<Vec<char>> = Vec::new();
    let mut wild: Vec<Vec<char>> = Vec::new();
    let mut i: usize = 0;
    while i < prefixes.len()
        invariant
            i <= prefixes@.len(),
            ps == prefixes.deep_view(),
            views(parts@) == ps.take(i as int),
            views(wild@) == with_wildcard(ps).take(i as int),
        decreases prefixes@.len() - i,
    {
        let c = chars_of(prefixes[i].as_str());
        let w = suffixed(c.as_slice(), ":*");
        let ghost b1 = views(parts@);
        let ghost b2 = views(wild@);
        assert(ps[i as int] == prefixes@[i as int]@);
        assert(w@ == with_wildcard(ps)[i as int]);
        parts.push(c);
        wild.push(w);
        assert(views(parts@) =~= b1.push(c@));
        assert(views(wild@) =~= b2.push(w@));
        assert(ps.take(i + 1) =~= ps.take(i as int).push(ps[i as int]));
        assert(with_wildcard(ps).take(i + 1) =~= with_wildcard(ps).take(i as int).push(
            with_wildcard(ps)[i as int],
        ));
        i += 1;
    }
    assert(ps.take(prefixes@.len() as int) =~= ps);
    assert(with_wildcard(ps).take(prefixes@.len() as int) =~= with_wildcard(ps));
    let comma = chars_of(", ");
    let description = join_chars(&parts, comma.as_slice());
    let sep = if pipeline {
        chars_of("|")
    } else {
        chars_of("&")
    };
    let pattern = join_chars(&wild, sep.as_slice());
    let listed = prose_list_exec(parts);
    let summary = if pipeline {
        prefixed("Pipes output through ", listed.as_slice())
    } else {
        around("Runs ", listed.as_slice(), " in sequence")
    };
    let q = quoted_join_chars(prefixes.as_slice());
    assert(prefixes@.map_values(|s: String| s@) =~= ps);
    let message = around("don't ask me again for ", q.as_slice(), " commands in this project");
    make_result(description, summary, pattern, message, false, true)
}

/// The pipeline outcome once more than one distinct base command is present.
pub open spec fn pipeline_multi(prefixes: Seq<Seq<char>>) -> PatternOutcome {
    if prefixes.len() == 1 {
        let p = prefixes[0];
        outcome(
            p,
            "Runs `"@ + p + "` and pipes its output"@,
            p + ":*"@,
            "don't ask me again for \""@ + p + "\" commands in this project"@,
            false,
            true,
        )
    } else {
        outcome(
            join(prefixes, ", "@),
            "Pipes output through "@ + prose_list(prefixes),
            join(with_wildcard(prefixes), "|"@),
            "don't ask me again for "@ + prose_list(quoted(prefixes)) + " commands in this project"@,
            false,
            true,
        )
    }
}

/// The chain outcome once more than one distinct base command is present.
pub open spec fn chain_multi(prefixes: Seq<Seq<char>>) -> PatternOutcome {
    if prefixes.len() == 1 {
        let p = prefixes[0];
        outcome(
            p,
            "Runs `"@ + p + "`"@,
            p + ":*"@,
            "don't ask me again for \""@ + p + "\" commands in this project"@,
            false,
            true,
        )
    } else {
        outcome(
            join(prefixes, ", "@),
            "Runs "@ + prose_list(prefixes) + " in sequence"@,
            join(with_wildcard(prefixes), "&"@),
            "don't ask me again for "@ + prose_list(quoted(prefixes)) + " commands in this project"@,
            false,
            true,
        )
    }
}

pub struct CommandChainPattern;

/// The outcome for a command chain.
pub open spec fn chain_outcome(c: Seq<char>) -> PatternOutcome {
    let bc = base_commands(c);
    if bc.len() == 0 {
        outcome(
            "command chain"@,
            "Runs several commands in sequence"@,
            "*"@,
            "don't ask me again for bash in this project"@,
            false,
            true,
        )
    } else if all_same(bc) {
        outcome(
            bc[0],
            "Runs several `"@ + bc[0] + "` commands in sequence"@,
            bc[0] + ":*"@,
            "don't ask me again for \""@ + bc[0] + "\" commands in this project"@,
            false,
            true,
        )
    } else {
        chain_multi(meaningful(c))
    }
}

/// `&&`, `||` or `;` occurs.
pub open spec fn has_chain(c: Seq<char>) -> bool {
    contains(c, "&&"@) || contains(c, "||"@) || c.contains(';')
}

impl BashCommandPattern for CommandChainPattern {
    open spec fn shape_matches(&self, command: Seq<char>) -> bool {
        has_chain(command)
    }

    open spec fn rule_matches(&self, pattern: Seq<char>, command: Seq<char>) -> bool {
        compound_rule_matches(pattern, command)
    }

    open spec fn analysis(&self, command: Seq<char>) -> PatternOutcome {
        chain_outcome(command)
    }

    open spec fn rank(&self) -> u32 {
        60
    }

    fn matches(&self, command: &str) -> (r: bool) {
        let c = chars_of(command);
        str_contains(command, "&&") || str_contains(command, "||") || has_char(c.as_slice(), ';')
    }

    fn matches_pattern(&self, pattern: &str, command: &str) -> (r: bool) {
        compound_matches(pattern, command)
    }

    fn analyze(&self, command: &str) -> (r: CommandPatternResult) {
        let base_commands = BashCommandParser::extract_base_commands(command);
        if base_commands.len() == 0 {
            return make_result(
                chars_of("command chain"),
                chars_of("Runs several commands in sequence"),
                chars_of("*"),
                chars_of("don't ask me again for bash in this project"),
                false,
                true,
            );
        }
        if all_same_exec(&base_commands) {
            let b = chars_of(base_commands[0].as_str());
            return make_result(
                b.clone(),
                around("Runs several `", b.as_slice(), "` commands in sequence"),
                suffixed(b.as_slice(), ":*"),
                around("don't ask me again for \"", b.as_slice(), "\" commands in this project"),
                false,
                true,
            );
        }
        let prefixes = meaningful_prefixes(command);
        compound_outcome(&prefixes, false)
    }

    fn priority(&self) -> (r: u32) {
        60
    }
}

// ---------------------------------------------------------------------------
// Read-only network requests
// ---------------------------------------------------------------------------
/// Read-only network commands: `curl <URL>`, `wget <URL>`, `gh api <...>` and
/// the like — anything that fetches but does not write or post.
///
/// One persistent approval ("trust project") creates a stable `net:read` rule
/// that covers all future read-only network calls in this project — so web
/// fetches don't get permission-prompt friction.
pub struct NetworkReadPattern;

/// The commands that fetch over the network.
pub open spec fn network_commands() -> Seq<Seq<char>> {
    seq!["curl"@, "wget"@, "gh"@]
}

/// Flags whose presence (with any value) means the call mutates state.
pub open spec fn mutating_flags() -> Seq<Seq<char>> {
    seq![
        "-d"@,
        "--data"@,
        "--data-raw"@,
        "--data-binary"@,
        "--data-urlencode"@,
        "--form"@,
        "-F"@,
        "--upload-file"@,
        "-T"@,
        "--post-data"@,
        "--post-file"@,
    ]
}

/// Method flags: allowed only with the value GET.
pub open spec fn method_flags() -> Seq<Seq<char>> {
    seq!["-X"@, "--request"@, "--method"@]
}

/// Whether a word is `flag=...`.
pub open spec fn flag_with_value(token: Seq<char>, flag: Seq<char>) -> bool {
    starts_with(token, flag + "="@)
}

/// Whether `token`, followed by `next` (empty at the end), sets a method
/// other than GET through method flag `m`.
pub open spec fn bad_method_for(token: Seq<char>, next: Seq<char>, m: Seq<char>) -> bool {
    if token == m {
        !eq_ignore_ascii_case(next, "get"@)
    } else {
        flag_with_value(token, m) && !eq_ignore_ascii_case(
            token.skip(m.len() + 1int),
            "get"@,
        )
    }
}

/// Whether the word at index `j` of `toks` marks the call as mutating.
pub open spec fn mutating_token(toks: Seq<Seq<char>>, j: int) -> bool {
    let t = toks[j];
    let next = if j + 1 < toks.len() {
        toks[j + 1]
    } else {
        Seq::empty()
    };
    ||| mutating_flags().contains(t)
    ||| exists|k: int| 0 <= k < mutating_flags().len() && flag_with_value(t, mutating_flags()[k])
    ||| exists|k: int| 0 <= k < method_flags().len() && bad_method_for(t, next, method_flags()[k])
    ||| (starts_with(t, "-X"@) && t.len() > 2 && !eq_ignore_ascii_case(t.skip(2), "get"@))
}

/// The word after the first `gh` word is `api`.
pub open spec fn gh_api_call(toks: Seq<Seq<char>>) -> bool {
    exists|g: int|
        0 <= g && g + 1 < toks.len() && #[trigger] toks[g] == "gh"@ && toks[g + 1] == "api"@
            && forall|j: int| 0 <= j < g ==> toks[j] != "gh"@
}

/// No word marks the call as mutating, and a `gh` call is `gh api`.
pub open spec fn network_words_ok(toks: Seq<Seq<char>>, first: Seq<char>) -> bool {
    &&& forall|j: int| 0 <= j < toks.len() ==> !#[trigger] mutating_token(toks, j)
    &&& first == "gh"@ ==> gh_api_call(toks)
}

/// Whether a command is a single read-only network call (see
/// [`NetworkReadPattern`]).
pub open spec fn read_only_network(c: Seq<char>) -> bool {
    if c.contains('|') || contains(c, "&&"@) || contains(c, "||"@) {
        false
    } else if has_subshell(c) || c.contains('>') {
        false
    } else if base_commands(c).len() == 0 {
        false
    } else if !network_commands().contains(base_commands(c)[0]) {
        false
    } else {
        match shlex_words(c) {
            None => false,
            Some(toks) => network_words_ok(toks, base_commands(c)[0]),
        }
    }
}

/// The outcome for a read-only network call.
pub open spec fn network_outcome() -> PatternOutcome {
    outcome(
        "read-only network request"@,
        "Makes a read-only network request (no data is uploaded)"@,
        "net:read"@,
        "don't ask me again for read-only network requests (curl/wget/gh api) in this project"@,
        false,
        true,
    )
}

/// Which single commands are approved without asking: the information
/// commands `ls`, `pwd`, `whoami`, `date`, `echo`, `which`, `type`,
/// `hostname` and the text readers `cat`, `head`, `tail`, `less`, `more`,
/// `grep`, `wc`, `sort`, `uniq`, `diff`, unless the line redirects output;
/// `find` unless it runs `-exec`, `-delete` or `-ok`; and nothing else.
pub proof fn law_auto_approved_commands(cmd: Seq<char>, full_command: Seq<char>)
    ensures
        whitelisted(cmd, full_command) <==> (seq![
            "ls"@,
            "pwd"@,
            "whoami"@,
            "date"@,
            "echo"@,
            "which"@,
            "type"@,
            "hostname"@,
            "cat"@,
            "head"@,
            "tail"@,
            "less"@,
            "more"@,
            "grep"@,
            "wc"@,
            "sort"@,
            "uniq"@,
            "diff"@,
        ].contains(cmd)
            && !full_command.contains('>')) || (cmd == "find"@ && !contains(full_command, "-exec"@)
            && !contains(full_command, "-delete"@) && !contains(full_command, "-ok"@)),
{
    reveal_strlit("find");
    reveal_strlit("ls");
    reveal_strlit("pwd");
    reveal_strlit("whoami");
    reveal_strlit("date");
    reveal_strlit("echo");
    reveal_strlit("which");
    reveal_strlit("type");
    reveal_strlit("hostname");
    reveal_strlit("cat");
    reveal_strlit("head");
    reveal_strlit("tail");
    reveal_strlit("less");
    reveal_strlit("more");
    reveal_strlit("grep");
    reveal_strlit("wc");
    reveal_strlit("sort");
    reveal_strlit("uniq");
    reveal_strlit("diff");
    let names = seq![
        "ls"@,
        "pwd"@,
        "whoami"@,
        "date"@,
        "echo"@,
        "which"@,
        "type"@,
        "hostname"@,
        "cat"@,
        "head"@,
        "tail"@,
        "less"@,
        "more"@,
        "grep"@,
        "wc"@,
        "sort"@,
        "uniq"@,
        "diff"@,
    ];
    assert(names.contains(cmd) ==> is_info_command(cmd) || is_text_reader(cmd)) by {
    if names.contains(cmd) {
        let i = choose|i: int| 0 <= i < names.len() && names[i] == cmd;
        assert(0 <= i < 18);
    }
    }
    if is_info_command(cmd) || is_text_reader(cmd) {
        if cmd == "ls"@ { assert(names[0] == cmd); }
        if cmd == "pwd"@ { assert(names[1] == cmd); }
        if cmd == "whoami"@ { assert(names[2] == cmd); }
        if cmd == "date"@ { assert(names[3] == cmd); }
        if cmd == "echo"@ { assert(names[4] == cmd); }
        if cmd == "which"@ { assert(names[5] == cmd); }
        if cmd == "type"@ { assert(names[6] == cmd); }
        if cmd == "hostname"@ { assert(names[7] == cmd); }
        if cmd == "cat"@ { assert(names[8] == cmd); }
        if cmd == "head"@ { assert(names[9] == cmd); }
        if cmd == "tail"@ { assert(names[10] == cmd); }
        if cmd == "less"@ { assert(names[11] == cmd); }
        if cmd == "more"@ { assert(names[12] == cmd); }
        if cmd == "grep"@ { assert(names[13] == cmd); }
        if cmd == "wc"@ { assert(names[14] == cmd); }
        if cmd == "sort"@ { assert(names[15] == cmd); }
        if cmd == "uniq"@ { assert(names[16] == cmd); }
        if cmd == "diff"@ { assert(names[17] == cmd); }
    }
    if names.contains(cmd) {
        let i = choose|i: int| 0 <= i < names.len() && names[i] == cmd;
        if i == 0 { assert(cmd == "ls"@); }
        if i == 1 { assert(cmd == "pwd"@); }
        if i == 2 { assert(cmd == "whoami"@); }
        if i == 3 { assert(cmd == "date"@); }
        if i == 4 { assert(cmd == "echo"@); }
        if i == 5 { assert(cmd == "which"@); }
        if i == 6 { assert(cmd == "type"@); }
        if i == 7 { assert(cmd == "hostname"@); }
        if i == 8 { assert(cmd == "cat"@); }
        if i == 9 { assert(cmd == "head"@); }
        if i == 10 { assert(cmd == "tail"@); }
        if i == 11 { assert(cmd == "less"@); }
        if i == 12 { assert(cmd == "more"@); }
        if i == 13 { assert(cmd == "grep"@); }
        if i == 14 { assert(cmd == "wc"@); }
        if i == 15 { assert(cmd == "sort"@); }
        if i == 16 { assert(cmd == "uniq"@); }
        if i == 17 { assert(cmd == "diff"@); }
    }
    assert(is_info_command(cmd) || is_text_reader(cmd) ==> names.contains(cmd));
    assert("find"@ != "ls"@) by { assert("find"@.len() != "ls"@.len()); }
    assert("find"@ != "pwd"@) by { assert("find"@.len() != "pwd"@.len()); }
    assert("find"@ != "whoami"@) by { assert("find"@.len() != "whoami"@.len()); }
    assert("find"@ != "date"@) by { assert("find"@[0] != "date"@[0]); }
    assert("find"@ != "echo"@) by { assert("find"@[0] != "echo"@[0]); }
    assert("find"@ != "which"@) by { assert("find"@.len() != "which"@.len()); }
    assert("find"@ != "type"@) by { assert("find"@[0] != "type"@[0]); }
    assert("find"@ != "hostname"@) by { assert("find"@.len() != "hostname"@.len()); }
    assert("find"@ != "cat"@) by { assert("find"@.len() != "cat"@.len()); }
    assert("find"@ != "head"@) by { assert("find"@[0] != "head"@[0]); }
    assert("find"@ != "tail"@) by { assert("find"@[0] != "tail"@[0]); }
    assert("find"@ != "less"@) by { assert("find"@[0] != "less"@[0]); }
    assert("find"@ != "more"@) by { assert("find"@[0] != "more"@[0]); }
    assert("find"@ != "grep"@) by { assert("find"@[0] != "grep"@[0]); }
    assert("find"@ != "wc"@) by { assert("find"@.len() != "wc"@.len()); }
    assert("find"@ != "sort"@) by { assert("find"@[0] != "sort"@[0]); }
    assert("find"@ != "uniq"@) by { assert("find"@[0] != "uniq"@[0]); }
    assert("find"@ != "diff"@) by { assert("find"@[0] != "diff"@[0]); }
    assert(cmd == "find"@ ==> !(is_info_command(cmd) || is_text_reader(cmd)));
}

/// Only `curl`, `wget` and `gh` make read-only network calls, and a call
/// that sets a method other than GET with `-X`, `--request` or `--method`
/// (as the next word) is never one.
pub proof fn law_network_read_commands(c: Seq<char>, toks: Seq<Seq<char>>, j: int)
    ensures
        read_only_network(c) ==> seq![
            "curl"@,
            "wget"@,
            "gh"@,
        ].contains(base_commands(c)[0]),
        shlex_words(c) == Some(toks) && 0 <= j && j + 1 < toks.len() && seq![
            "-X"@,
            "--request"@,
            "--method"@,
        ].contains(toks[j])
            && !eq_ignore_ascii_case(toks[j + 1], "get"@) ==> !read_only_network(c),
{
    let nets = seq![
        "curl"@,
        "wget"@,
        "gh"@,
    ];
    assert(nets =~= network_commands());
    let ms = seq![
        "-X"@,
        "--request"@,
        "--method"@,
    ];
    assert(ms =~= method_flags());
    if shlex_words(c) == Some(toks) && 0 <= j && j + 1 < toks.len() && ms.contains(toks[j])
        && !eq_ignore_ascii_case(toks[j + 1], "get"@) {
        let k = choose|k: int| 0 <= k < ms.len() && ms[k] == toks[j];
        assert(bad_method_for(toks[j], toks[j + 1], method_flags()[k]));
        assert(mutating_token(toks, j));
    }
}

/// The literals as character vectors.
fn literal_vecs(names: &Vec<&str>) -> (r: Vec<Vec<char>>)
    ensures
        r@.len() == names@.len(),
        forall|k: int| 0 <= k < names@.len() ==> #[trigger] r@[k]@ == names@[k]@,
{
    let mut r: Vec<Vec<char>> = Vec::new();
    let mut k: usize = 0;
    while k < names.len()
        invariant
            k <= names@.len(),
            r@.len() == k,
            forall|j: int| 0 <= j < k ==> #[trigger] r@[j]@ == names@[j]@,
        decreases names@.len() - k,
    {
        r.push(chars_of(names[k]));
        k += 1;
    }
    r
}

fn mutating_flag_vecs() -> (r: Vec<Vec<char>>)
    ensures
        views(r@) == mutating_flags(),
{
    let names = vec![
        "-d",
        "--data",
        "--data-raw",
        "--data-binary",
        "--data-urlencode",
        "--form",
        "-F",
        "--upload-file",
        "-T",
        "--post-data",
        "--post-file",
    ];
    let r = literal_vecs(&names);
    assert(views(r@) =~= mutating_flags());
    r
}

fn method_flag_vecs() -> (r: Vec<Vec<char>>)
    ensures
        views(r@) == method_flags(),
{
    let names = vec!["-X", "--request", "--method"];
    let r = literal_vecs(&names);
    assert(views(r@) =~= method_flags());
    r
}

impl NetworkReadPattern {
    /// Whether `token` is `flag=...`.
    fn token_starts_with_flag(token: &[char], flag: &[char]) -> (r: bool)
        ensures
            r == flag_with_value(token@, flag@),
    {
        // Matches "--flag=value" form. Exact `--flag` form handled separately.
        let eq = chars_of("=");
        let fe = concat(flag, eq.as_slice());
        starts_with_chars(token, fe.as_slice())
    }

    /// Whether the word at `j` marks the call as mutating.
    fn is_mutating_token(tokens: &Vec<Vec<char>>, j: usize) -> (r: bool)
        requires
            j < tokens@.len(),
        ensures
            r == mutating_token(views(tokens@), j as int),
    {
        let ghost toks = views(tokens@);
        let t = tokens[j].as_slice();
        let mutating = mutating_flag_vecs();
        let methods = method_flag_vecs();
        let get = chars_of("get");
        let empty: Vec<char> = Vec::new();
        let n = tokens.len();
        assert(t@ == toks[j as int]);
        let next: &[char] = if j + 1 < n {
            tokens[j + 1].as_slice()
        } else {
            empty.as_slice()
        };
        // Mutating flags with required values.
        if holds(&mutating, t) {
            return true;
        }
        let mut k: usize = 0;
        while k < mutating.len()
            invariant
                k <= mutating@.len(),
                views(mutating@) == mutating_flags(),
                toks == views(tokens@),
                j < toks.len(),
                t@ == toks[j as int],
                forall|i: int| 0 <= i < k ==> !flag_with_value(t@, mutating_flags()[i]),
            decreases mutating@.len() - k,
        {
            if Self::token_starts_with_flag(t, mutating[k].as_slice()) {
                assert(flag_with_value(t@, mutating_flags()[k as int]));
                return true;
            }
            k += 1;
        }
        // Method flags: need to inspect value (separate token or =value).
        let mut m: usize = 0;
        while m < methods.len()
            invariant
                m <= methods@.len(),
                views(methods@) == method_flags(),
                get@ == "get"@,
                toks == views(tokens@),
                j < toks.len(),
                t@ == toks[j as int],
                next@ == (if j + 1 < toks.len() {
                    toks[j + 1]
                } else {
                    Seq::empty()
                }),
                forall|i: int| 0 <= i < m ==> !bad_method_for(t@, next@, method_flags()[i]),
            decreases methods@.len() - m,
        {
            let mf = methods[m].as_slice();
            let bad = if eq_chars(t, mf) {
                !eq_ignore_ascii_case_exec(next, get.as_slice())
            } else if Self::token_starts_with_flag(t, mf) {
                proof {
                    reveal_strlit("=");
                }
                let tl = t.len();
                assert(mf@.len() + 1 <= tl);
                let rest = skip_chars(t, mf.len() + 1);
                !eq_ignore_ascii_case_exec(rest.as_slice(), get.as_slice())
            } else {
                false
            };
            if bad {
                assert(bad_method_for(t@, next@, method_flags()[m as int]));
                return true;
            }
            m += 1;
        }
        // `-XPOST` (no space) form.
        let x = chars_of("-X");
        if starts_with_chars(t, x.as_slice()) && t.len() > 2 {
            let rest = skip_chars(t, 2);
            if !eq_ignore_ascii_case_exec(rest.as_slice(), get.as_slice()) {
                return true;
            }
        }
        false
    }

    /// Whether the word after the first `gh` word is `api`.
    fn gh_subcommand_is_api(tokens: &Vec<Vec<char>>) -> (r: bool)
        ensures
            r == gh_api_call(views(tokens@)),
    {
        let ghost toks = views(tokens@);
        let gh = chars_of("gh");
        let api = chars_of("api");
        let mut g: usize = 0;
        while g < tokens.len() && !eq_chars(tokens[g].as_slice(), gh.as_slice())
            invariant
                g <= tokens@.len(),
                toks == views(tokens@),
                gh@ == "gh"@,
                forall|j: int| 0 <= j < g ==> toks[j] != "gh"@,
            decreases tokens@.len() - g,
        {
            g += 1;
        }
        if g < tokens.len() && g + 1 < tokens.len() && eq_chars(
            tokens[g + 1].as_slice(),
            api.as_slice(),
        ) {
            assert(toks[g as int] == "gh"@);
            return true;
        }
        proof {
            if gh_api_call(toks) {
                let w = choose|w: int|
                    0 <= w && w + 1 < toks.len() && #[trigger] toks[w] == "gh"@ && toks[w + 1]
                        == "api"@ && forall|j: int| 0 <= j < w ==> toks[j] != "gh"@;
                if w < g {
                } else if w > g {
                    assert(g < tokens@.len());
                    assert(toks[g as int] == "gh"@);
                }
            }
        }
        false
    }

    fn is_read_only_network_command(command: &str) -> (r: bool)
        ensures
            r == read_only_network(command@),
    {
        // Pipelines and chains are handled by their own patterns; this one is
        // for a single read-only network call.
        let c = chars_of(command);
        if has_char(c.as_slice(), '|') || str_contains(command, "&&") || str_contains(
            command,
            "||",
        ) {
            return false;
        }
        if BashCommandParser::contains_subshell(command) {
            return false;
        }
        // Redirects mean we're writing fetched content to a file — let
        // RedirectionPattern require explicit consent for the write target.

        if has_char(c.as_slice(), '>') {
            return false;
        }
        let base = BashCommandParser::extract_base_commands(command);
        if base.len() == 0 {
            return false;
        }
        let first = chars_of(base[0].as_str());
        let net_names = vec!["curl", "wget", "gh"];
        let nets = literal_vecs(&net_names);
        assert(views(nets@) =~= network_commands());
        if !holds(&nets, first.as_slice()) {
            return false;
        }
        let tokens = match shell_words(command) {
            Some(t) => t,
            None => return false,
        };
        let ghost dv = tokens.deep_view();
        let mut toks: Vec<Vec<char>> = Vec::new();
        let mut i: usize = 0;
        while i < tokens.len()
            invariant
                i <= tokens@.len(),
                dv == tokens.deep_view(),
                views(toks@) == dv.take(i as int),
            decreases tokens@.len() - i,
        {
            let ghost b = views(toks@);
            let tc = chars_of(tokens[i].as_str());
            assert(dv[i as int] == tokens@[i as int]@);
            toks.push(tc);
            assert(views(toks@) =~= b.push(tc@));
            assert(dv.take(i + 1) =~= dv.take(i as int).push(dv[i as int]));
            i += 1;
        }
        assert(dv.take(tokens@.len() as int) =~= dv);
        let mut j: usize = 0;
        while j < toks.len()
            invariant
                j <= toks@.len(),
                views(toks@) == dv,
                shlex_words(command@) == Some(dv),
                forall|i: int| 0 <= i < j ==> !mutating_token(views(toks@), i),
            decreases toks@.len() - j,
        {
            if Self::is_mutating_token(&toks, j) {
                assert(mutating_token(dv, j as int));
                assert(!network_words_ok(dv, base@[0]@));
                return false;
            }
            j += 1;
        }
        // `gh` is broad: only `gh api ...` is in scope. Other subcommands
        // (`gh pr create`, `gh issue close`, etc.) are state-changing.
        let gh = chars_of("gh");
        if eq_chars(first.as_slice(), gh.as_slice()) {
            if !Self::gh_subcommand_is_api(&toks) {
                return false;
            }
        }
        true
    }
}

impl BashCommandPattern for NetworkReadPattern {
    open spec fn shape_matches(&self, command: Seq<char>) -> bool {
        read_only_network(command)
    }

    open spec fn rule_matches(&self, pattern: Seq<char>, command: Seq<char>) -> bool {
        pattern == "net:read"@ && read_only_network(command)
    }

    open spec fn analysis(&self, command: Seq<char>) -> PatternOutcome {
        network_outcome()
    }

    open spec fn rank(&self) -> u32 {
        65
    }

    fn matches(&self, command: &str) -> (r: bool) {
        Self::is_read_only_network_command(command)
    }

    fn matches_pattern(&self, pattern: &str, command: &str) -> (r: bool) {
        let p = chars_of(pattern);
        let net = chars_of("net:read");
        eq_chars(p.as_slice(), net.as_slice()) && Self::is_read_only_network_command(command)
    }

    fn analyze(&self, _command: &str) -> (r: CommandPatternResult) {
        make_result(
            chars_of("read-only network request"),
            chars_of("Makes a read-only network request (no data is uploaded)"),
            chars_of("net:read"),
            chars_of(
                "don't ask me again for read-only network requests (curl/wget/gh api) in this project",
            ),
            false,
            true,
        )
    }

    fn priority(&self) -> (r: u32) {
        // Above PipelinePattern(80) is tempting but a pipeline like
        // `curl URL | jq` should be evaluated as a pipeline so all its parts
        // are considered. Keep below Pipeline(80) and below Redirection(70)
        // so file writes still take precedence. Sits above CommandChain(60).
        65
    }
}

// ---------------------------------------------------------------------------
// Single commands
// ---------------------------------------------------------------------------
pub struct SingleCommandPattern;

/// The description of a command and its first argument: `cmd arg` or `cmd`.
pub open spec fn command_label(cmd: Seq<char>, arg: Option<Seq<char>>) -> Seq<char> {
    match arg {
        Some(a) => cmd + " "@ + a,
        None => cmd,
    }
}

/// The outcome for a single command.
pub open spec fn single_outcome(c: Seq<char>) -> PatternOutcome {
    match first_command_and_arg(c) {
        Some((cmd, arg)) => {
            let safe = whitelisted(cmd, c);
            let d = command_label(cmd, arg);
            outcome(
                d,
                if safe {
                    "Runs `"@ + d + "` (read-only)"@
                } else {
                    "Runs `"@ + d + "`"@
                },
                d + ":*"@,
                "don't ask me again for \""@ + d + "\" commands in this project"@,
                safe,
                true,
            )
        },
        None => outcome(
            "bash command"@,
            "Runs a bash command"@,
            "*"@,
            "don't ask me again for bash"@,
            false,
            true,
        ),
    }
}

/// Whether a stored single-command rule covers a command: the command must
/// be simple (no redirection, pipe, chain or subshell); `cmd:*` then matches
/// any run of `cmd`, `cmd arg:*` a run whose first argument is `arg`, and any
/// other rule only the identical command.
pub open spec fn single_rule_matches(pattern: Seq<char>, command: Seq<char>) -> bool {
    if command.contains('>') || command.contains('<') || command.contains('|') || has_chain(
        command,
    ) || has_subshell(command) {
        false
    } else if ends_with(pattern, ":*"@) {
        let prefix = pattern.take(pattern.len() - 2);
        match first_command_and_arg(command) {
            None => false,
            Some((cmd, arg)) => prefix == cmd || (arg is Some && prefix == cmd + " "@ + arg->0),
        }
    } else {
        pattern == command
    }
}

impl SingleCommandPattern {
    /// Whether a command is whitelisted as read-only (see [`whitelisted`]).
    pub fn is_whitelisted(cmd: &str, full_command: &str) -> (r: bool)
        ensures
            r == whitelisted(cmd@, full_command@),
    {
        let c = chars_of(cmd);
        let full = chars_of(full_command);
        let info = vec!["ls", "pwd", "whoami", "date", "echo", "which", "type", "hostname"];
        let readers = vec!["cat", "head", "tail", "less", "more", "grep", "wc", "sort", "uniq", "diff"];
        let is_info = is_one_of(c.as_slice(), &info);
        let is_reader = is_one_of(c.as_slice(), &readers);
        proof {
            if is_info_command(cmd@) {
                if cmd@ == "ls"@ { assert(cmd@ == info@[0]@); }
                if cmd@ == "pwd"@ { assert(cmd@ == info@[1]@); }
                if cmd@ == "whoami"@ { assert(cmd@ == info@[2]@); }
                if cmd@ == "date"@ { assert(cmd@ == info@[3]@); }
                if cmd@ == "echo"@ { assert(cmd@ == info@[4]@); }
                if cmd@ == "which"@ { assert(cmd@ == info@[5]@); }
                if cmd@ == "type"@ { assert(cmd@ == info@[6]@); }
                if cmd@ == "hostname"@ { assert(cmd@ == info@[7]@); }
            }
            if is_text_reader(cmd@) {
                if cmd@ == "cat"@ { assert(cmd@ == readers@[0]@); }
                if cmd@ == "head"@ { assert(cmd@ == readers@[1]@); }
                if cmd@ == "tail"@ { assert(cmd@ == readers@[2]@); }
                if cmd@ == "less"@ { assert(cmd@ == readers@[3]@); }
                if cmd@ == "more"@ { assert(cmd@ == readers@[4]@); }
                if cmd@ == "grep"@ { assert(cmd@ == readers@[5]@); }
                if cmd@ == "wc"@ { assert(cmd@ == readers@[6]@); }
                if cmd@ == "sort"@ { assert(cmd@ == readers@[7]@); }
                if cmd@ == "uniq"@ { assert(cmd@ == readers@[8]@); }
                if cmd@ == "diff"@ { assert(cmd@ == readers@[9]@); }
            }
        }
        if is_info || is_reader {
            // PREVENT: cat file.txt > overwritten_file.txt
            return !has_char(full.as_slice(), '>');
        }
        let find = chars_of("find");
        if eq_chars(c.as_slice(), find.as_slice()) {
            // Find is DANGEROUS if used with exec/delete
            return !str_contains(full_command, "-exec") && !str_contains(full_command, "-delete")
                && !str_contains(full_command, "-ok");
        }
        // Everything else is assumed unsafe for auto-approval
        false
    }
}

impl BashCommandPattern for SingleCommandPattern {
    open spec fn shape_matches(&self, command: Seq<char>) -> bool {
        true
    }

    open spec fn rule_matches(&self, pattern: Seq<char>, command: Seq<char>) -> bool {
        single_rule_matches(pattern, command)
    }

    open spec fn analysis(&self, command: Seq<char>) -> PatternOutcome {
        single_outcome(command)
    }

    open spec fn rank(&self) -> u32 {
        0
    }

    fn matches(&self, _command: &str) -> (r: bool) {
        true
    }

    fn matches_pattern(&self, pattern: &str, command: &str) -> (r: bool) {
        // Single command patterns should NOT match complex commands
        // Reject if command contains redirections, pipes, chains, or subshells
        let c = chars_of(command);
        if has_char(c.as_slice(), '>') || has_char(c.as_slice(), '<') {
            return false;
        }
        if has_char(c.as_slice(), '|') {
            return false;
        }
        if str_contains(command, "&&") || str_contains(command, "||") || has_char(
            c.as_slice(),
            ';',
        ) {
            return false;
        }
        if BashCommandParser::contains_subshell(command) {
            return false;
        }
        let p = chars_of(pattern);
        let suffix = chars_of(":*");
        if ends_with_chars(p.as_slice(), suffix.as_slice()) {
            // Match on parsed tokens, not the raw string, so a pattern stays
            // symmetric with the way it was generated. This is what makes
            // env-var-prefixed commands re-match: `RUST_LOG=debug cargo run`
            // tokenizes to (`cargo`, `run`) just like `cargo run` does, so the
            // stored `cargo run:*` rule keeps matching it.
            proof {
                reveal_strlit(":*");
            }
            let prefix = take_chars(p.as_slice(), p.len() - 2);
            match BashCommandParser::extract_first_command_and_arg(command) {
                None => false,
                Some((cmd, arg)) => {
                    // A bare-command prefix (`cargo:*`) matches any invocation of that
                    // command; a command+arg prefix (`cargo run:*`) matches only when
                    // the first argument lines up too.
                    let cc = chars_of(cmd.as_str());
                    if eq_chars(prefix.as_slice(), cc.as_slice()) {
                        return true;
                    }
                    match arg {
                        Some(a) => {
                            let ac = chars_of(a.as_str());
                            let mut full = suffixed(cc.as_slice(), " ");
                            extend(&mut full, ac.as_slice());
                            assert(full@ =~= cmd@ + " "@ + a@);
                            eq_chars(prefix.as_slice(), full.as_slice())
                        },
                        None => false,
                    }
                },
            }
        } else {
            eq_chars(p.as_slice(), c.as_slice())
        }
    }

    fn analyze(&self, command: &str) -> (r: CommandPatternResult) {
        if let Some((cmd, arg_opt)) = BashCommandParser::extract_first_command_and_arg(command) {
            let safe = SingleCommandPattern::is_whitelisted(cmd.as_str(), command);
            let cc = chars_of(cmd.as_str());
            // Format the pattern: "cargo build:*" vs "ls:*"
            let description = match &arg_opt {
                Some(a) => {
                    let ac = chars_of(a.as_str());
                    let mut d = suffixed(cc.as_slice(), " ");
                    extend(&mut d, ac.as_slice());
                    assert(d@ =~= cmd@ + " "@ + a@);
                    d
                },
                None => cc,
            };
            let summary = if safe {
                around("Runs `", description.as_slice(), "` (read-only)")
            } else {
                around("Runs `", description.as_slice(), "`")
            };
            make_result(
                description.clone(),
                summary,
                suffixed(description.as_slice(), ":*"),
                around(
                    "don't ask me again for \"",
                    description.as_slice(),
                    "\" commands in this project",
                ),
                safe,
                true,
            )
        } else {
            // Fallback
            make_result(
                chars_of("bash command"),
                chars_of("Runs a bash command"),
                chars_of("*"),
                chars_of("don't ask me again for bash"),
                false,
                true,
            )
        }
    }

    fn priority(&self) -> (r: u32) {
        0
    }
}

} // verus!
