//! Why a rule suggested for a pipeline or a command chain keeps matching the
//! command it was made from.
use crate::text::{
    contains, ends_with, is_ws, join, lemma_trim_end_props, lemma_trim_fixed,
    lemma_trim_start_props, occurs_at, trim, trim_start,
};
use crate::tools::bash::command_pattern::{
    all_same, chain_outcome, clean_piece, compound_rule_matches, covered, first_word, meaningful,
    pipeline_outcome, prefix_scan, rule_prefixes, split_bars, stored_prefixes, strip_all_suffix,
};
use crate::tools::bash::pattern_registry::{
    first_applicable, law_registry_order, registry_analysis, registry_order,
    registry_rule_matches, PatternKind,
};
use crate::tools::bash::lexer::shlex_words;
use crate::tools::bash::parser::{
    base_commands, command_line, command_token, distinct_commands, first_command_and_arg,
    first_command_index, first_command_word, insert_new, push_seg, scan, subcommands,
    with_wildcard,
};
use vstd::prelude::*;

verus! {

/// `s` is a stretch of consecutive characters of `cs`.
pub open spec fn is_stretch(cs: Seq<char>, s: Seq<char>) -> bool {
    exists|x: int, y: int| 0 <= x <= y <= cs.len() && s == cs.subrange(x, y)
}

/// Every segment of `segs` is a stretch of `cs`.
pub open spec fn all_stretches(cs: Seq<char>, segs: Seq<Seq<char>>) -> bool {
    forall|k: int| 0 <= k < segs.len() ==> is_stretch(cs, #[trigger] segs[k])
}

/// Trimming a stretch leaves a stretch.
proof fn lemma_trim_stretch(cs: Seq<char>, a: int, b: int)
    requires
        0 <= a <= b <= cs.len(),
    ensures
        is_stretch(cs, trim(cs.subrange(a, b))),
{
    let s = cs.subrange(a, b);
    lemma_trim_start_props(s);
    let t = trim_start(s);
    lemma_trim_end_props(t);
    let x = a + (s.len() - t.len());
    let y = x + trim(s).len();
    assert(trim(s) =~= cs.subrange(x, y));
}

/// Adding the trimmed stretch `cs[a..i]` keeps every segment a stretch.
proof fn lemma_push_seg_stretch(cs: Seq<char>, segs: Seq<Seq<char>>, a: int, i: int)
    requires
        0 <= a <= i <= cs.len(),
        all_stretches(cs, segs),
    ensures
        all_stretches(cs, push_seg(segs, cs.subrange(a, i))),
{
    lemma_trim_stretch(cs, a, i);
    let r = push_seg(segs, cs.subrange(a, i));
    assert forall|k: int| 0 <= k < r.len() implies is_stretch(cs, #[trigger] r[k]) by {
        if k < segs.len() {
            assert(r[k] == segs[k]);
        }
    }
}

/// Every segment the splitter cuts from `cs` is a stretch of `cs`.
proof fn lemma_scan_stretches(
    cs: Seq<char>,
    i: int,
    sq: bool,
    dq: bool,
    bt: bool,
    depth: int,
    cur: Seq<char>,
    segs: Seq<Seq<char>>,
    a: int,
)
    requires
        0 <= a <= i <= cs.len(),
        cur == cs.subrange(a, i),
        all_stretches(cs, segs),
    ensures
        all_stretches(cs, scan(cs, i, sq, dq, bt, depth, cur, segs)),
    decreases cs.len() - i,
{
    lemma_push_seg_stretch(cs, segs, a, i);
    if i >= cs.len() {
    } else {
        let c = cs[i];
        let next2 = i + 1 < cs.len();
        let pushed = push_seg(segs, cur);
        assert(cur.push(c) =~= cs.subrange(a, i + 1));
        if next2 {
            assert(cur.push(c).push(cs[i + 1]) =~= cs.subrange(a, i + 2));
        }
        assert(Seq::<char>::empty() =~= cs.subrange(i + 1, i + 1));
        if next2 {
            assert(Seq::<char>::empty() =~= cs.subrange(i + 2, i + 2));
        }
        if c == '\\' && !sq {
            if next2 {
                lemma_scan_stretches(cs, i + 2, sq, dq, bt, depth, cur.push(c).push(cs[i + 1]), segs, a);
            } else {
                lemma_scan_stretches(cs, i + 1, sq, dq, bt, depth, cur.push(c), segs, a);
            }
        } else if sq {
            lemma_scan_stretches(cs, i + 1, c != '\'', dq, bt, depth, cur.push(c), segs, a);
        } else if dq {
            lemma_scan_stretches(cs, i + 1, sq, c != '"', bt, depth, cur.push(c), segs, a);
        } else if c == '\'' {
            lemma_scan_stretches(cs, i + 1, true, dq, bt, depth, cur.push(c), segs, a);
        } else if c == '"' {
            lemma_scan_stretches(cs, i + 1, sq, true, bt, depth, cur.push(c), segs, a);
        } else if c == '`' {
            lemma_scan_stretches(cs, i + 1, sq, dq, !bt, depth, cur.push(c), segs, a);
        } else if bt {
            lemma_scan_stretches(cs, i + 1, sq, dq, bt, depth, cur.push(c), segs, a);
        } else if c == '$' && next2 && cs[i + 1] == '(' {
            assert(cur.push('$').push('(') =~= cs.subrange(a, i + 2));
            lemma_scan_stretches(cs, i + 2, sq, dq, bt, depth + 1, cur.push('$').push('('), segs, a);
        } else if c == '(' {
            lemma_scan_stretches(cs, i + 1, sq, dq, bt, depth + 1, cur.push(c), segs, a);
        } else if c == ')' {
            let d = if depth - 1 > 0 {
                depth - 1
            } else {
                0
            };
            lemma_scan_stretches(cs, i + 1, sq, dq, bt, d, cur.push(c), segs, a);
        } else if depth > 0 {
            lemma_scan_stretches(cs, i + 1, sq, dq, bt, depth, cur.push(c), segs, a);
        } else if c == ';' {
            lemma_scan_stretches(cs, i + 1, sq, dq, bt, depth, Seq::empty(), pushed, i + 1);
        } else if c == '|' {
            let ni = if next2 && cs[i + 1] == '|' {
                i + 2
            } else {
                i + 1
            };
            assert(Seq::<char>::empty() =~= cs.subrange(ni, ni));
            lemma_scan_stretches(cs, ni, sq, dq, bt, depth, Seq::empty(), pushed, ni);
        } else if c == '&' && next2 && cs[i + 1] == '&' {
            lemma_scan_stretches(cs, i + 2, sq, dq, bt, depth, Seq::empty(), pushed, i + 2);
        } else {
            lemma_scan_stretches(cs, i + 1, sq, dq, bt, depth, cur.push(c), segs, a);
        }
    }
}

/// A text found in a stretch of `cs` is found in `cs`.
proof fn lemma_stretch_contains(cs: Seq<char>, s: Seq<char>, sub: Seq<char>)
    requires
        is_stretch(cs, s),
        contains(s, sub),
    ensures
        contains(cs, sub),
{
    let (x, y) = choose|x: int, y: int| 0 <= x <= y <= cs.len() && s == cs.subrange(x, y);
    let i = choose|i: int| occurs_at(s, sub, i);
    assert(cs.subrange(x + i, x + i + sub.len()) =~= s.subrange(i, i + sub.len()));
    assert(occurs_at(cs, sub, x + i));
}

/// Without a heredoc in the line, no subcommand holds one, so each is
/// analysed whole.
proof fn lemma_subcommands_without_heredoc(c: Seq<char>)
    requires
        !contains(c, "<<"@),
    ensures
        forall|k: int|
            0 <= k < subcommands(c).len() ==> command_line(#[trigger] subcommands(c)[k])
                == subcommands(c)[k],
{
    let cs = command_line(c);
    assert(cs == c);
    assert(Seq::<char>::empty() =~= cs.subrange(0, 0));
    lemma_scan_stretches(cs, 0, false, false, false, 0, Seq::empty(), Seq::empty(), 0);
    assert(all_stretches(cs, subcommands(c)));
    assert forall|k: int| 0 <= k < subcommands(c).len() implies command_line(
        #[trigger] subcommands(c)[k],
    ) == subcommands(c)[k] by {
        let s = subcommands(c)[k];
        if contains(s, "<<"@) {
            lemma_stretch_contains(cs, s, "<<"@);
        }
    }
}

/// The first command word from `j` on sits at the first index from `j` on
/// that holds no environment assignment.
proof fn lemma_first_command(toks: Seq<Seq<char>>, j: int)
    requires
        0 <= j <= toks.len(),
    ensures
        first_command_index(toks, j) < toks.len() ==> first_command_word(toks, j) == Some(
            toks[first_command_index(toks, j)],
        ),
        first_command_index(toks, j) >= toks.len() ==> first_command_word(toks, j) is None,
        first_command_index(toks, j) >= j,
    decreases toks.len() - j,
{
    if j < toks.len() {
        lemma_first_command(toks, j + 1);
    }
}

/// For a subcommand analysed whole, the first command of
/// [`first_command_and_arg`] is its command word.
proof fn lemma_first_command_is_token(sub: Seq<char>)
    requires
        command_line(sub) == sub,
    ensures
        (match first_command_and_arg(sub) {
            Some((cmd, _)) => command_token(sub) == Some(cmd),
            None => command_token(sub) is None,
        }),
{
    match shlex_words(sub) {
        None => {},
        Some(toks) => {
            lemma_first_command(toks, 0);
        },
    }
}

/// What [`insert_new`] holds.
proof fn lemma_insert_new(acc: Seq<Seq<char>>, x: Seq<char>)
    ensures
        forall|y: Seq<char>| insert_new(acc, x).contains(y) <==> (acc.contains(y) || y == x),
        insert_new(acc, x).len() >= acc.len(),
        insert_new(acc, x).len() > 0,
{
    if !acc.contains(x) {
        assert forall|y: Seq<char>| insert_new(acc, x).contains(y) <==> (acc.contains(y) || y
            == x) by {
            if insert_new(acc, x).contains(y) {
                let k = choose|k: int| 0 <= k < acc.push(x).len() && acc.push(x)[k] == y;
                if k < acc.len() {
                    assert(acc[k] == y);
                }
            }
            if acc.contains(y) {
                let k = choose|k: int| 0 <= k < acc.len() && acc[k] == y;
                assert(acc.push(x)[k] == y);
            }
            if y == x {
                assert(acc.push(x)[acc.len() as int] == y);
            }
        }
    } else {
        assert(acc.len() > 0);
    }
}

/// `p` is `x`, or `x` followed by a space and more.
pub open spec fn headed_by(p: Seq<char>, x: Seq<char>) -> bool {
    p == x || (p.len() > x.len() && p.take(x.len() as int) == x && p[x.len() as int] == ' ')
}

/// The commands that the scan keeps as meaningful, and the bare names it
/// collects, all come from the command words of the subcommands; and when
/// some subcommand has a command word, some bare name is collected.
proof fn lemma_prefix_scan(subs: Seq<Seq<char>>)
    requires
        forall|k: int| 0 <= k < subs.len() ==> command_line(#[trigger] subs[k]) == subs[k],
    ensures
        forall|x: Seq<char>|
            prefix_scan(subs).1.contains(x) ==> distinct_commands(subs).contains(x),
        forall|p: Seq<char>|
            prefix_scan(subs).0.contains(p) ==> exists|x: Seq<char>|
                distinct_commands(subs).contains(x) && #[trigger] headed_by(p, x),
        distinct_commands(subs).len() > 0 ==> prefix_scan(subs).1.len() > 0,
    decreases subs.len(),
{
    if subs.len() > 0 {
        let init = subs.drop_last();
        assert forall|k: int| 0 <= k < init.len() implies command_line(#[trigger] init[k])
            == init[k] by {
            assert(init[k] == subs[k]);
        }
        lemma_prefix_scan(init);
        let sub = subs.last();
        assert(command_line(sub) == sub) by {
            assert(subs[subs.len() - 1] == sub);
        }
        lemma_first_command_is_token(sub);
        let dc0 = distinct_commands(init);
        let dc = distinct_commands(subs);
        let (m0, bare0) = prefix_scan(init);
        match first_command_and_arg(sub) {
            None => {
                assert(dc == dc0);
                assert(prefix_scan(subs) == prefix_scan(init));
            },
            Some((cmd, arg)) => {
                lemma_insert_new(dc0, cmd);
                lemma_insert_new(bare0, cmd);
                assert(dc == insert_new(dc0, cmd));
                assert(dc.contains(cmd));
                let prefix = match arg {
                    Some(a) => cmd + " "@ + a,
                    None => cmd,
                };
                assert(headed_by(prefix, cmd)) by {
                    match arg {
                        Some(a) => {
                            reveal_strlit(" ");
                            assert(prefix == cmd + " "@ + a);
                            assert(prefix.take(cmd.len() as int) =~= cmd);
                            assert((cmd + " "@ + a)[cmd.len() as int] == ' ');
                        },
                        None => {},
                    }
                }
                lemma_insert_new(m0, prefix);
                assert forall|x: Seq<char>| prefix_scan(subs).1.contains(x) implies dc.contains(
                    x,
                ) by {
                    if bare0.contains(x) {
                        assert(dc0.contains(x));
                    }
                }
                if dc.len() > 0 {
                    assert(prefix_scan(subs).1 == insert_new(bare0, cmd));
                }
                assert forall|p: Seq<char>| prefix_scan(subs).0.contains(p) implies exists|
                    x: Seq<char>,
                | dc.contains(x) && #[trigger] headed_by(p, x) by {
                    if m0.contains(p) {
                        let x = choose|x: Seq<char>| dc0.contains(x) && #[trigger] headed_by(p, x);
                        assert(dc.contains(x));
                    } else {
                        assert(p == prefix);
                        assert(headed_by(p, cmd));
                    }
                }
            },
        }
    }
}

/// The meaningful commands of a line without a heredoc all come from its
/// base commands, and there is one as soon as there is a base command.
proof fn lemma_meaningful_from_base(c: Seq<char>)
    requires
        !contains(c, "<<"@),
    ensures
        forall|p: Seq<char>|
            meaningful(c).contains(p) ==> exists|x: Seq<char>|
                base_commands(c).contains(x) && #[trigger] headed_by(p, x),
        base_commands(c).len() > 0 ==> meaningful(c).len() > 0,
{
    lemma_subcommands_without_heredoc(c);
    let subs = subcommands(c);
    lemma_prefix_scan(subs);
    let (m, bare) = prefix_scan(subs);
    if m.len() == 0 {
        assert forall|p: Seq<char>| meaningful(c).contains(p) implies exists|x: Seq<char>|
            base_commands(c).contains(x) && #[trigger] headed_by(p, x) by {
            assert(bare.contains(p));
            assert(headed_by(p, p));
        }
    }
}

/// A command or prefix that a stored rule can name and read back: not
/// empty, without `|` or `&`, without whitespace at either end, and not
/// ending in `*`.
pub open spec fn rule_word(p: Seq<char>) -> bool {
    &&& p.len() > 0
    &&& !p.contains('|')
    &&& !p.contains('&')
    &&& !is_ws(p[0])
    &&& !is_ws(p.last())
    &&& p.last() != '*'
}

/// Cleaning the piece `p:*` gives `p` back.
proof fn lemma_clean_piece(p: Seq<char>)
    requires
        rule_word(p),
    ensures
        clean_piece(p + ":*"@) == p,
{
    reveal_strlit(":*");
    reveal_strlit("*");
    let q = p + ":*"@;
    assert(q[0] == p[0]);
    assert(q.last() == '*');
    lemma_trim_fixed(q);
    assert(ends_with(q, ":*"@)) by {
        assert(q.skip(q.len() - 2) =~= ":*"@);
    }
    assert(q.take(q.len() - 2) =~= p);
    assert(!ends_with(p, ":*"@)) by {
        if ends_with(p, ":*"@) {
            assert(p.skip(p.len() - 2)[1] == p.last());
        }
    }
    assert(strip_all_suffix(p, ":*"@) == p);
    assert(strip_all_suffix(q, ":*"@) == p);
    assert(!ends_with(p, "*"@)) by {
        if ends_with(p, "*"@) {
            assert(p.skip(p.len() - 1)[0] == p.last());
        }
    }
    assert(strip_all_suffix(p, "*"@) == p);
    lemma_trim_fixed(p);
}

/// Reading a stretch without `|` or `&` only extends the current piece.
proof fn lemma_split_word(s: Seq<char>, i: int, cur: Seq<char>, acc: Seq<Seq<char>>, w: Seq<char>)
    requires
        0 <= i,
        i + w.len() <= s.len(),
        s.subrange(i, i + w.len()) == w,
        !w.contains('|'),
        !w.contains('&'),
    ensures
        split_bars(s, i, cur, acc) == split_bars(s, i + w.len(), cur + w, acc),
    decreases w.len(),
{
    if w.len() == 0 {
        assert(cur + w =~= cur);
    } else {
        assert(s[i] == w[0]);
        assert(w[0] != '|' && w[0] != '&') by {
            assert(w.contains(w[0]));
        }
        let rest = w.drop_first();
        assert(s.subrange(i + 1, i + 1 + rest.len()) =~= rest);
        assert(!rest.contains('|') && !rest.contains('&')) by {
            if rest.contains('|') {
                let k = choose|k: int| 0 <= k < rest.len() && rest[k] == '|';
                assert(w[k + 1] == '|');
            }
            if rest.contains('&') {
                let k = choose|k: int| 0 <= k < rest.len() && rest[k] == '&';
                assert(w[k + 1] == '&');
            }
        }
        lemma_split_word(s, i + 1, cur.push(w[0]), acc, rest);
        assert(cur.push(w[0]) + rest =~= cur + w);
    }
}

/// Reading pieces joined by a `|` or `&` yields each piece in turn.
proof fn lemma_split_join(s: Seq<char>, i: int, acc: Seq<Seq<char>>, qs: Seq<Seq<char>>, sep: Seq<char>)
    requires
        qs.len() >= 1,
        sep == "|"@ || sep == "&"@,
        forall|k: int| 0 <= k < qs.len() ==> !(#[trigger] qs[k]).contains('|') && !qs[k].contains('&'),
        0 <= i,
        i + join(qs, sep).len() <= s.len(),
        s.subrange(i, i + join(qs, sep).len()) == join(qs, sep),
    ensures
        split_bars(s, i, Seq::empty(), acc) == split_bars(
            s,
            i + join(qs, sep).len(),
            qs.last(),
            acc + qs.drop_last(),
        ),
    decreases qs.len(),
{
    reveal_strlit("|");
    reveal_strlit("&");
    if qs.len() == 1 {
        assert(join(qs, sep) == qs[0]);
        lemma_split_word(s, i, Seq::empty(), acc, qs[0]);
        assert(Seq::<char>::empty() + qs[0] =~= qs[0]);
        assert(acc + qs.drop_last() =~= acc);
    } else {
        let init = qs.drop_last();
        let j0 = join(init, sep);
        assert(join(qs, sep) == j0 + sep + qs.last());
        assert(s.subrange(i, i + j0.len()) =~= j0);
        assert forall|k: int| 0 <= k < init.len() implies !(#[trigger] init[k]).contains('|')
            && !init[k].contains('&') by {
            assert(init[k] == qs[k]);
        }
        lemma_split_join(s, i, acc, init, sep);
        let at = i + j0.len();
        let whole = join(qs, sep);
        assert(sep.len() == 1);
        assert(whole[j0.len() as int] == sep[0]);
        assert(s.subrange(i, i + whole.len())[j0.len() as int] == s[at]);
        assert(s[at] == sep[0]);
        assert(split_bars(s, at, init.last(), acc + init.drop_last()) == split_bars(
            s,
            at + 1,
            Seq::empty(),
            (acc + init.drop_last()).push(init.last()),
        ));
        assert((acc + init.drop_last()).push(init.last()) =~= acc + init);
        let last = qs.last();
        assert forall|t: int| 0 <= t < last.len() implies s.subrange(at + 1, at + 1 + last.len())[t]
            == last[t] by {
            assert(whole[j0.len() + 1 + t] == last[t]);
            assert(s.subrange(i, i + whole.len())[j0.len() + 1 + t] == s[at + 1 + t]);
        }
        assert(s.subrange(at + 1, at + 1 + last.len()) =~= last);
        assert(!last.contains('|') && !last.contains('&')) by {
            assert(qs[qs.len() - 1] == last);
        }
        lemma_split_word(s, at + 1, Seq::empty(), acc + init, last);
        assert(Seq::<char>::empty() + last =~= last);
    }
}

/// The pieces of a joined pattern, cleaned, are the words it was made of.
proof fn lemma_stored_wildcards(ps: Seq<Seq<char>>)
    requires
        forall|k: int| 0 <= k < ps.len() ==> rule_word(#[trigger] ps[k]),
    ensures
        stored_prefixes(with_wildcard(ps)) == ps,
    decreases ps.len(),
{
    if ps.len() > 0 {
        let init = ps.drop_last();
        assert forall|k: int| 0 <= k < init.len() implies rule_word(#[trigger] init[k]) by {
            assert(init[k] == ps[k]);
        }
        lemma_stored_wildcards(init);
        assert(with_wildcard(ps).drop_last() =~= with_wildcard(init));
        assert(rule_word(ps.last())) by {
            assert(ps[ps.len() - 1] == ps.last());
        }
        lemma_clean_piece(ps.last());
        assert(with_wildcard(ps).last() == ps.last() + ":*"@);
        assert(init.push(ps.last()) =~= ps);
    }
}

/// A pattern made by joining `p:*` for each word reads back as those words.
proof fn lemma_rule_prefixes_of_join(ps: Seq<Seq<char>>, sep: Seq<char>)
    requires
        ps.len() >= 1,
        sep == "|"@ || sep == "&"@,
        forall|k: int| 0 <= k < ps.len() ==> rule_word(#[trigger] ps[k]),
    ensures
        rule_prefixes(join(with_wildcard(ps), sep)) == ps,
        join(with_wildcard(ps), sep) != "*"@,
{
    reveal_strlit(":*");
    reveal_strlit("*");
    let qs = with_wildcard(ps);
    let pat = join(qs, sep);
    assert forall|k: int| 0 <= k < qs.len() implies !(#[trigger] qs[k]).contains('|')
        && !qs[k].contains('&') by {
        assert(rule_word(ps[k]));
        assert(qs[k] == ps[k] + ":*"@);
        if qs[k].contains('|') {
            let j = choose|j: int| 0 <= j < qs[k].len() && qs[k][j] == '|';
            if j < ps[k].len() {
                assert(ps[k][j] == '|');
            }
        }
        if qs[k].contains('&') {
            let j = choose|j: int| 0 <= j < qs[k].len() && qs[k][j] == '&';
            if j < ps[k].len() {
                assert(ps[k][j] == '&');
            }
        }
    }
    assert(pat.subrange(0, pat.len() as int) =~= pat);
    lemma_split_join(pat, 0, Seq::empty(), qs, sep);
    assert(Seq::<Seq<char>>::empty() + qs.drop_last() =~= qs.drop_last());
    assert(qs.drop_last().push(qs.last()) =~= qs);
    lemma_stored_wildcards(ps);
    lemma_join_longer(qs, sep);
}

/// A join of `p:*` pieces is longer than one character.
proof fn lemma_join_longer(qs: Seq<Seq<char>>, sep: Seq<char>)
    requires
        qs.len() >= 1,
        forall|k: int| 0 <= k < qs.len() ==> (#[trigger] qs[k]).len() >= 2,
    ensures
        join(qs, sep).len() >= 2,
    decreases qs.len(),
{
    if qs.len() > 1 {
        let init = qs.drop_last();
        assert forall|k: int| 0 <= k < init.len() implies (#[trigger] init[k]).len() >= 2 by {
            assert(init[k] == qs[k]);
        }
        lemma_join_longer(init, sep);
    } else {
        assert(qs[0].len() >= 2);
    }
}

/// The first word of a prefix headed by a command without spaces is that
/// command.
proof fn lemma_first_word_headed(p: Seq<char>, x: Seq<char>)
    requires
        headed_by(p, x),
        p != x,
        !x.contains(' '),
    ensures
        first_word(p) == x,
{
    let n = x.len() as int;
    assert(p.len() > n && p.take(n) == x && p[n] == ' ');
    assert forall|j: int| 0 <= j < n implies p[j] != ' ' by {
        assert(p.take(n)[j] == p[j]);
        assert(x[j] == p[j]);
        if p[j] == ' ' {
            assert(x.contains(' '));
        }
    }
    assert(p.contains(' ')) by {
        assert(p[n] == ' ');
    }
    assert(0 <= n < p.len() && p[n] == ' ' && forall|j: int| 0 <= j < n ==> p[j] != ' ');
    let k = choose|k: int|
        0 <= k < p.len() && p[k] == ' ' && forall|j: int| 0 <= j < k ==> p[j] != ' ';
    if k < n {
        assert(p[k] != ' ');
    }
    if k > n {
        assert(p[n] != ' ');
    }
    assert(k == n);
}

/// The rule a pipeline (`sep` is `|`) or chain (`sep` is `&`) suggests:
/// any command when it has no base command, `cmd:*` when all its base
/// commands are one, else its meaningful prefixes, each followed by `:*`,
/// joined by `sep`.
pub open spec fn compound_pattern(c: Seq<char>, sep: Seq<char>) -> Seq<char> {
    let bc = base_commands(c);
    if bc.len() == 0 {
        "*"@
    } else if all_same(bc) {
        bc[0] + ":*"@
    } else {
        join(with_wildcard(meaningful(c)), sep)
    }
}

/// The pipeline and chain shapes suggest [`compound_pattern`].
proof fn lemma_outcome_patterns(c: Seq<char>)
    ensures
        pipeline_outcome(c).pattern == compound_pattern(c, "|"@),
        chain_outcome(c).pattern == compound_pattern(c, "&"@),
{
    let ps = meaningful(c);
    if ps.len() == 1 {
        assert(join(with_wildcard(ps), "|"@) == with_wildcard(ps)[0]);
        assert(join(with_wildcard(ps), "&"@) == with_wildcard(ps)[0]);
    }
}

/// The words of a line a rule is made of: its meaningful prefixes and its
/// base commands can be named in a rule and read back, and no base command
/// holds a space.
pub open spec fn rule_words_readable(c: Seq<char>) -> bool {
    &&& forall|k: int| 0 <= k < meaningful(c).len() ==> rule_word(#[trigger] meaningful(c)[k])
    &&& forall|k: int|
        0 <= k < base_commands(c).len() ==> rule_word(#[trigger] base_commands(c)[k])
            && !base_commands(c)[k].contains(' ')
}

/// The rule suggested for a compound line matches that line.
proof fn lemma_compound_round_trip(c: Seq<char>, sep: Seq<char>)
    requires
        !contains(c, "<<"@),
        sep == "|"@ || sep == "&"@,
        rule_words_readable(c),
    ensures
        compound_rule_matches(compound_pattern(c, sep), c),
{
    reveal_strlit(":*");
    let bc = base_commands(c);
    let incoming = meaningful(c);
    lemma_meaningful_from_base(c);
    if bc.len() == 0 {
    } else if all_same(bc) {
        let b = bc[0];
        let ps = seq![b];
        assert(rule_word(b) && !b.contains(' '));
        lemma_rule_prefixes_of_join(ps, "|"@);
        assert(join(with_wildcard(ps), "|"@) == with_wildcard(ps)[0]);
        assert(with_wildcard(ps)[0] == b + ":*"@);
        let stored = rule_prefixes(b + ":*"@);
        assert(stored == ps);
        assert forall|k: int| 0 <= k < incoming.len() implies covered(stored, #[trigger] incoming[k]) by {
            let p = incoming[k];
            assert(incoming.contains(p));
            let x = choose|x: Seq<char>| bc.contains(x) && #[trigger] headed_by(p, x);
            let j = choose|j: int| 0 <= j < bc.len() && bc[j] == x;
            assert(x == b);
            assert(stored[0] == b);
            if p == x {
                assert(stored.contains(p));
            } else {
                lemma_first_word_headed(p, x);
                assert(stored.contains(first_word(p)));
            }
        }
    } else {
        assert(incoming.len() > 0);
        lemma_rule_prefixes_of_join(incoming, sep);
        let stored = rule_prefixes(compound_pattern(c, sep));
        assert(stored == incoming);
        assert forall|k: int| 0 <= k < incoming.len() implies covered(stored, #[trigger] incoming[k]) by {
            assert(stored.contains(incoming[k]));
        }
    }
}

/// A rule suggested for a pipeline or a command chain keeps matching the
/// command it was made from, as long as the commands it names can be
/// written into a rule and read back (see [`rule_words_readable`]): a
/// stored "trust" rule is not worth keeping if the same command asks again.
pub proof fn law_compound_rule_round_trip(c: Seq<char>)
    requires
        first_applicable(registry_order(), c) == Some(PatternKind::Pipeline)
            || first_applicable(registry_order(), c) == Some(PatternKind::CommandChain),
        rule_words_readable(c),
    ensures
        registry_rule_matches(registry_analysis(c).pattern, c),
{
    reveal_strlit("|");
    reveal_strlit("&");
    law_registry_order();
    assert(registry_order()[0] == PatternKind::Heredoc);
    assert(!contains(c, "<<"@));
    lemma_outcome_patterns(c);
    if first_applicable(registry_order(), c) == Some(PatternKind::Pipeline) {
        lemma_compound_round_trip(c, "|"@);
    } else {
        lemma_compound_round_trip(c, "&"@);
    }
}

} // verus!
