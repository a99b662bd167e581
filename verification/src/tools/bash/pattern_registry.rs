//! The ordered set of command shapes, consulted from the highest priority
//! down: the first shape that applies decides the analysis and the rule
//! matcher.
use crate::text::{contains, ends_with, join, occurs_at, starts_with};
use crate::tools::bash::command_pattern::{
    all_same, flag_with_value, mutating_flags, mutating_token, chain_outcome, command_label, lead_command, meaningful, compound_rule_matches, has_chain, has_redirection, has_subshell,
    heredoc_outcome, heredoc_rule_matches, network_outcome, outcome, pipeline_outcome,
    read_only_network, redirection_outcome, redirection_rule_matches, single_outcome,
    single_rule_matches, subshell_outcome, whitelisted, BashCommandPattern, CommandChainPattern,
    CommandPatternResult, HeredocPattern, NetworkReadPattern, PatternOutcome, PipelinePattern,
    RedirectionPattern, SingleCommandPattern, SubshellPattern,
};
use crate::tools::bash::lexer::shlex_words;
use crate::tools::bash::parser::{base_commands, first_command_and_arg, with_wildcard};
use vstd::prelude::*;

verus! {

/// The command shapes the registry knows.
#[derive(Clone, Copy, PartialEq, Eq, Structural)]
pub enum PatternKind {
    Heredoc,
    Subshell,
    Pipeline,
    Redirection,
    NetworkRead,
    CommandChain,
    SingleCommand,
}

/// The priority of a shape (as its pattern type reports it).
pub open spec fn kind_rank(k: PatternKind) -> u32 {
    match k {
        PatternKind::Heredoc => 100,
        PatternKind::Subshell => 90,
        PatternKind::Pipeline => 80,
        PatternKind::Redirection => 70,
        PatternKind::NetworkRead => 65,
        PatternKind::CommandChain => 60,
        PatternKind::SingleCommand => 0,
    }
}

/// Whether a shape applies to a command.
pub open spec fn kind_matches(k: PatternKind, c: Seq<char>) -> bool {
    match k {
        PatternKind::Heredoc => contains(c, "<<"@),
        PatternKind::Subshell => has_subshell(c),
        PatternKind::Pipeline => c.contains('|') && !contains(c, "||"@),
        PatternKind::Redirection => has_redirection(c),
        PatternKind::NetworkRead => read_only_network(c),
        PatternKind::CommandChain => has_chain(c),
        PatternKind::SingleCommand => true,
    }
}

/// The analysis a shape gives a command.
pub open spec fn kind_analysis(k: PatternKind, c: Seq<char>) -> PatternOutcome {
    match k {
        PatternKind::Heredoc => heredoc_outcome(c),
        PatternKind::Subshell => subshell_outcome(),
        PatternKind::Pipeline => pipeline_outcome(c),
        PatternKind::Redirection => redirection_outcome(c),
        PatternKind::NetworkRead => network_outcome(),
        PatternKind::CommandChain => chain_outcome(c),
        PatternKind::SingleCommand => single_outcome(c),
    }
}

/// Whether a stored rule of a shape covers a command.
pub open spec fn kind_rule_matches(k: PatternKind, p: Seq<char>, c: Seq<char>) -> bool {
    match k {
        PatternKind::Heredoc => heredoc_rule_matches(p, c),
        PatternKind::Subshell => p == "*"@ && has_subshell(c),
        PatternKind::Pipeline => compound_rule_matches(p, c),
        PatternKind::Redirection => redirection_rule_matches(p, c),
        PatternKind::NetworkRead => p == "net:read"@ && read_only_network(c),
        PatternKind::CommandChain => compound_rule_matches(p, c),
        PatternKind::SingleCommand => single_rule_matches(p, c),
    }
}

/// The shapes in the order they are listed when the registry is built.
pub open spec fn listed_kinds() -> Seq<PatternKind> {
    seq![
        PatternKind::Heredoc,
        PatternKind::Subshell,
        PatternKind::Pipeline,
        PatternKind::Redirection,
        PatternKind::NetworkRead,
        PatternKind::CommandChain,
        PatternKind::SingleCommand,
    ]
}

/// `x` inserted into `s` before the first element of strictly lower rank
/// (a stable insertion for a sort by descending rank).
pub open spec fn insert_by_rank(s: Seq<PatternKind>, x: PatternKind) -> Seq<PatternKind>
    decreases s.len(),
{
    if s.len() == 0 {
        seq![x]
    } else if kind_rank(s[0]) < kind_rank(x) {
        seq![x] + s
    } else {
        seq![s[0]] + insert_by_rank(s.drop_first(), x)
    }
}

/// Stable sort by descending rank (`sort_by_key` with `Reverse(priority)`).
pub open spec fn sort_by_rank(s: Seq<PatternKind>) -> Seq<PatternKind>
    decreases s.len(),
{
    if s.len() == 0 {
        Seq::empty()
    } else {
        insert_by_rank(sort_by_rank(s.drop_last()), s.last())
    }
}

/// The order in which the registry tries the shapes.
pub open spec fn registry_order() -> Seq<PatternKind> {
    sort_by_rank(listed_kinds())
}

/// The first shape of `ks` that applies to `c`.
pub open spec fn first_applicable(ks: Seq<PatternKind>, c: Seq<char>) -> Option<PatternKind>
    decreases ks.len(),
{
    if ks.len() == 0 {
        None
    } else if kind_matches(ks[0], c) {
        Some(ks[0])
    } else {
        first_applicable(ks.drop_first(), c)
    }
}

/// The registry's fallback when no shape applies.
pub open spec fn fallback_outcome() -> PatternOutcome {
    outcome(
        "bash command"@,
        Seq::empty(),
        "*"@,
        "don't ask me again for bash in this project"@,
        false,
        true,
    )
}

/// The analysis the registry gives a command.
pub open spec fn registry_analysis(c: Seq<char>) -> PatternOutcome {
    match first_applicable(registry_order(), c) {
        Some(k) => kind_analysis(k, c),
        None => fallback_outcome(),
    }
}

/// Whether the registry lets a stored rule cover a command.
pub open spec fn registry_rule_matches(p: Seq<char>, c: Seq<char>) -> bool {
    match first_applicable(registry_order(), c) {
        Some(k) => kind_rule_matches(k, p, c),
        None => false,
    }
}

pub struct BashCommandPatternRegistry {
    patterns: Vec<PatternKind>,
}

impl BashCommandPatternRegistry {
    #[verifier::type_invariant]
    spec fn ordered(self) -> bool {
        self.patterns@ == registry_order()
    }

    /// The shapes in the order the registry consults them.
    pub closed spec fn kinds(&self) -> Seq<PatternKind> {
        self.patterns@
    }

    /// A registry that consults the shapes from the highest priority down
    /// (see [`registry_order`]).
    pub fn new() -> (r: Self)
        ensures
            r.kinds() == registry_order(),
    {
        let patterns: Vec<PatternKind> = vec![
            PatternKind::Heredoc,
            PatternKind::Subshell,
            PatternKind::Pipeline,
            PatternKind::Redirection,
            PatternKind::NetworkRead,
            PatternKind::CommandChain,
            PatternKind::SingleCommand,
        ];
        assert(patterns@ == listed_kinds());
        let patterns = sort_patterns(patterns);
        Self { patterns }
    }

    /// Analyze a command and return detailed pattern information including risk assessment
    pub fn analyze_command(&self, command: &str) -> (r: CommandPatternResult)
        ensures
            r@ == registry_analysis(command@),
    {
        proof {
            use_type_invariant(self);
            assert(self.patterns@.skip(0) =~= self.patterns@);
        }
        let mut i: usize = 0;
        while i < self.patterns.len()
            invariant
                i <= self.patterns@.len(),
                self.patterns@ == registry_order(),
                first_applicable(registry_order(), command@) == first_applicable(
                    self.patterns@.skip(i as int),
                    command@,
                ),
            decreases self.patterns@.len() - i,
        {
            let k = self.patterns[i];
            assert(self.patterns@.skip(i as int)[0] == k);
            assert(self.patterns@.skip(i as int).drop_first() =~= self.patterns@.skip(i + 1));
            if kind_matches_exec(k, command) {
                return kind_analyze_exec(k, command);
            }
            i += 1;
        }
        assert(self.patterns@.skip(i as int) =~= Seq::<PatternKind>::empty());
        CommandPatternResult {
            description: crate::text::owned("bash command"),
            summary: String::new(),
            pattern: crate::text::owned("*"),
            persistent_message: crate::text::owned("don't ask me again for bash in this project"),
            safe: false,
            allow_project_wide_trust: true,
        }
    }

    /// Whether a stored rule covers a command, judged by the first shape
    /// that applies to the command.
    pub fn matches_pattern(&self, pattern: &str, command: &str) -> (r: bool)
        ensures
            r == registry_rule_matches(pattern@, command@),
    {
        proof {
            use_type_invariant(self);
            assert(self.patterns@.skip(0) =~= self.patterns@);
        }
        let mut i: usize = 0;
        while i < self.patterns.len()
            invariant
                i <= self.patterns@.len(),
                self.patterns@ == registry_order(),
                first_applicable(registry_order(), command@) == first_applicable(
                    self.patterns@.skip(i as int),
                    command@,
                ),
            decreases self.patterns@.len() - i,
        {
            let k = self.patterns[i];
            assert(self.patterns@.skip(i as int)[0] == k);
            assert(self.patterns@.skip(i as int).drop_first() =~= self.patterns@.skip(i + 1));
            if kind_matches_exec(k, command) {
                return kind_matches_pattern_exec(k, pattern, command);
            }
            i += 1;
        }
        assert(self.patterns@.skip(i as int) =~= Seq::<PatternKind>::empty());
        false
    }
}

impl Default for BashCommandPatternRegistry {
    fn default() -> (r: Self) {
        Self::new()
    }
}

/// The priority of a shape.
fn kind_priority_exec(k: PatternKind) -> (r: u32)
    ensures
        r == kind_rank(k),
{
    match k {
        PatternKind::Heredoc => HeredocPattern.priority(),
        PatternKind::Subshell => SubshellPattern.priority(),
        PatternKind::Pipeline => PipelinePattern.priority(),
        PatternKind::Redirection => RedirectionPattern.priority(),
        PatternKind::NetworkRead => NetworkReadPattern.priority(),
        PatternKind::CommandChain => CommandChainPattern.priority(),
        PatternKind::SingleCommand => SingleCommandPattern.priority(),
    }
}

fn kind_matches_exec(k: PatternKind, command: &str) -> (r: bool)
    ensures
        r == kind_matches(k, command@),
{
    match k {
        PatternKind::Heredoc => HeredocPattern.matches(command),
        PatternKind::Subshell => SubshellPattern.matches(command),
        PatternKind::Pipeline => PipelinePattern.matches(command),
        PatternKind::Redirection => RedirectionPattern.matches(command),
        PatternKind::NetworkRead => NetworkReadPattern.matches(command),
        PatternKind::CommandChain => CommandChainPattern.matches(command),
        PatternKind::SingleCommand => SingleCommandPattern.matches(command),
    }
}

fn kind_analyze_exec(k: PatternKind, command: &str) -> (r: CommandPatternResult)
    ensures
        r@ == kind_analysis(k, command@),
{
    match k {
        PatternKind::Heredoc => HeredocPattern.analyze(command),
        PatternKind::Subshell => SubshellPattern.analyze(command),
        PatternKind::Pipeline => PipelinePattern.analyze(command),
        PatternKind::Redirection => RedirectionPattern.analyze(command),
        PatternKind::NetworkRead => NetworkReadPattern.analyze(command),
        PatternKind::CommandChain => CommandChainPattern.analyze(command),
        PatternKind::SingleCommand => SingleCommandPattern.analyze(command),
    }
}

fn kind_matches_pattern_exec(k: PatternKind, pattern: &str, command: &str) -> (r: bool)
    ensures
        r == kind_rule_matches(k, pattern@, command@),
{
    match k {
        PatternKind::Heredoc => HeredocPattern.matches_pattern(pattern, command),
        PatternKind::Subshell => SubshellPattern.matches_pattern(pattern, command),
        PatternKind::Pipeline => PipelinePattern.matches_pattern(pattern, command),
        PatternKind::Redirection => RedirectionPattern.matches_pattern(pattern, command),
        PatternKind::NetworkRead => NetworkReadPattern.matches_pattern(pattern, command),
        PatternKind::CommandChain => CommandChainPattern.matches_pattern(pattern, command),
        PatternKind::SingleCommand => SingleCommandPattern.matches_pattern(pattern, command),
    }
}

/// Inserts `x` into `v` before the first element of strictly lower rank.
fn insert_by_rank_exec(v: &mut Vec<PatternKind>, x: PatternKind)
    ensures
        final(v)@ == insert_by_rank(old(v)@, x),
{
    let ghost orig = v@;
    let rx = kind_priority_exec(x);
    let mut pos: usize = 0;
    assert(orig.skip(0) =~= orig);
    assert(orig.take(0) + insert_by_rank(orig, x) =~= insert_by_rank(orig, x));
    while pos < v.len()
        invariant
            pos <= v@.len(),
            orig == v@,
            orig == old(v)@,
            rx == kind_rank(x),
            insert_by_rank(orig, x) == orig.take(pos as int) + insert_by_rank(
                orig.skip(pos as int),
                x,
            ),
        decreases v@.len() - pos,
    {
        let ghost rest = orig.skip(pos as int);
        assert(rest[0] == v@[pos as int]);
        if kind_priority_exec(v[pos]) < rx {
            v.insert(pos, x);
            assert(v@ =~= orig.take(pos as int) + (seq![x] + rest));
            return;
        }
        assert(rest.drop_first() =~= orig.skip(pos + 1));
        assert(orig.take(pos as int) + (seq![rest[0]] + insert_by_rank(orig.skip(pos + 1), x))
            =~= orig.take(pos + 1) + insert_by_rank(orig.skip(pos + 1), x));
        pos += 1;
    }
    assert(orig.skip(pos as int) =~= Seq::<PatternKind>::empty());
    v.push(x);
    assert(v@ =~= orig.take(pos as int) + seq![x]);
}

/// Stable sort by descending priority.
fn sort_patterns(input: Vec<PatternKind>) -> (r: Vec<PatternKind>)
    ensures
        r@ == sort_by_rank(input@),
{
    let mut out: Vec<PatternKind> = Vec::new();
    let mut i: usize = 0;
    while i < input.len()
        invariant
            i <= input@.len(),
            out@ == sort_by_rank(input@.take(i as int)),
        decreases input@.len() - i,
    {
        assert(input@.take(i + 1).drop_last() =~= input@.take(i as int));
        insert_by_rank_exec(&mut out, input[i]);
        i += 1;
    }
    assert(input@.take(input@.len() as int) =~= input@);
    out
}

// ---------------------------------------------------------------------------
// Laws
// ---------------------------------------------------------------------------
/// Every element of `s` ranks at least `r`.
pub open spec fn ranks_at_least(s: Seq<PatternKind>, r: u32) -> bool {
    forall|k: int| 0 <= k < s.len() ==> kind_rank(#[trigger] s[k]) >= r
}

/// `s` is ordered by non-increasing rank.
pub open spec fn rank_descending(s: Seq<PatternKind>) -> bool {
    forall|a: int, b: int| 0 <= a < b < s.len() ==> kind_rank(#[trigger] s[a]) >= kind_rank(
        #[trigger] s[b],
    )
}

proof fn lemma_insert_low_appends(s: Seq<PatternKind>, x: PatternKind)
    requires
        ranks_at_least(s, kind_rank(x)),
    ensures
        insert_by_rank(s, x) == s.push(x),
    decreases s.len(),
{
    if s.len() > 0 {
        assert(kind_rank(s[0]) >= kind_rank(x));
        lemma_insert_low_appends(s.drop_first(), x);
        assert(seq![s[0]] + s.drop_first().push(x) =~= s.push(x));
    } else {
        assert(seq![x] =~= s.push(x));
    }
}

proof fn lemma_sort_of_sorted(s: Seq<PatternKind>)
    requires
        rank_descending(s),
    ensures
        sort_by_rank(s) == s,
    decreases s.len(),
{
    if s.len() > 0 {
        let init = s.drop_last();
        assert(rank_descending(init));
        lemma_sort_of_sorted(init);
        assert forall|k: int| 0 <= k < init.len() implies kind_rank(#[trigger] init[k])
            >= kind_rank(s.last()) by {
            assert(s[k] == init[k]);
        }
        lemma_insert_low_appends(init, s.last());
        assert(init.push(s.last()) =~= s);
    }
}

/// Sorting the listed shapes by priority keeps their listed order: heredoc,
/// subshell, pipeline, redirection, network read, chain, single command.
pub proof fn law_registry_order()
    ensures
        registry_order() == listed_kinds(),
{
    assert(rank_descending(listed_kinds()));
    lemma_sort_of_sorted(listed_kinds());
}

/// Every command gets an analysis from some shape: the single-command shape
/// applies to all commands, so the fallback is never used.
pub proof fn law_some_shape_applies(c: Seq<char>)
    ensures
        first_applicable(registry_order(), c) is Some,
{
    law_registry_order();
    let ks = listed_kinds();
    assert(ks.drop_first().drop_first().drop_first().drop_first().drop_first().drop_first()[0]
        == PatternKind::SingleCommand);
    reveal_with_fuel(first_applicable, 8);
}

/// The first applicable shape of the registry, by the listed order.
proof fn lemma_first_applicable_listed(c: Seq<char>)
    ensures
        first_applicable(registry_order(), c) == Some(
            if contains(c, "<<"@) {
                PatternKind::Heredoc
            } else if has_subshell(c) {
                PatternKind::Subshell
            } else if c.contains('|') && !contains(c, "||"@) {
                PatternKind::Pipeline
            } else if has_redirection(c) {
                PatternKind::Redirection
            } else if read_only_network(c) {
                PatternKind::NetworkRead
            } else if has_chain(c) {
                PatternKind::CommandChain
            } else {
                PatternKind::SingleCommand
            },
        ),
{
    law_registry_order();
    let ks = listed_kinds();
    let k1 = ks.drop_first();
    let k2 = k1.drop_first();
    let k3 = k2.drop_first();
    let k4 = k3.drop_first();
    let k5 = k4.drop_first();
    let k6 = k5.drop_first();
    assert(ks[0] == PatternKind::Heredoc);
    assert(k1[0] == PatternKind::Subshell);
    assert(k2[0] == PatternKind::Pipeline);
    assert(k3[0] == PatternKind::Redirection);
    assert(k4[0] == PatternKind::NetworkRead);
    assert(k5[0] == PatternKind::CommandChain);
    assert(k6[0] == PatternKind::SingleCommand);
    reveal_with_fuel(first_applicable, 8);
}

/// The registry answers as the first shape, by priority, that applies to
/// the command (heredoc 100, subshell 90, pipeline 80, redirection 70,
/// network read 65, chain 60, single command 0; see
/// [`law_registry_order`]): its analysis and whether a stored rule covers
/// the command are that shape's own.
pub proof fn law_registry_defers_to_first_shape(c: Seq<char>, p: Seq<char>)
    ensures
        HeredocPattern.rank() == 100 && SubshellPattern.rank() == 90 && PipelinePattern.rank() == 80
            && RedirectionPattern.rank() == 70 && NetworkReadPattern.rank() == 65
            && CommandChainPattern.rank() == 60 && SingleCommandPattern.rank() == 0,
        registry_analysis(c) == if HeredocPattern.shape_matches(c) {
            HeredocPattern.analysis(c)
        } else if SubshellPattern.shape_matches(c) {
            SubshellPattern.analysis(c)
        } else if PipelinePattern.shape_matches(c) {
            PipelinePattern.analysis(c)
        } else if RedirectionPattern.shape_matches(c) {
            RedirectionPattern.analysis(c)
        } else if NetworkReadPattern.shape_matches(c) {
            NetworkReadPattern.analysis(c)
        } else if CommandChainPattern.shape_matches(c) {
            CommandChainPattern.analysis(c)
        } else {
            SingleCommandPattern.analysis(c)
        },
        registry_rule_matches(p, c) == if HeredocPattern.shape_matches(c) {
            HeredocPattern.rule_matches(p, c)
        } else if SubshellPattern.shape_matches(c) {
            SubshellPattern.rule_matches(p, c)
        } else if PipelinePattern.shape_matches(c) {
            PipelinePattern.rule_matches(p, c)
        } else if RedirectionPattern.shape_matches(c) {
            RedirectionPattern.rule_matches(p, c)
        } else if NetworkReadPattern.shape_matches(c) {
            NetworkReadPattern.rule_matches(p, c)
        } else if CommandChainPattern.shape_matches(c) {
            CommandChainPattern.rule_matches(p, c)
        } else {
            SingleCommandPattern.rule_matches(p, c)
        },
{
    lemma_first_applicable_listed(c);
}

/// A network call that sends data is never a read-only request: when a
/// word of the command is one of the data-sending flags `-d`, `--data`,
/// `--data-raw`, `--data-binary`, `--data-urlencode`, `--form`, `-F`,
/// `--upload-file`, `-T`, `--post-data`, `--post-file` (alone or as
/// `flag=value`), the command is not read-only network traffic, the
/// registry never analyses it as such, and a stored `net:read` rule of that
/// shape does not cover it.
pub proof fn law_data_flags_never_read_only(c: Seq<char>, toks: Seq<Seq<char>>, j: int, flag: Seq<char>)
    requires
        shlex_words(c) == Some(toks),
        0 <= j < toks.len(),
        seq![
            "-d"@,
            "--data"@,
            "--data-raw"@,
            "--data-binary"@,
            "--data-urlencode"@,
            "--form"@,
            "-F"@,
            "--upload-file"@,
            "-T"@,
            "--post-data"@,
            "--post-file"@,
        ].contains(flag),
        toks[j] == flag || starts_with(toks[j], flag + "="@),
    ensures
        !read_only_network(c),
        first_applicable(registry_order(), c) != Some(PatternKind::NetworkRead),
        !NetworkReadPattern.rule_matches("net:read"@, c),
{
    let lits = seq![
        "-d"@,
        "--data"@,
        "--data-raw"@,
        "--data-binary"@,
        "--data-urlencode"@,
        "--form"@,
        "-F"@,
        "--upload-file"@,
        "-T"@,
        "--post-data"@,
        "--post-file"@,
    ];
    assert(lits =~= mutating_flags());
    let k = choose|k: int| 0 <= k < lits.len() && lits[k] == flag;
    if toks[j] == flag {
        assert(mutating_flags()[k] == toks[j]);
        assert(mutating_flags().contains(toks[j]));
    } else {
        assert(flag_with_value(toks[j], mutating_flags()[k]));
    }
    assert(mutating_token(toks, j));
    lemma_first_applicable_listed(c);
}

/// A heredoc command is always analysed as a heredoc, whatever else it
/// holds (pipes, chains, subshells in its body).
pub proof fn law_heredoc_first(c: Seq<char>)
    requires
        contains(c, "<<"@),
    ensures
        registry_analysis(c) == heredoc_outcome(c),
        registry_rule_matches("cat:<<"@, c) == heredoc_rule_matches("cat:<<"@, c),
{
    lemma_first_applicable_listed(c);
}

/// A command with a subshell (and no heredoc) is never approved without
/// asking and never offers project-wide trust.
pub proof fn law_subshell_never_trusted(c: Seq<char>)
    requires
        has_subshell(c),
        !contains(c, "<<"@),
    ensures
        !registry_analysis(c).safe,
        !registry_analysis(c).allow_project_wide_trust,
{
    lemma_first_applicable_listed(c);
}

/// Only a single command can be approved without asking, and only when it
/// is whitelisted: an analysis marked safe comes from the single-command
/// shape, for a line without heredoc, subshell, pipe, redirection or chain.
pub proof fn law_safe_means_simple_whitelisted(c: Seq<char>)
    requires
        registry_analysis(c).safe,
    ensures
        !contains(c, "<<"@),
        !has_subshell(c),
        !c.contains('|'),
        !c.contains('>'),
        !c.contains('<'),
        !has_chain(c),
        first_command_and_arg(c) is Some,
        whitelisted(first_command_and_arg(c).unwrap().0, c),
{
    lemma_first_applicable_listed(c);
    if c.contains('|') && contains(c, "||"@) {
        assert(has_chain(c));
    }
}

/// A command that redirects output with `>` is never approved without
/// asking, whatever command it runs.
pub proof fn law_output_redirect_never_safe(c: Seq<char>)
    requires
        c.contains('>'),
    ensures
        !registry_analysis(c).safe,
{
    if registry_analysis(c).safe {
        law_safe_means_simple_whitelisted(c);
    }
}

/// The rule suggested for a simple command (no redirection, pipe, chain or
/// subshell) covers that same command again, so a stored "trust project"
/// rule keeps matching the command it was made from.
pub proof fn law_single_rule_round_trip(c: Seq<char>)
    requires
        !c.contains('>'),
        !c.contains('<'),
        !c.contains('|'),
        !has_chain(c),
        !has_subshell(c),
        first_command_and_arg(c) is Some,
    ensures
        single_rule_matches(single_outcome(c).pattern, c),
{
    reveal_strlit(":*");
    let (cmd, arg) = first_command_and_arg(c)->0;
    let d = match arg {
        Some(a) => cmd + " "@ + a,
        None => cmd,
    };
    let p = d + ":*"@;
    assert(single_outcome(c).pattern == p);
    assert(ends_with(p, ":*"@)) by {
        assert(p.skip(p.len() - 2) =~= ":*"@);
    }
    assert(p.take(p.len() - 2) =~= d);
}

/// A join ends as its last piece ends.
/// A generated rule matches its command again: for a simple command (no
/// redirection, pipe, chain, subshell or network read) the registry
/// analyses it as a single command, and the rule it suggests covers the
/// command under the registry's own matching.
pub proof fn law_registry_single_round_trip(c: Seq<char>)
    requires
        !c.contains('>'),
        !c.contains('<'),
        !c.contains('|'),
        !has_chain(c),
        !has_subshell(c),
        !read_only_network(c),
        first_command_and_arg(c) is Some,
    ensures
        registry_analysis(c) == single_outcome(c),
        registry_rule_matches(registry_analysis(c).pattern, c),
{
    lemma_first_applicable_listed(c);
    if contains(c, "<<"@) {
        reveal_strlit("<<");
        let k = choose|k: int| occurs_at(c, "<<"@, k);
        assert(c.subrange(k, k + 2)[0] == '<');
        assert(c[k] == '<');
    }
    law_single_rule_round_trip(c);
}

proof fn lemma_join_last(qs: Seq<Seq<char>>, sep: Seq<char>)
    requires
        qs.len() >= 1,
        qs.last().len() >= 1,
    ensures
        join(qs, sep).len() >= 1,
        join(qs, sep).last() == qs.last().last(),
{
    if qs.len() == 1 {
        assert(qs[0] == qs.last());
    }
}

/// A compound rule ends in `*`, or is empty.
proof fn lemma_compound_pattern_end(ps: Seq<Seq<char>>, sep: Seq<char>)
    ensures
        join(with_wildcard(ps), sep).len() == 0 || join(with_wildcard(ps), sep).last() == '*',
{
    reveal_strlit(":*");
    let qs = with_wildcard(ps);
    if ps.len() >= 1 {
        assert(qs.last() == ps.last() + ":*"@);
        lemma_join_last(qs, sep);
    } else {
        assert(join(qs, sep) == Seq::<char>::empty());
    }
}

/// The `net:read` class is given only to read-only network calls, so the
/// rule that trusts all network reads is never offered for a call that
/// sends data or deletes.
pub proof fn law_net_read_only_for_reads(c: Seq<char>)
    requires
        registry_analysis(c).pattern == "net:read"@,
    ensures
        read_only_network(c),
{
    reveal_strlit("net:read");
    reveal_strlit(":*");
    reveal_strlit(":<<");
    reveal_strlit(":>");
    reveal_strlit("*");
    reveal_strlit("subshell:none");
    lemma_first_applicable_listed(c);
    let p = registry_analysis(c).pattern;
    assert(p.last() == 'd');
    if contains(c, "<<"@) {
        let cmd = lead_command(c);
        assert((cmd + ":<<"@).last() == '<');
    } else if has_subshell(c) {
        assert(p.len() == 8);
    } else if c.contains('|') && !contains(c, "||"@) {
        let bc = base_commands(c);
        if bc.len() == 0 {
        } else if all_same(bc) {
            assert((bc[0] + ":*"@).last() == '*');
        } else {
            let ps = meaningful(c);
            if ps.len() == 1 {
                assert((ps[0] + ":*"@).last() == '*');
            } else {
                lemma_compound_pattern_end(ps, "|"@);
            }
        }
    } else if has_redirection(c) {
        let cmd = lead_command(c);
        assert((cmd + ":>"@).last() == '>');
    } else if read_only_network(c) {
    } else if has_chain(c) {
        let bc = base_commands(c);
        if bc.len() == 0 {
        } else if all_same(bc) {
            assert((bc[0] + ":*"@).last() == '*');
        } else {
            let ps = meaningful(c);
            if ps.len() == 1 {
                assert((ps[0] + ":*"@).last() == '*');
            } else {
                lemma_compound_pattern_end(ps, "&"@);
            }
        }
    } else {
        match first_command_and_arg(c) {
            Some((cmd, arg)) => {
                let d = command_label(cmd, arg);
                assert((d + ":*"@).last() == '*');
            },
            None => {},
        }
    }
}

} // verus!
