//! Coarse risk classification of a bash command by its base commands.
use crate::text::contains;
use crate::text::str_contains;
use crate::tools::bash::parser::{base_commands, BashCommandParser};
use vstd::prelude::*;

verus! {

#[derive(Debug, Clone, Copy, PartialEq, Eq, Structural)]
pub enum CommandRisk {
    Safe,
    NeedsReview,
}

pub struct BashCommandClassifier;

/// The read-only commands the classifier accepts as safe.
pub open spec fn classifier_whitelisted(cmd: Seq<char>) -> bool {
    ||| cmd == "ls"@
    ||| cmd == "pwd"@
    ||| cmd == "cat"@
    ||| cmd == "head"@
    ||| cmd == "tail"@
    ||| cmd == "less"@
    ||| cmd == "more"@
    ||| cmd == "find"@
    ||| cmd == "tree"@
    ||| cmd == "stat"@
    ||| cmd == "file"@
    ||| cmd == "grep"@
    ||| cmd == "egrep"@
    ||| cmd == "fgrep"@
    ||| cmd == "wc"@
    ||| cmd == "sort"@
    ||| cmd == "uniq"@
    ||| cmd == "diff"@
    ||| cmd == "echo"@
    ||| cmd == "which"@
    ||| cmd == "type"@
    ||| cmd == "whoami"@
    ||| cmd == "hostname"@
    ||| cmd == "date"@
}

/// The risk of a command: any heredoc or here-string needs review; otherwise
/// it is safe exactly when every base command is whitelisted.
pub open spec fn classification(command: Seq<char>) -> CommandRisk {
    if contains(command, "<<"@) || contains(command, "<<<"@) {
        CommandRisk::NeedsReview
    } else if forall|k: int|
        0 <= k < base_commands(command).len() ==> classifier_whitelisted(
            #[trigger] base_commands(command)[k],
        ) {
        CommandRisk::Safe
    } else {
        CommandRisk::NeedsReview
    }
}

impl BashCommandClassifier {
    /// Classify a bash command based on the base commands it contains
    ///
    /// Examples:
    /// - `find . -name "*.rs"` -> Safe
    /// - `cat file | grep error` -> Safe
    /// - `find | xargs sed` -> NeedsReview (sed not whitelisted)
    /// - `cargo build` -> NeedsReview (cargo not whitelisted)
    /// - `cat <<EOF` -> NeedsReview (heredocs can create arbitrary content)
    pub fn classify(command: &str) -> (r: CommandRisk)
        ensures
            r == classification(command@),
    {
        // Heredocs are never safe - they can create arbitrary content
        if Self::contains_heredoc(command) {
            return CommandRisk::NeedsReview;
        }
        let base_commands = BashCommandParser::extract_base_commands(command);
        let ghost bc = base_commands.deep_view();
        let mut k: usize = 0;
        while k < base_commands.len()
            invariant
                k <= base_commands@.len(),
                bc == base_commands.deep_view(),
                bc == crate::tools::bash::parser::base_commands(command@),
                forall|j: int| 0 <= j < k ==> classifier_whitelisted(#[trigger] bc[j]),
            decreases base_commands@.len() - k,
        {
            if !Self::is_whitelisted(base_commands[k].as_str()) {
                assert(!classifier_whitelisted(bc[k as int]));
                return CommandRisk::NeedsReview;
            }
            k += 1;
        }
        CommandRisk::Safe
    }

    /// Check if command contains a heredoc
    fn contains_heredoc(command: &str) -> (r: bool)
        ensures
            r == (contains(command@, "<<"@) || contains(command@, "<<<"@)),
    {
        str_contains(command, "<<") || str_contains(command, "<<<")
    }

    /// Whether a base command is one of the whitelisted read-only commands.
    pub fn is_whitelisted(cmd: &str) -> (r: bool)
        ensures
            r == classifier_whitelisted(cmd@),
    {
        let c = crate::text::chars_of(cmd);
        let names = vec![
            "ls",
            "pwd",
            "cat",
            "head",
            "tail",
            "less",
            "more",
            "find",
            "tree",
            "stat",
            "file",
            "grep",
            "egrep",
            "fgrep",
            "wc",
            "sort",
            "uniq",
            "diff",
            "echo",
            "which",
            "type",
            "whoami",
            "hostname",
            "date",
        ];
        let mut k: usize = 0;
        while k < names.len()
            invariant
                k <= names@.len(),
                c@ == cmd@,
                names@ == seq![
                    "ls",
                    "pwd",
                    "cat",
                    "head",
                    "tail",
                    "less",
                    "more",
                    "find",
                    "tree",
                    "stat",
                    "file",
                    "grep",
                    "egrep",
                    "fgrep",
                    "wc",
                    "sort",
                    "uniq",
                    "diff",
                    "echo",
                    "which",
                    "type",
                    "whoami",
                    "hostname",
                    "date",
                ],
                forall|j: int| 0 <= j < k ==> cmd@ != (#[trigger] names@[j])@,
            decreases names@.len() - k,
        {
            let n = crate::text::chars_of(names[k]);
            if crate::text::eq_chars(c.as_slice(), n.as_slice()) {
                return true;
            }
            k += 1;
        }
        proof {
            assert(cmd@ != names@[0]@);
            assert(cmd@ != names@[1]@);
            assert(cmd@ != names@[2]@);
            assert(cmd@ != names@[3]@);
            assert(cmd@ != names@[4]@);
            assert(cmd@ != names@[5]@);
            assert(cmd@ != names@[6]@);
            assert(cmd@ != names@[7]@);
            assert(cmd@ != names@[8]@);
            assert(cmd@ != names@[9]@);
            assert(cmd@ != names@[10]@);
            assert(cmd@ != names@[11]@);
            assert(cmd@ != names@[12]@);
            assert(cmd@ != names@[13]@);
            assert(cmd@ != names@[14]@);
            assert(cmd@ != names@[15]@);
            assert(cmd@ != names@[16]@);
            assert(cmd@ != names@[17]@);
            assert(cmd@ != names@[18]@);
            assert(cmd@ != names@[19]@);
            assert(cmd@ != names@[20]@);
            assert(cmd@ != names@[21]@);
            assert(cmd@ != names@[22]@);
            assert(cmd@ != names@[23]@);
        }
        false
    }
}

/// A line holding a heredoc or here-string always needs review, whatever
/// commands it runs.
pub proof fn law_heredoc_needs_review(command: Seq<char>)
    requires
        contains(command, "<<"@),
    ensures
        classification(command) == CommandRisk::NeedsReview,
{
}

/// The read-only commands: a line without heredoc or here-string is safe
/// exactly when every command it runs is one of `ls`, `pwd`, `cat`, `head`,
/// `tail`, `less`, `more`, `find`, `tree`, `stat`, `file`, `grep`, `egrep`,
/// `fgrep`, `wc`, `sort`, `uniq`, `diff`, `echo`, `which`, `type`,
/// `whoami`, `hostname`, `date`; a line running any other command needs
/// review.
pub proof fn law_safe_exactly_for_read_only_commands(command: Seq<char>)
    requires
        !contains(command, "<<"@),
    ensures
        classification(command) == CommandRisk::Safe <==> forall|k: int|
            0 <= k < base_commands(command).len() ==> seq![
            "ls"@,
            "pwd"@,
            "cat"@,
            "head"@,
            "tail"@,
            "less"@,
            "more"@,
            "find"@,
            "tree"@,
            "stat"@,
            "file"@,
            "grep"@,
            "egrep"@,
            "fgrep"@,
            "wc"@,
            "sort"@,
            "uniq"@,
            "diff"@,
            "echo"@,
            "which"@,
            "type"@,
            "whoami"@,
            "hostname"@,
            "date"@,
        ].contains(
                #[trigger] base_commands(command)[k],
            ),
{
    let names = seq![
        "ls"@,
        "pwd"@,
        "cat"@,
        "head"@,
        "tail"@,
        "less"@,
        "more"@,
        "find"@,
        "tree"@,
        "stat"@,
        "file"@,
        "grep"@,
        "egrep"@,
        "fgrep"@,
        "wc"@,
        "sort"@,
        "uniq"@,
        "diff"@,
        "echo"@,
        "which"@,
        "type"@,
        "whoami"@,
        "hostname"@,
        "date"@,
    ];
    assert forall|x: Seq<char>| classifier_whitelisted(x) <==> names.contains(x) by {
        if classifier_whitelisted(x) {
            if x == "ls"@ { assert(names[0] == x); }
            if x == "pwd"@ { assert(names[1] == x); }
            if x == "cat"@ { assert(names[2] == x); }
            if x == "head"@ { assert(names[3] == x); }
            if x == "tail"@ { assert(names[4] == x); }
            if x == "less"@ { assert(names[5] == x); }
            if x == "more"@ { assert(names[6] == x); }
            if x == "find"@ { assert(names[7] == x); }
            if x == "tree"@ { assert(names[8] == x); }
            if x == "stat"@ { assert(names[9] == x); }
            if x == "file"@ { assert(names[10] == x); }
            if x == "grep"@ { assert(names[11] == x); }
            if x == "egrep"@ { assert(names[12] == x); }
            if x == "fgrep"@ { assert(names[13] == x); }
            if x == "wc"@ { assert(names[14] == x); }
            if x == "sort"@ { assert(names[15] == x); }
            if x == "uniq"@ { assert(names[16] == x); }
            if x == "diff"@ { assert(names[17] == x); }
            if x == "echo"@ { assert(names[18] == x); }
            if x == "which"@ { assert(names[19] == x); }
            if x == "type"@ { assert(names[20] == x); }
            if x == "whoami"@ { assert(names[21] == x); }
            if x == "hostname"@ { assert(names[22] == x); }
            if x == "date"@ { assert(names[23] == x); }
        }
        if names.contains(x) {
            let i = choose|i: int| 0 <= i < names.len() && names[i] == x;
            if i == 0 { assert(x == "ls"@); }
            if i == 1 { assert(x == "pwd"@); }
            if i == 2 { assert(x == "cat"@); }
            if i == 3 { assert(x == "head"@); }
            if i == 4 { assert(x == "tail"@); }
            if i == 5 { assert(x == "less"@); }
            if i == 6 { assert(x == "more"@); }
            if i == 7 { assert(x == "find"@); }
            if i == 8 { assert(x == "tree"@); }
            if i == 9 { assert(x == "stat"@); }
            if i == 10 { assert(x == "file"@); }
            if i == 11 { assert(x == "grep"@); }
            if i == 12 { assert(x == "egrep"@); }
            if i == 13 { assert(x == "fgrep"@); }
            if i == 14 { assert(x == "wc"@); }
            if i == 15 { assert(x == "sort"@); }
            if i == 16 { assert(x == "uniq"@); }
            if i == 17 { assert(x == "diff"@); }
            if i == 18 { assert(x == "echo"@); }
            if i == 19 { assert(x == "which"@); }
            if i == 20 { assert(x == "type"@); }
            if i == 21 { assert(x == "whoami"@); }
            if i == 22 { assert(x == "hostname"@); }
            if i == 23 { assert(x == "date"@); }
        }
    }
    if !contains(command, "<<<"@) {
    } else {
        reveal_strlit("<<<");
        reveal_strlit("<<");
        let i = choose|i: int| crate::text::occurs_at(command, "<<<"@, i);
        assert(crate::text::occurs_at(command, "<<"@, i)) by {
            let w = command.subrange(i, i + 3);
            assert(w[0] == '<' && w[1] == '<');
            assert(command[i] == w[0] && command[i + 1] == w[1]);
            assert(command.subrange(i, i + 2) =~= "<<"@);
        }
    }
}

} // verus!
