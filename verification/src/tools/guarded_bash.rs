//! A bash tool that refuses, before running anything, commands that look
//! destructive, privileged or injected.
use crate::text::{
    chars_of, contains, extend_str, has_char, kept_in_command, lowercase_of, owned, sanitize_text, sanitized,
    slice_chars, str_contains, string_of, to_lowercase, trim, trim_chars,
};
use crate::tools::bash::output::{command_report, format_command_output};
use std::path::PathBuf;
use vstd::prelude::*;

verus! {

/// Fragments whose presence in the lower-cased command marks it dangerous.
pub open spec fn dangerous_patterns() -> Seq<Seq<char>> {
    seq![
        // File deletion
        "rm -rf"@,
        "rm -fr"@,
        "rm -r"@,
        "rmdir"@,
        // Privilege escalation
        "sudo"@,
        "su "@,
        "doas"@,
        // User management
        "passwd"@,
        "useradd"@,
        "userdel"@,
        "usermod"@,
        // Permission changes
        "chmod 777"@,
        "chmod -r"@,
        "chown"@,
        "chgrp"@,
        // Disk operations
        "dd if="@,
        "dd of="@,
        "mkfs"@,
        "fdisk"@,
        "parted"@,
        "gparted"@,
        "format"@,
        "del /f"@,
        "rmdir /s"@,
        // Device access
        "> /dev/sd"@,
        "< /dev/sd"@,
        "> /dev/nvme"@,
        "< /dev/nvme"@,
        "cat /dev/urandom >"@,
        "cat /dev/zero >"@,
        "cat /dev/random >"@,
        "/dev/sda"@,
        "/dev/sdb"@,
        "/dev/nvme"@,
        "of=/dev/"@,
        // System control
        "shutdown"@,
        "reboot"@,
        "halt"@,
        "poweroff"@,
        "init 0"@,
        "init 6"@,
        "systemctl"@,
        "service "@,
        "launchctl"@,
        // Process killing
        "kill -9"@,
        "killall"@,
        "pkill"@,
        // Fork bombs and loops
        ":(){ :|:& };:"@,
        "forkbomb"@,
        "while true"@,
        "while :; do"@,
        // Piped execution
        "curl | sh"@,
        "wget | sh"@,
        "curl | bash"@,
        "wget | bash"@,
        "curl|sh"@,
        "wget|sh"@,
        "curl|bash"@,
        "wget|bash"@,
        // Environment manipulation
        "export path="@,
        "export ld_preload"@,
        "unset path"@,
        // Cron and at jobs
        "crontab -"@,
        "crontab "@,
        " at "@,
        ";at "@,
        "|at "@,
        "&at "@,
        " batch"@,
        ";batch"@,
        "|batch"@,
        // Network tools
        "nc -"@,
        "netcat"@,
        "ncat"@,
        "telnet"@,
        // Archive creation
        "zip -r"@,
        "tar czf"@,
    ]
}

/// Whether `c` is one of the shell metacharacters `;`, `|`, `&`.
pub open spec fn is_metachar(c: char) -> bool {
    c == ';' || c == '|' || c == '&'
}

/// How many shell metacharacters `s` holds.
pub open spec fn metachar_count(s: Seq<char>) -> nat
    decreases s.len(),
{
    if s.len() == 0 {
        0
    } else if is_metachar(s.last()) {
        metachar_count(s.drop_last()) + 1
    } else {
        metachar_count(s.drop_last())
    }
}

/// Whether some dangerous fragment occurs in `lower`.
pub open spec fn has_dangerous_fragment(lower: Seq<char>) -> bool {
    exists|i: int|
        0 <= i < dangerous_patterns().len() && contains(lower, #[trigger] dangerous_patterns()[i])
}

/// Whether a command looks dangerous: a dangerous fragment in its lower-case
/// form, more than one shell metacharacter, or a command substitution.
pub open spec fn looks_dangerous(command: Seq<char>) -> bool {
    ||| has_dangerous_fragment(lowercase_of(command))
    ||| metachar_count(command) > 1
    ||| contains(command, "$("@)
    ||| command.contains('`')
}

/// `tokens` with the trimmed text `s[a..b]` added when it is not empty.
pub open spec fn push_token(tokens: Seq<Seq<char>>, s: Seq<char>, a: int, b: int) -> Seq<Seq<char>> {
    if b > a && trim(s.subrange(a, b)).len() > 0 {
        tokens.push(trim(s.subrange(a, b)))
    } else {
        tokens
    }
}

/// Whether `c` opens or closes a quoted section.
pub open spec fn is_quote(c: char) -> bool {
    c == '"' || c == '\''
}

/// The tokenizer's step on the character at `i`. A state holds the tokens
/// so far, where the current token starts, whether a quote is open, and
/// which quote character opened it.
pub open spec fn tokenize_step(
    s: Seq<char>,
    st: (Seq<Seq<char>>, int, bool, char),
    i: int,
) -> (Seq<Seq<char>>, int, bool, char) {
    let (tokens, start, in_quotes, quote) = st;
    let c = s[i];
    if is_quote(c) && !in_quotes {
        (push_token(tokens, s, start, i), i, true, c)
    } else if is_quote(c) && in_quotes && c == quote {
        (tokens, i + 1, false, quote)
    } else if (c == ' ' || c == '\t') && !in_quotes {
        (push_token(tokens, s, start, i), i + 1, in_quotes, quote)
    } else {
        st
    }
}

/// The tokenizer's state after the first `n` characters of `s`.
pub open spec fn tokenize_prefix(s: Seq<char>, n: nat) -> (Seq<Seq<char>>, int, bool, char)
    decreases n,
{
    if n == 0 {
        (Seq::empty(), 0, false, '\0')
    } else {
        tokenize_step(s, tokenize_prefix(s, (n - 1) as nat), n - 1)
    }
}

/// The tokens of a command: split at blanks outside quotes, with quoted
/// sections left out and an unclosed quote dropping the rest.
pub open spec fn command_tokens(s: Seq<char>) -> Seq<Seq<char>> {
    let (tokens, start, in_quotes, quote) = tokenize_prefix(s, s.len());
    if start < s.len() && !in_quotes {
        push_token(tokens, s, start, s.len() as int)
    } else {
        tokens
    }
}

/// The permission pattern for a command: `*` when it has no tokens, the
/// first two tokens and `*` when it has several, else the first and `*`.
pub open spec fn bash_pattern(command: Seq<char>) -> Seq<char> {
    let parts = command_tokens(command);
    if parts.len() == 0 {
        "*"@
    } else if parts.len() >= 2 {
        parts[0] + " "@ + parts[1] + "*"@
    } else {
        parts[0] + "*"@
    }
}

/// The message a refused command gets.
pub open spec fn rejection_message(command: Seq<char>) -> Seq<char> {
    "Command rejected for security reasons: '"@ + command
        + "'. Use --skip-permissions flag to bypass this check."@
}

/// Tool for executing bash commands safely
pub struct BashTool {
    working_directory: PathBuf,
    timeout_seconds: u64,
    allow_dangerous_commands: bool,
}

impl BashTool {
    /// The directory commands run in.
    pub closed spec fn directory(&self) -> PathBuf {
        self.working_directory
    }

    /// Seconds a command may run before it is stopped.
    pub closed spec fn timeout(&self) -> u64 {
        self.timeout_seconds
    }

    /// Whether the dangerous-command check is switched off.
    pub closed spec fn allows_dangerous(&self) -> bool {
        self.allow_dangerous_commands
    }

    pub fn with_working_directory(working_dir: PathBuf) -> (r: Self)
        ensures
            r.directory() == working_dir,
            r.timeout() == 30,
            !r.allows_dangerous(),
    {
        Self { working_directory: working_dir, timeout_seconds: 30, allow_dangerous_commands: false }
    }

    pub fn with_timeout(self, timeout_seconds: u64) -> (r: Self)
        ensures
            r.timeout() == timeout_seconds,
            r.directory() == self.directory(),
            r.allows_dangerous() == self.allows_dangerous(),
    {
        let mut s = self;
        s.timeout_seconds = timeout_seconds;
        s
    }

    pub fn allow_dangerous_commands(self, allow: bool) -> (r: Self)
        ensures
            r.allows_dangerous() == allow,
            r.directory() == self.directory(),
            r.timeout() == self.timeout(),
    {
        let mut s = self;
        s.allow_dangerous_commands = allow;
        s
    }

    /// The directory commands run in.
    pub fn working_directory(&self) -> (r: &PathBuf)
        ensures
            *r == self.directory(),
    {
        &self.working_directory
    }

    /// The timeout for one run: the override when given, else the tool's own.
    pub fn timeout_for(&self, timeout_override: Option<u64>) -> (r: u64)
        ensures
            r == match timeout_override {
                Some(t) => t,
                None => self.timeout(),
            },
    {
        match timeout_override {
            Some(t) => t,
            None => self.timeout_seconds,
        }
    }

    /// Check if a command contains potentially dangerous operations
    pub fn is_dangerous_command(&self, command: &str) -> (r: bool)
        ensures
            r == (!self.allows_dangerous() && looks_dangerous(command@)),
    {
        if self.allow_dangerous_commands {
            return false;
        }
        let command_lower = to_lowercase(command);
        if has_dangerous_fragment_exec(command_lower.as_str()) {
            return true;
        }
        let cs = chars_of(command);
        if metachar_count_exec(cs.as_slice()) > 1 {
            return true;
        }
        str_contains(command, "$(") || has_char(cs.as_slice(), '`')
    }

    /// Sanitize command to prevent some basic injection attempts
    /// Note: This is NOT sufficient for security - dangerous commands should be blocked entirely
    pub fn sanitize_command(&self, command: &str) -> (r: String)
        ensures
            r@ == sanitized(command@),
    {
        sanitize_text(command)
    }

    /// The command as it will run, or the refusal when it looks dangerous.
    pub fn check_command(&self, raw: &str) -> (r: Result<String, String>)
        ensures
            match r {
                Ok(c) => c@ == sanitized(raw@) && !(!self.allows_dangerous() && looks_dangerous(
                    sanitized(raw@),
                )),
                Err(m) => m@ == rejection_message(sanitized(raw@)) && !self.allows_dangerous()
                    && looks_dangerous(sanitized(raw@)),
            },
    {
        let command = self.sanitize_command(raw);
        if self.is_dangerous_command(command.as_str()) {
            let mut m = chars_of("Command rejected for security reasons: '");
            extend_str(&mut m, command.as_str());
            extend_str(&mut m, "'. Use --skip-permissions flag to bypass this check.");
            return Err(string_of(m.as_slice()));
        }
        Ok(command)
    }

    /// The report for a finished run of a command.
    pub fn report(&self, stdout: &str, stderr: &str, exit_code: Option<i32>, success: bool) -> (r:
        String)
        ensures
            r@ == command_report(stdout@, stderr@, exit_code, success),
    {
        format_command_output(stdout, stderr, exit_code, success)
    }

    /// Extract bash permission pattern from a command
    /// Smart pattern extraction:
    /// - If command has subcommand (non-flag): "cargo clippy*"
    /// - If command only has flags: "cargo --version*"
    /// - Single word command: "echo*"
    pub fn extract_bash_pattern(command: &str) -> (r: String)
        ensures
            r@ == bash_pattern(command@),
    {
        let parts = Self::tokenize_command(command);
        if parts.len() == 0 {
            return owned("*");
        }
        let ghost dv = parts.deep_view();
        let mut r = chars_of(parts[0].as_str());
        if parts.len() >= 2 {
            extend_str(&mut r, " ");
            extend_str(&mut r, parts[1].as_str());
        }
        extend_str(&mut r, "*");
        string_of(r.as_slice())
    }

    /// Simple tokenization that respects quotes
    /// Splits by whitespace but treats quoted strings as single tokens
    pub fn tokenize_command(command: &str) -> (r: Vec<String>)
        ensures
            r.deep_view() == command_tokens(command@),
    {
        let s = chars_of(command);
        let mut tokens: Vec<String> = Vec::new();
        let mut current_start: usize = 0;
        let mut in_quotes = false;
        let mut quote_char = '\0';
        let mut i: usize = 0;
        while i < s.len()
            invariant
                i <= s@.len(),
                s@ == command@,
                current_start <= i,
                (tokens.deep_view(), current_start as int, in_quotes, quote_char) == tokenize_prefix(
                    s@,
                    i as nat,
                ),
            decreases s@.len() - i,
        {
            let ch = s[i];
            if (ch == '"' || ch == '\'') && !in_quotes {
                push_trimmed(&mut tokens, s.as_slice(), current_start, i);
                in_quotes = true;
                quote_char = ch;
                current_start = i;
            } else if (ch == '"' || ch == '\'') && in_quotes && ch == quote_char {
                in_quotes = false;
                current_start = i + 1;
            } else if (ch == ' ' || ch == '\t') && !in_quotes {
                push_trimmed(&mut tokens, s.as_slice(), current_start, i);
                current_start = i + 1;
            }
            i += 1;
        }
        if current_start < s.len() && !in_quotes {
            push_trimmed(&mut tokens, s.as_slice(), current_start, s.len());
        }
        tokens
    }
}

/// Adds the trimmed text `s[a..b]` to `tokens` when it is not empty.
fn push_trimmed(tokens: &mut Vec<String>, s: &[char], a: usize, b: usize)
    requires
        a <= b <= s@.len(),
    ensures
        final(tokens).deep_view() == push_token(old(tokens).deep_view(), s@, a as int, b as int),
{
    if b > a {
        let piece = slice_chars(s, a, b);
        let t = trim_chars(piece.as_slice());
        if t.len() > 0 {
            let ghost before = tokens.deep_view();
            tokens.push(string_of(t.as_slice()));
            assert(tokens.deep_view() =~= before.push(trim(s@.subrange(a as int, b as int))));
        }
    }
}

/// The dangerous fragments, in the order they are checked.
fn dangerous_pattern_list() -> (r: Vec<&'static str>)
    ensures
        r@.len() == dangerous_patterns().len(),
        forall|i: int| 0 <= i < r@.len() ==> #[trigger] r@[i]@ == dangerous_patterns()[i],
{
    let r = vec![
        // File deletion
        "rm -rf",
        "rm -fr",
        "rm -r",
        "rmdir",
        // Privilege escalation
        "sudo",
        "su ",
        "doas",
        // User management
        "passwd",
        "useradd",
        "userdel",
        "usermod",
        // Permission changes
        "chmod 777",
        "chmod -r",
        "chown",
        "chgrp",
        // Disk operations
        "dd if=",
        "dd of=",
        "mkfs",
        "fdisk",
        "parted",
        "gparted",
        "format",
        "del /f",
        "rmdir /s",
        // Device access
        "> /dev/sd",
        "< /dev/sd",
        "> /dev/nvme",
        "< /dev/nvme",
        "cat /dev/urandom >",
        "cat /dev/zero >",
        "cat /dev/random >",
        "/dev/sda",
        "/dev/sdb",
        "/dev/nvme",
        "of=/dev/",
        // System control
        "shutdown",
        "reboot",
        "halt",
        "poweroff",
        "init 0",
        "init 6",
        "systemctl",
        "service ",
        "launchctl",
        // Process killing
        "kill -9",
        "killall",
        "pkill",
        // Fork bombs and loops
        ":(){ :|:& };:",
        "forkbomb",
        "while true",
        "while :; do",
        // Piped execution
        "curl | sh",
        "wget | sh",
        "curl | bash",
        "wget | bash",
        "curl|sh",
        "wget|sh",
        "curl|bash",
        "wget|bash",
        // Environment manipulation
        "export path=",
        "export ld_preload",
        "unset path",
        // Cron and at jobs
        "crontab -",
        "crontab ",
        " at ",
        ";at ",
        "|at ",
        "&at ",
        " batch",
        ";batch",
        "|batch",
        // Network tools
        "nc -",
        "netcat",
        "ncat",
        "telnet",
        // Archive creation
        "zip -r",
        "tar czf",
    ];
    assert(r@.map_values(|p: &str| p@) =~= dangerous_patterns());
    assert forall|i: int| 0 <= i < r@.len() implies #[trigger] r@[i]@ == dangerous_patterns()[i] by {
        assert(r@.map_values(|p: &str| p@)[i] == r@[i]@);
    }
    r
}

/// Whether some dangerous fragment occurs in `lower`.
fn has_dangerous_fragment_exec(lower: &str) -> (r: bool)
    ensures
        r == has_dangerous_fragment(lower@),
{
    let pats = dangerous_pattern_list();
    let mut i: usize = 0;
    while i < pats.len()
        invariant
            i <= pats@.len() == dangerous_patterns().len(),
            forall|j: int| 0 <= j < pats@.len() ==> #[trigger] pats@[j]@ == dangerous_patterns()[j],
            forall|j: int| 0 <= j < i ==> !contains(lower@, #[trigger] dangerous_patterns()[j]),
        decreases pats@.len() - i,
    {
        assert(pats@[i as int]@ == dangerous_patterns()[i as int]);
        if str_contains(lower, pats[i]) {
            return true;
        }
        i += 1;
    }
    false
}

/// How many shell metacharacters `s` holds.
fn metachar_count_exec(s: &[char]) -> (r: usize)
    ensures
        r == metachar_count(s@),
{
    let mut n: usize = 0;
    let mut i: usize = 0;
    while i < s.len()
        invariant
            i <= s@.len(),
            n == metachar_count(s@.take(i as int)),
            n <= i,
        decreases s@.len() - i,
    {
        assert(s@.take(i + 1).drop_last() =~= s@.take(i as int));
        let c = s[i];
        if c == ';' || c == '|' || c == '&' {
            n += 1;
        }
        i += 1;
    }
    assert(s@.take(s@.len() as int) =~= s@);
    n
}

// ---------------------------------------------------------------------------
// Laws
// ---------------------------------------------------------------------------
/// Every character sanitising keeps is one it is meant to keep.
pub proof fn law_sanitized_keeps_only_allowed(s: Seq<char>)
    ensures
        forall|i: int| 0 <= i < sanitized(s).len() ==> kept_in_command(#[trigger] sanitized(s)[i]),
    decreases s.len(),
{
    if s.len() > 0 {
        let init = s.drop_last();
        law_sanitized_keeps_only_allowed(init);
        if kept_in_command(s.last()) {
            assert forall|i: int| 0 <= i < sanitized(s).len() implies kept_in_command(
                #[trigger] sanitized(s)[i],
            ) by {
                if i < sanitized(init).len() {
                    assert(sanitized(s)[i] == sanitized(init)[i]);
                }
            }
        }
    }
}

/// A text made only of kept characters is left as it is.
proof fn lemma_sanitize_fixed(s: Seq<char>)
    requires
        forall|i: int| 0 <= i < s.len() ==> kept_in_command(#[trigger] s[i]),
    ensures
        sanitized(s) == s,
    decreases s.len(),
{
    if s.len() > 0 {
        lemma_sanitize_fixed(s.drop_last());
        assert(kept_in_command(s[s.len() - 1]));
        assert(s.drop_last().push(s.last()) =~= s);
    }
}

/// Sanitising twice is sanitising once.
pub proof fn law_sanitize_idempotent(s: Seq<char>)
    ensures
        sanitized(sanitized(s)) == sanitized(s),
{
    law_sanitized_keeps_only_allowed(s);
    lemma_sanitize_fixed(sanitized(s));
}

/// Pushing a token keeps every token trimmed and non-empty.
proof fn lemma_push_token_clean(tokens: Seq<Seq<char>>, s: Seq<char>, a: int, b: int)
    requires
        forall|k: int| 0 <= k < tokens.len() ==> #[trigger] tokens[k].len() > 0 && trim(tokens[k])
            == tokens[k],
    ensures
        forall|k: int|
            0 <= k < push_token(tokens, s, a, b).len() ==> #[trigger] push_token(tokens, s, a, b)[k].len()
                > 0 && trim(push_token(tokens, s, a, b)[k]) == push_token(tokens, s, a, b)[k],
{
    if b > a && trim(s.subrange(a, b)).len() > 0 {
        let t = trim(s.subrange(a, b));
        crate::text::lemma_trim_no_edge_ws(s.subrange(a, b));
        crate::text::lemma_trim_fixed(t);
        assert(push_token(tokens, s, a, b) == tokens.push(t));
    }
}

/// The tokenizer's state holds only trimmed, non-empty tokens.
proof fn lemma_prefix_tokens_clean(s: Seq<char>, n: nat)
    requires
        n <= s.len(),
    ensures
        forall|k: int|
            0 <= k < tokenize_prefix(s, n).0.len() ==> #[trigger] tokenize_prefix(s, n).0[k].len() > 0
                && trim(tokenize_prefix(s, n).0[k]) == tokenize_prefix(s, n).0[k],
    decreases n,
{
    if n > 0 {
        lemma_prefix_tokens_clean(s, (n - 1) as nat);
        let st = tokenize_prefix(s, (n - 1) as nat);
        lemma_push_token_clean(st.0, s, st.1, n - 1);
    }
}

/// Every token of a command is non-empty and has no whitespace at its ends.
pub proof fn law_tokens_trimmed(command: Seq<char>)
    ensures
        forall|k: int|
            0 <= k < command_tokens(command).len() ==> #[trigger] command_tokens(command)[k].len() > 0
                && trim(command_tokens(command)[k]) == command_tokens(command)[k],
{
    lemma_prefix_tokens_clean(command, command.len());
    let st = tokenize_prefix(command, command.len());
    lemma_push_token_clean(st.0, command, st.1, command.len() as int);
}

/// A permission pattern is never empty and always ends with the wildcard.
pub proof fn law_bash_pattern_ends_with_wildcard(command: Seq<char>)
    ensures
        bash_pattern(command).len() > 0,
        bash_pattern(command).last() == '*',
{
    reveal_strlit("*");
}

/// Every fragment of the refused list makes a command look dangerous when it
/// occurs in the command's lower-case form: file deletion (`rm -rf`, ...),
/// privilege escalation, user and permission changes, disk and device
/// access, system control, process killing (`kill -9`, `killall`, `pkill`),
/// fork bombs, piped downloads into a shell, environment and scheduler
/// changes, network tools and archive creation.
pub proof fn law_dangerous_fragments_refused(command: Seq<char>, fragment: Seq<char>)
    requires
        seq![
            "rm -rf"@,
            "rm -fr"@,
            "rm -r"@,
            "rmdir"@,
            "sudo"@,
            "su "@,
            "doas"@,
            "passwd"@,
            "useradd"@,
            "userdel"@,
            "usermod"@,
            "chmod 777"@,
            "chmod -r"@,
            "chown"@,
            "chgrp"@,
            "dd if="@,
            "dd of="@,
            "mkfs"@,
            "fdisk"@,
            "parted"@,
            "gparted"@,
            "format"@,
            "del /f"@,
            "rmdir /s"@,
            "> /dev/sd"@,
            "< /dev/sd"@,
            "> /dev/nvme"@,
            "< /dev/nvme"@,
            "cat /dev/urandom >"@,
            "cat /dev/zero >"@,
            "cat /dev/random >"@,
            "/dev/sda"@,
            "/dev/sdb"@,
            "/dev/nvme"@,
            "of=/dev/"@,
            "shutdown"@,
            "reboot"@,
            "halt"@,
            "poweroff"@,
            "init 0"@,
            "init 6"@,
            "systemctl"@,
            "service "@,
            "launchctl"@,
            "kill -9"@,
            "killall"@,
            "pkill"@,
            ":(){ :|:& };:"@,
            "forkbomb"@,
            "while true"@,
            "while :; do"@,
            "curl | sh"@,
            "wget | sh"@,
            "curl | bash"@,
            "wget | bash"@,
            "curl|sh"@,
            "wget|sh"@,
            "curl|bash"@,
            "wget|bash"@,
            "export path="@,
            "export ld_preload"@,
            "unset path"@,
            "crontab -"@,
            "crontab "@,
            " at "@,
            ";at "@,
            "|at "@,
            "&at "@,
            " batch"@,
            ";batch"@,
            "|batch"@,
            "nc -"@,
            "netcat"@,
            "ncat"@,
            "telnet"@,
            "zip -r"@,
            "tar czf"@,
        ].contains(fragment),
        contains(lowercase_of(command), fragment),
    ensures
        looks_dangerous(command),
{
    let names = seq![
        "rm -rf"@,
        "rm -fr"@,
        "rm -r"@,
        "rmdir"@,
        "sudo"@,
        "su "@,
        "doas"@,
        "passwd"@,
        "useradd"@,
        "userdel"@,
        "usermod"@,
        "chmod 777"@,
        "chmod -r"@,
        "chown"@,
        "chgrp"@,
        "dd if="@,
        "dd of="@,
        "mkfs"@,
        "fdisk"@,
        "parted"@,
        "gparted"@,
        "format"@,
        "del /f"@,
        "rmdir /s"@,
        "> /dev/sd"@,
        "< /dev/sd"@,
        "> /dev/nvme"@,
        "< /dev/nvme"@,
        "cat /dev/urandom >"@,
        "cat /dev/zero >"@,
        "cat /dev/random >"@,
        "/dev/sda"@,
        "/dev/sdb"@,
        "/dev/nvme"@,
        "of=/dev/"@,
        "shutdown"@,
        "reboot"@,
        "halt"@,
        "poweroff"@,
        "init 0"@,
        "init 6"@,
        "systemctl"@,
        "service "@,
        "launchctl"@,
        "kill -9"@,
        "killall"@,
        "pkill"@,
        ":(){ :|:& };:"@,
        "forkbomb"@,
        "while true"@,
        "while :; do"@,
        "curl | sh"@,
        "wget | sh"@,
        "curl | bash"@,
        "wget | bash"@,
        "curl|sh"@,
        "wget|sh"@,
        "curl|bash"@,
        "wget|bash"@,
        "export path="@,
        "export ld_preload"@,
        "unset path"@,
        "crontab -"@,
        "crontab "@,
        " at "@,
        ";at "@,
        "|at "@,
        "&at "@,
        " batch"@,
        ";batch"@,
        "|batch"@,
        "nc -"@,
        "netcat"@,
        "ncat"@,
        "telnet"@,
        "zip -r"@,
        "tar czf"@,
    ];
    assert(names =~= dangerous_patterns());
    let i = choose|i: int| 0 <= i < names.len() && names[i] == fragment;
    assert(contains(lowercase_of(command), dangerous_patterns()[i]));
}

} // verus!
