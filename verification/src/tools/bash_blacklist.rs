//! The project's list of command patterns that are never run, and how a
//! command is matched against them.
use crate::text::{
    chars_of, contains, contains_chars, lowercase_of, owned, owned_all, to_lowercase, take_chars,
};
use crate::tools::file_ops::common::{PathPlan, PathPlanView};
use std::path::Path;
use vstd::prelude::*;

verus! {

/// The newest blacklist file version this build reads.
pub const CURRENT_VERSION: u32 = 1;

/// The patterns a new blacklist starts with.
pub open spec fn default_blacklist() -> Seq<Seq<char>> {
    seq![
        // File deletion
        "rm -rf*"@,
        "rm -fr*"@,
        "rm -r*"@,
        // Privilege escalation
        "sudo*"@,
        "su *"@,
        "doas*"@,
        // Disk operations
        "dd if=*"@,
        "dd of=*"@,
        "mkfs*"@,
        "fdisk*"@,
        "parted*"@,
        // Device access
        "/dev/sda*"@,
        "/dev/sdb*"@,
        "/dev/nvme*"@,
        "> /dev/sd*"@,
        "> /dev/nvme*"@,
        "of=/dev/*"@,
        // System control
        "shutdown*"@,
        "reboot*"@,
        "halt*"@,
        "poweroff*"@,
        "init 0*"@,
        "init 6*"@,
        // Piped execution (command injection)
        "*curl*|*sh*"@,
        "*wget*|*sh*"@,
        "*curl*|*bash*"@,
        "*wget*|*bash*"@,
    ]
}

/// Whether a lower-cased command matches a lower-cased pattern: a pattern
/// ending in `*` matches when the text before the `*` occurs in the command,
/// any other pattern when it occurs as it is.
pub open spec fn pattern_match(command: Seq<char>, pattern: Seq<char>) -> bool {
    if pattern.len() > 0 && pattern.last() == '*' {
        contains(command, pattern.drop_last())
    } else {
        contains(command, pattern)
    }
}

/// Whether a command matches a blacklist pattern, ignoring case.
pub open spec fn blacklisted(command: Seq<char>, pattern: Seq<char>) -> bool {
    pattern_match(lowercase_of(command), lowercase_of(pattern))
}

pub struct BlacklistFile {
    pub version: u32,
    pub patterns: Vec<String>,
}

impl BlacklistFile {
    pub fn new() -> (r: Self)
        ensures
            r.version == CURRENT_VERSION,
            r.patterns.deep_view() == default_blacklist(),
    {
        Self { version: CURRENT_VERSION, patterns: Self::default_patterns() }
    }

    /// Get the default dangerous command patterns
    fn default_patterns() -> (r: Vec<String>)
        ensures
            r.deep_view() == default_blacklist(),
    {
        let lits: Vec<&str> = vec![
            "rm -rf*",
            "rm -fr*",
            "rm -r*",
            "sudo*",
            "su *",
            "doas*",
            "dd if=*",
            "dd of=*",
            "mkfs*",
            "fdisk*",
            "parted*",
            "/dev/sda*",
            "/dev/sdb*",
            "/dev/nvme*",
            "> /dev/sd*",
            "> /dev/nvme*",
            "of=/dev/*",
            "shutdown*",
            "reboot*",
            "halt*",
            "poweroff*",
            "init 0*",
            "init 6*",
            "*curl*|*sh*",
            "*wget*|*sh*",
            "*curl*|*bash*",
            "*wget*|*bash*",
        ];
        assert(lits@.map_values(|s: &str| s@) =~= default_blacklist());
        owned_all(&lits)
    }

    /// Get the path to the blacklist file in the project's .hoosh directory:
    /// `bash_blacklist.json` under `.hoosh` under `project_root`.
    pub fn get_blacklist_path<'a>(project_root: &'a Path) -> (r: PathPlan<'a>)
        ensures
            r@ == PathPlanView::Under(project_root, seq![".hoosh"@, "bash_blacklist.json"@]),
    {
        let parts = vec![owned(".hoosh"), owned("bash_blacklist.json")];
        let r = PathPlan::Under(project_root, parts);
        assert(parts.deep_view() =~= seq![".hoosh"@, "bash_blacklist.json"@]);
        r
    }

    /// A blacklist read from disk, or its version when that is newer than
    /// this build reads.
    pub fn check_version(self) -> (r: Result<Self, u32>)
        ensures
            self.version > CURRENT_VERSION ==> r == Err::<Self, u32>(self.version),
            self.version <= CURRENT_VERSION ==> r == Ok::<Self, u32>(self),
    {
        if self.version > CURRENT_VERSION {
            Err(self.version)
        } else {
            Ok(self)
        }
    }
}

impl Default for BlacklistFile {
    fn default() -> (r: Self)
        ensures
            r.version == CURRENT_VERSION,
            r.patterns.deep_view() == default_blacklist(),
    {
        Self::new()
    }
}

/// Match a command against a pattern with wildcard support
/// Patterns support:
/// - Exact matches: "sudo" matches "sudo reboot"
/// - Wildcards: "rm -rf*" matches "rm -rf /tmp" and "rm -rf/"
/// - Case-insensitive matching
pub fn matches_pattern(command: &str, pattern: &str) -> (r: bool)
    ensures
        r == blacklisted(command@, pattern@),
{
    let command_lower = chars_of(to_lowercase(command).as_str());
    let pattern_lower = chars_of(to_lowercase(pattern).as_str());
    if pattern_lower.len() > 0 && pattern_lower[pattern_lower.len() - 1] == '*' {
        let prefix = take_chars(pattern_lower.as_slice(), pattern_lower.len() - 1);
        assert(prefix@ =~= pattern_lower@.drop_last());
        contains_chars(command_lower.as_slice(), prefix.as_slice())
    } else {
        contains_chars(command_lower.as_slice(), pattern_lower.as_slice())
    }
}

/// A new blacklist refuses what each of the default patterns refuses: the
/// list holds `rm -rf*`, `rm -fr*`, `rm -r*`, `sudo*`, `su *`, `doas*`,
/// `dd if=*`, `dd of=*`, `mkfs*`, `fdisk*`, `parted*`, the disk device
/// patterns, `shutdown*`, `reboot*`, `halt*`, `poweroff*`, `init 0*`,
/// `init 6*` and the four download-into-a-shell patterns, each as a member,
/// and nothing else.
pub proof fn law_default_blacklist_members(command: Seq<char>, pattern: Seq<char>)
    ensures
        default_blacklist().len() == 27,
        seq![
            "rm -rf*"@,
            "rm -fr*"@,
            "rm -r*"@,
            "sudo*"@,
            "su *"@,
            "doas*"@,
            "dd if=*"@,
            "dd of=*"@,
            "mkfs*"@,
            "fdisk*"@,
            "parted*"@,
            "/dev/sda*"@,
            "/dev/sdb*"@,
            "/dev/nvme*"@,
            "> /dev/sd*"@,
            "> /dev/nvme*"@,
            "of=/dev/*"@,
            "shutdown*"@,
            "reboot*"@,
            "halt*"@,
            "poweroff*"@,
            "init 0*"@,
            "init 6*"@,
            "*curl*|*sh*"@,
            "*wget*|*sh*"@,
            "*curl*|*bash*"@,
            "*wget*|*bash*"@,
        ].contains(pattern) ==> default_blacklist().contains(pattern),
        seq![
            "rm -rf*"@,
            "rm -fr*"@,
            "rm -r*"@,
            "sudo*"@,
            "su *"@,
            "doas*"@,
            "dd if=*"@,
            "dd of=*"@,
            "mkfs*"@,
            "fdisk*"@,
            "parted*"@,
            "/dev/sda*"@,
            "/dev/sdb*"@,
            "/dev/nvme*"@,
            "> /dev/sd*"@,
            "> /dev/nvme*"@,
            "of=/dev/*"@,
            "shutdown*"@,
            "reboot*"@,
            "halt*"@,
            "poweroff*"@,
            "init 0*"@,
            "init 6*"@,
            "*curl*|*sh*"@,
            "*wget*|*sh*"@,
            "*curl*|*bash*"@,
            "*wget*|*bash*"@,
        ].contains(pattern) && blacklisted(command, pattern) ==> exists|i: int|
            0 <= i < default_blacklist().len() && blacklisted(command, #[trigger] default_blacklist()[i]),
        default_blacklist().contains(pattern) ==> seq![
            "rm -rf*"@,
            "rm -fr*"@,
            "rm -r*"@,
            "sudo*"@,
            "su *"@,
            "doas*"@,
            "dd if=*"@,
            "dd of=*"@,
            "mkfs*"@,
            "fdisk*"@,
            "parted*"@,
            "/dev/sda*"@,
            "/dev/sdb*"@,
            "/dev/nvme*"@,
            "> /dev/sd*"@,
            "> /dev/nvme*"@,
            "of=/dev/*"@,
            "shutdown*"@,
            "reboot*"@,
            "halt*"@,
            "poweroff*"@,
            "init 0*"@,
            "init 6*"@,
            "*curl*|*sh*"@,
            "*wget*|*sh*"@,
            "*curl*|*bash*"@,
            "*wget*|*bash*"@,
        ].contains(pattern),
{
    let names = seq![
        "rm -rf*"@,
        "rm -fr*"@,
        "rm -r*"@,
        "sudo*"@,
        "su *"@,
        "doas*"@,
        "dd if=*"@,
        "dd of=*"@,
        "mkfs*"@,
        "fdisk*"@,
        "parted*"@,
        "/dev/sda*"@,
        "/dev/sdb*"@,
        "/dev/nvme*"@,
        "> /dev/sd*"@,
        "> /dev/nvme*"@,
        "of=/dev/*"@,
        "shutdown*"@,
        "reboot*"@,
        "halt*"@,
        "poweroff*"@,
        "init 0*"@,
        "init 6*"@,
        "*curl*|*sh*"@,
        "*wget*|*sh*"@,
        "*curl*|*bash*"@,
        "*wget*|*bash*"@,
    ];
    assert(names =~= default_blacklist());
    if names.contains(pattern) {
        let i = choose|i: int| 0 <= i < names.len() && names[i] == pattern;
        assert(default_blacklist()[i] == pattern);
    }
}

} // verus!
