//! Listing a directory: which entries are shown, in what order, and the text
//! made of them.
use crate::text::{chars_of, contains, decimal, digit_char, decimal_u64, decimal_exec, extend, extend_str, owned, str_contains, string_of};
use crate::tools::bash::parser::{lex_lt, lex_lt_exec};
use crate::tools::permissions::ToolPermissionDescriptor;
use std::path::PathBuf;
use vstd::prelude::*;

verus! {

/// One entry of a directory, as read from disk.
pub struct DirectoryEntry {
    pub name: String,
    pub is_file: bool,
    pub is_dir: bool,
    pub size: Option<u64>,
}

/// The abstract content of a [`DirectoryEntry`].
pub struct EntryView {
    pub name: Seq<char>,
    pub is_file: bool,
    pub is_dir: bool,
    pub size: Option<u64>,
}

impl View for DirectoryEntry {
    type V = EntryView;

    open spec fn view(&self) -> EntryView {
        EntryView { name: self.name@, is_file: self.is_file, is_dir: self.is_dir, size: self.size }
    }
}

/// The views of a list of entries.
pub open spec fn entry_views(v: Seq<DirectoryEntry>) -> Seq<EntryView> {
    Seq::new(v.len(), |i: int| v[i]@)
}

/// Whether an entry is listed: hidden names (starting with `.`) only when
/// asked for.
pub open spec fn entry_shown(name: Seq<char>, show_hidden: bool) -> bool {
    show_hidden || !(name.len() > 0 && name[0] == '.')
}

/// Whether `y` is listed after `x`: directories before files, then by name.
pub open spec fn entry_after(y: EntryView, x: EntryView) -> bool {
    (!y.is_dir && x.is_dir) || (y.is_dir == x.is_dir && lex_lt(x.name, y.name))
}

/// `x` inserted into `s` before the first entry listed after it.
pub open spec fn insert_entry(s: Seq<EntryView>, x: EntryView) -> Seq<EntryView>
    decreases s.len(),
{
    if s.len() == 0 {
        seq![x]
    } else if entry_after(s[0], x) {
        seq![x] + s
    } else {
        seq![s[0]] + insert_entry(s.drop_first(), x)
    }
}

/// Stable sort: directories first, each group by name.
pub open spec fn sort_entries(s: Seq<EntryView>) -> Seq<EntryView>
    decreases s.len(),
{
    if s.len() == 0 {
        Seq::empty()
    } else {
        insert_entry(sort_entries(s.drop_last()), s.last())
    }
}

/// The line for a directory entry.
pub open spec fn dir_line(e: EntryView) -> Seq<char> {
    "  📁 "@ + e.name + "/\n"@
}

/// The line for a file entry, with its size when known.
pub open spec fn file_line(e: EntryView) -> Seq<char> {
    "  📄 "@ + e.name + match e.size {
        Some(n) => " ("@ + decimal(n as nat) + " bytes)"@,
        None => Seq::empty(),
    } + "\n"@
}

/// The directory lines of `s`, in order.
pub open spec fn dir_block(s: Seq<EntryView>) -> Seq<char>
    decreases s.len(),
{
    if s.len() == 0 {
        Seq::empty()
    } else if s.last().is_dir {
        dir_block(s.drop_last()) + dir_line(s.last())
    } else {
        dir_block(s.drop_last())
    }
}

/// The file lines of `s`, in order.
pub open spec fn file_block(s: Seq<EntryView>) -> Seq<char>
    decreases s.len(),
{
    if s.len() == 0 {
        Seq::empty()
    } else if !s.last().is_dir {
        file_block(s.drop_last()) + file_line(s.last())
    } else {
        file_block(s.drop_last())
    }
}

/// The listing of a directory shown as `dir`, with its (already filtered)
/// entries sorted.
pub open spec fn listing(dir: Seq<char>, entries: Seq<EntryView>) -> Seq<char> {
    let sorted = sort_entries(entries);
    let header = "Contents of "@ + dir + ":\n"@;
    if sorted.len() == 0 {
        header + "  (empty directory)\n"@
    } else {
        let dirs = dir_block(sorted);
        let files = file_block(sorted);
        header + (if dirs.len() > 0 {
            "\nDirectories:\n"@ + dirs
        } else {
            Seq::empty()
        }) + (if files.len() > 0 {
            "\nFiles:\n"@ + files
        } else {
            Seq::empty()
        })
    }
}

/// How many times `c` occurs in `s`.
pub open spec fn count_char(s: Seq<char>, c: char) -> nat
    decreases s.len(),
{
    if s.len() == 0 {
        0
    } else if s.last() == c {
        count_char(s.drop_last(), c) + 1
    } else {
        count_char(s.drop_last(), c)
    }
}

/// The one-line summary of a listing.
pub open spec fn listing_summary(result: Seq<char>) -> Seq<char> {
    let files = count_char(result, '📄');
    let dirs = count_char(result, '📁');
    if files > 0 || dirs > 0 {
        "Found "@ + decimal(files) + " files, "@ + decimal(dirs) + " directories"@
    } else if contains(result, "empty directory"@) {
        "Empty directory"@
    } else {
        "Listed directory contents"@
    }
}

/// How a listing call is shown.
pub open spec fn list_call_display(path: Seq<char>) -> Seq<char> {
    if path.len() == 0 || path == "."@ {
        "List(.)"@
    } else {
        "List("@ + path + ")"@
    }
}

/// The arguments of a listing call: the directory (empty for the working
/// directory) and whether names that start with a dot are listed.
pub struct ListDirectoryArgs {
    pub path: String,
    pub show_hidden: bool,
}

pub struct ListDirectoryTool {
    working_directory: PathBuf,
}

impl ListDirectoryTool {
    /// The directory relative paths are listed from.
    pub closed spec fn directory(&self) -> PathBuf {
        self.working_directory
    }

    pub fn with_working_directory(working_dir: PathBuf) -> (r: Self)
        ensures
            r.directory() == working_dir,
    {
        Self { working_directory: working_dir }
    }

    /// The directory relative paths are listed from.
    pub fn working_directory(&self) -> (r: &PathBuf)
        ensures
            *r == self.directory(),
    {
        &self.working_directory
    }

    pub fn tool_name(&self) -> (r: &'static str)
        ensures
            r@ == "list_directory"@,
    {
        "list_directory"
    }

    pub fn display_name(&self) -> (r: &'static str)
        ensures
            r@ == "list"@,
    {
        "list"
    }

    /// Whether an entry is listed (see [`entry_shown`]).
    pub fn shows_entry(name: &str, show_hidden: bool) -> (r: bool)
        ensures
            r == entry_shown(name@, show_hidden),
    {
        if show_hidden {
            return true;
        }
        let cs = chars_of(name);
        !(cs.len() > 0 && cs[0] == '.')
    }

    /// The listing of a directory shown as `dir_display` (see [`listing`]).
    pub fn format_listing(dir_display: &str, entries: Vec<DirectoryEntry>) -> (r: String)
        ensures
            r@ == listing(dir_display@, entry_views(entries@)),
    {
        let ghost ev = entry_views(entries@);
        let mut sorted: Vec<DirectoryEntry> = Vec::new();
        let mut entries = entries;
        let mut i: usize = 0;
        while i < entries.len()
            invariant
                i <= entries@.len(),
                ev == entry_views(entries@),
                entry_views(sorted@) == sort_entries(ev.take(i as int)),
            decreases entries@.len() - i,
        {
            let e = DirectoryEntry {
                name: owned(entries[i].name.as_str()),
                is_file: entries[i].is_file,
                is_dir: entries[i].is_dir,
                size: entries[i].size,
            };
            assert(ev.take(i + 1).drop_last() =~= ev.take(i as int));
            assert(ev.take(i + 1).last() == e@);
            insert_entry_exec(&mut sorted, e);
            i += 1;
        }
        assert(ev.take(i as int) =~= ev);
        let ghost sv = entry_views(sorted@);
        let mut r = chars_of("Contents of ");
        extend_str(&mut r, dir_display);
        extend_str(&mut r, ":\n");
        if sorted.len() == 0 {
            extend_str(&mut r, "  (empty directory)\n");
            return string_of(r.as_slice());
        }
        let mut dirs: Vec<char> = Vec::new();
        let mut files: Vec<char> = Vec::new();
        let mut j: usize = 0;
        while j < sorted.len()
            invariant
                j <= sorted@.len(),
                sv == entry_views(sorted@),
                dirs@ == dir_block(sv.take(j as int)),
                files@ == file_block(sv.take(j as int)),
            decreases sorted@.len() - j,
        {
            assert(sv.take(j + 1).drop_last() =~= sv.take(j as int));
            assert(sv.take(j + 1).last() == sorted@[j as int]@);
            let e = &sorted[j];
            if e.is_dir {
                extend_str(&mut dirs, "  📁 ");
                extend_str(&mut dirs, e.name.as_str());
                extend_str(&mut dirs, "/\n");
            } else {
                extend_str(&mut files, "  📄 ");
                extend_str(&mut files, e.name.as_str());
                match e.size {
                    Some(n) => {
                        extend_str(&mut files, " (");
                        extend(&mut files, decimal_u64(n).as_slice());
                        extend_str(&mut files, " bytes)");
                    },
                    None => {},
                }
                extend_str(&mut files, "\n");
            }
            j += 1;
        }
        assert(sv.take(j as int) =~= sv);
        let ghost head = r@;
        if dirs.len() > 0 {
            extend_str(&mut r, "\nDirectories:\n");
            extend(&mut r, dirs.as_slice());
        }
        let ghost mid = r@;
        if files.len() > 0 {
            extend_str(&mut r, "\nFiles:\n");
            extend(&mut r, files.as_slice());
        }
        proof {
            let e = Seq::<char>::empty();
            assert(head + e =~= head);
            assert(mid + e =~= mid);
            assert(head + ("\nDirectories:\n"@ + dirs@) =~= head + "\nDirectories:\n"@ + dirs@);
            assert(mid + ("\nFiles:\n"@ + files@) =~= mid + "\nFiles:\n"@ + files@);
        }
        string_of(r.as_slice())
    }

    /// How a listing call is shown (see [`list_call_display`]).
    pub fn call_display(path: &str) -> (r: String)
        ensures
            r@ == list_call_display(path@),
    {
        let cs = chars_of(path);
        let dot = chars_of(".");
        if cs.len() == 0 || crate::text::eq_chars(cs.as_slice(), dot.as_slice()) {
            return owned("List(.)");
        }
        let mut r = chars_of("List(");
        extend(&mut r, cs.as_slice());
        extend_str(&mut r, ")");
        string_of(r.as_slice())
    }

    /// How a listing call is shown, from its arguments: the path as
    /// [`ListDirectoryTool::call_display`] shows it, or `List(?)` when the
    /// arguments did not parse (`None`).
    pub fn format_call_display(&self, args: Option<&ListDirectoryArgs>) -> (r: String)
        ensures
            r@ == match args {
                Some(a) => list_call_display(a.path@),
                None => "List(?)"@,
            },
    {
        match args {
            Some(a) => Self::call_display(a.path.as_str()),
            None => owned("List(?)"),
        }
    }

    /// The one-line summary of a listing (see [`listing_summary`]).
    pub fn result_summary(&self, result: &str) -> (r: String)
        ensures
            r@ == listing_summary(result@),
    {
        let cs = chars_of(result);
        let files = count_char_exec(cs.as_slice(), '📄');
        let dirs = count_char_exec(cs.as_slice(), '📁');
        if files > 0 || dirs > 0 {
            let mut r = chars_of("Found ");
            extend(&mut r, decimal_exec(files).as_slice());
            extend_str(&mut r, " files, ");
            extend(&mut r, decimal_exec(dirs).as_slice());
            extend_str(&mut r, " directories");
            return string_of(r.as_slice());
        }
        if str_contains(result, "empty directory") {
            owned("Empty directory")
        } else {
            owned("Listed directory contents")
        }
    }

    /// The permission request for listing `target`: read-only.
    pub fn describe_permission(&self, target: Option<&str>) -> (r: ToolPermissionDescriptor)
        ensures
            r.kind@ == "list_directory"@,
            r.target@ == match target {
                Some(t) => t@,
                None => "*"@,
            },
            r.read_only,
            !r.destructive,
    {
        let t: &str = match target {
            Some(t) => t,
            None => "*",
        };
        ToolPermissionDescriptor {
            kind: owned("list_directory"),
            target: owned(t),
            read_only: true,
            destructive: false,
            approval_title: None,
            approval_prompt: None,
            persistent_message: None,
            suggested_pattern: None,
            command_preview: None,
        }
    }
}

/// How many times `c` occurs in `s`.
fn count_char_exec(s: &[char], c: char) -> (r: usize)
    ensures
        r == count_char(s@, c),
{
    let mut n: usize = 0;
    let mut i: usize = 0;
    while i < s.len()
        invariant
            i <= s@.len(),
            n == count_char(s@.take(i as int), c),
            n <= i,
        decreases s@.len() - i,
    {
        assert(s@.take(i + 1).drop_last() =~= s@.take(i as int));
        if s[i] == c {
            n += 1;
        }
        i += 1;
    }
    assert(s@.take(s@.len() as int) =~= s@);
    n
}

/// Whether `y` is listed after `x` (see [`entry_after`]).
fn entry_after_exec(y: &DirectoryEntry, x: &DirectoryEntry) -> (r: bool)
    ensures
        r == entry_after(y@, x@),
{
    if !y.is_dir && x.is_dir {
        return true;
    }
    if y.is_dir != x.is_dir {
        return false;
    }
    let xn = chars_of(x.name.as_str());
    let yn = chars_of(y.name.as_str());
    lex_lt_exec(xn.as_slice(), yn.as_slice())
}

/// Inserts `x` into `v` before the first entry listed after it.
fn insert_entry_exec(v: &mut Vec<DirectoryEntry>, x: DirectoryEntry)
    ensures
        entry_views(final(v)@) == insert_entry(entry_views(old(v)@), x@),
{
    let ghost orig = entry_views(v@);
    let ghost xv = x@;
    let mut pos: usize = 0;
    assert(orig.skip(0) =~= orig);
    assert(orig.take(0) + insert_entry(orig, xv) =~= insert_entry(orig, xv));
    while pos < v.len()
        invariant
            pos <= v@.len(),
            orig == entry_views(v@),
            orig == entry_views(old(v)@),
            xv == x@,
            insert_entry(orig, xv) == orig.take(pos as int) + insert_entry(orig.skip(pos as int), xv),
        decreases v@.len() - pos,
    {
        let ghost rest = orig.skip(pos as int);
        assert(rest[0] == v@[pos as int]@);
        if entry_after_exec(&v[pos], &x) {
            v.insert(pos, x);
            assert(entry_views(v@) =~= orig.take(pos as int) + (seq![xv] + rest));
            return;
        }
        assert(rest.drop_first() =~= orig.skip(pos + 1));
        assert(orig.take(pos as int) + (seq![rest[0]] + insert_entry(orig.skip(pos + 1), xv))
            =~= orig.take(pos + 1) + insert_entry(orig.skip(pos + 1), xv));
        pos += 1;
    }
    assert(orig.skip(pos as int) =~= Seq::<EntryView>::empty());
    v.push(x);
    assert(entry_views(v@) =~= orig.take(pos as int) + seq![xv]);
}

proof fn lemma_decimal_long(n: nat)
    requires
        n >= 10,
    ensures
        decimal(n).len() >= 2,
    decreases n,
{
    assert(decimal(n) == decimal(n / 10).push(digit_char(n % 10)));
    if n / 10 >= 10 {
        lemma_decimal_long(n / 10);
    } else {
        assert(decimal(n / 10).len() == 1);
    }
}

proof fn lemma_digit_char_injective(a: nat, b: nat)
    requires
        a < 10,
        b < 10,
        digit_char(a) == digit_char(b),
    ensures
        a == b,
{
    assert((a + 48) as u32 as char == (b + 48) as u32 as char);
    assert(((a + 48) as u32 as char) as u32 == (a + 48) as u32);
    assert(((b + 48) as u32 as char) as u32 == (b + 48) as u32);
}

/// Different numbers are written differently.
proof fn lemma_decimal_injective(n: nat, m: nat)
    requires
        decimal(n) == decimal(m),
    ensures
        n == m,
    decreases n,
{
    if n < 10 && m < 10 {
        assert(decimal(n)[0] == digit_char(n));
        assert(decimal(m)[0] == digit_char(m));
        lemma_digit_char_injective(n, m);
    } else if n < 10 {
        lemma_decimal_long(m);
    } else if m < 10 {
        lemma_decimal_long(n);
    } else {
        let dn = decimal(n / 10);
        let dm = decimal(m / 10);
        assert(decimal(n) == dn.push(digit_char(n % 10)));
        assert(decimal(m) == dm.push(digit_char(m % 10)));
        assert(decimal(n).last() == digit_char(n % 10));
        assert(dn =~= decimal(n).drop_last());
        assert(dm =~= decimal(m).drop_last());
        lemma_digit_char_injective(n % 10, m % 10);
        lemma_decimal_injective(n / 10, m / 10);
        assert(n == 10 * (n / 10) + n % 10);
        assert(m == 10 * (m / 10) + m % 10);
    }
}

proof fn lemma_one_file(e: EntryView)
    requires
        !e.is_dir,
    ensures
        sort_entries(seq![e]) == seq![e],
        dir_block(seq![e]) == Seq::<char>::empty(),
        file_block(seq![e]) == file_line(e),
{
    let one = seq![e];
    let none = Seq::<EntryView>::empty();
    assert(one.drop_last() =~= none);
    assert(one.last() == e);
    assert(sort_entries(none) == none);
    assert(insert_entry(none, e) == seq![e]);
    assert(dir_block(none) == Seq::<char>::empty());
    assert(file_block(none) == Seq::<char>::empty());
    assert(Seq::<char>::empty() + file_line(e) =~= file_line(e));
}

proof fn lemma_listing_one_file(dir: Seq<char>, e: EntryView)
    requires
        !e.is_dir,
    ensures
        listing(dir, seq![e]) == "Contents of "@ + dir + ":\n"@ + "\nFiles:\n"@ + file_line(e),
{
    lemma_one_file(e);
    reveal_strlit("  📄 ");
    assert(file_line(e).len() > 0);
    assert(("Contents of "@ + dir + ":\n"@) + Seq::<char>::empty() + ("\nFiles:\n"@ + file_line(e))
        =~= "Contents of "@ + dir + ":\n"@ + "\nFiles:\n"@ + file_line(e));
}

proof fn lemma_sized_file_line(name: Seq<char>, n: u64)
    ensures
        file_line(EntryView { name, is_file: true, is_dir: false, size: Some(n) }) == "  📄 "@ + name
            + " ("@ + decimal(n as nat) + " bytes)\n"@,
{
    reveal_strlit(" bytes)");
    reveal_strlit("\n");
    reveal_strlit(" bytes)\n");
    assert("  📄 "@ + name + (" ("@ + decimal(n as nat) + " bytes)"@) + "\n"@ =~= "  📄 "@ + name + " ("@
        + decimal(n as nat) + " bytes)\n"@);
}

/// A listing of one file shows its size in full: exactly the header, the
/// files heading and the line `📄 name (N bytes)` with the decimal digits
/// of the size; so two such listings that read the same have the same
/// size.
pub proof fn law_listing_shows_file_size(dir: Seq<char>, name: Seq<char>, n: u64, m: u64)
    ensures
        listing(dir, seq![EntryView { name, is_file: true, is_dir: false, size: Some(n) }])
            == "Contents of "@ + dir + ":\n"@ + "\nFiles:\n"@ + "  📄 "@ + name + " ("@ + decimal(
            n as nat,
        ) + " bytes)\n"@,
        listing(dir, seq![EntryView { name, is_file: true, is_dir: false, size: Some(n) }]) == listing(
            dir,
            seq![EntryView { name, is_file: true, is_dir: false, size: Some(m) }],
        ) ==> n == m,
{
    let e = EntryView { name, is_file: true, is_dir: false, size: Some(n) };
    let f = EntryView { name, is_file: true, is_dir: false, size: Some(m) };
    lemma_listing_one_file(dir, e);
    lemma_listing_one_file(dir, f);
    lemma_sized_file_line(name, n);
    lemma_sized_file_line(name, m);
    let head = "Contents of "@ + dir + ":\n"@ + "\nFiles:\n"@ + "  📄 "@ + name + " ("@;
    let a = head + decimal(n as nat) + " bytes)\n"@;
    let b = head + decimal(m as nat) + " bytes)\n"@;
    assert(listing(dir, seq![e]) =~= a);
    assert(listing(dir, seq![f]) =~= b);
    if a == b {
        reveal_strlit(" bytes)\n");
        assert(decimal(n as nat) =~= a.subrange(head.len() as int, a.len() - 8));
        assert(decimal(m as nat) =~= b.subrange(head.len() as int, b.len() - 8));
        lemma_decimal_injective(n as nat, m as nat);
    }
}
} // verus!
