//! Character-level helpers shared by the command analysers.
//!
//! Strings are reasoned about through their views (`Seq<char>`). The spec
//! functions here say what each helper computes; the exec functions are the
//! loops that compute it.
use vstd::prelude::*;

verus! {

// ---------------------------------------------------------------------------
// Specifications
// ---------------------------------------------------------------------------
/// Unicode `White_Space` property, the set `char::is_whitespace` tests.
pub open spec fn is_ws(c: char) -> bool {
    let u = c as u32;
    ||| 0x9 <= u <= 0xd
    ||| u == 0x20
    ||| u == 0x85
    ||| u == 0xa0
    ||| u == 0x1680
    ||| 0x2000 <= u <= 0x200a
    ||| u == 0x2028
    ||| u == 0x2029
    ||| u == 0x202f
    ||| u == 0x205f
    ||| u == 0x3000
}

/// Unicode general category `Cc`, the set `char::is_control` tests.
pub open spec fn is_ctrl(c: char) -> bool {
    let u = c as u32;
    u <= 0x1f || (0x7f <= u <= 0x9f)
}

/// `s` with leading whitespace removed.
pub open spec fn trim_start(s: Seq<char>) -> Seq<char>
    decreases s.len(),
{
    if s.len() > 0 && is_ws(s[0]) {
        trim_start(s.drop_first())
    } else {
        s
    }
}

/// `s` with trailing whitespace removed.
pub open spec fn trim_end(s: Seq<char>) -> Seq<char>
    decreases s.len(),
{
    if s.len() > 0 && is_ws(s.last()) {
        trim_end(s.drop_last())
    } else {
        s
    }
}

/// `s` with whitespace removed at both ends (`str::trim`).
pub open spec fn trim(s: Seq<char>) -> Seq<char> {
    trim_end(trim_start(s))
}

/// `sub` occurs in `s` starting at index `i`.
pub open spec fn occurs_at(s: Seq<char>, sub: Seq<char>, i: int) -> bool {
    &&& 0 <= i
    &&& i + sub.len() <= s.len()
    &&& s.subrange(i, i + sub.len()) == sub
}

/// `sub` occurs somewhere in `s` (`str::contains`).
pub open spec fn contains(s: Seq<char>, sub: Seq<char>) -> bool {
    exists|i: int| occurs_at(s, sub, i)
}

/// `s` begins with `p`.
pub open spec fn starts_with(s: Seq<char>, p: Seq<char>) -> bool {
    p.len() <= s.len() && s.take(p.len() as int) == p
}

/// `s` ends with `p`.
pub open spec fn ends_with(s: Seq<char>, p: Seq<char>) -> bool {
    p.len() <= s.len() && s.skip(s.len() - p.len()) == p
}

/// ASCII lower-casing of one character.
pub open spec fn ascii_lower(c: char) -> char {
    if 'A' <= c <= 'Z' {
        ((c as u32) + 32) as char
    } else {
        c
    }
}

/// Equality ignoring ASCII case (`str::eq_ignore_ascii_case`).
pub open spec fn eq_ignore_ascii_case(a: Seq<char>, b: Seq<char>) -> bool {
    a.len() == b.len() && forall|i: int| 0 <= i < a.len() ==> ascii_lower(#[trigger] a[i])
        == ascii_lower(b[i])
}

/// The first line of `s`, as `s.lines().next().unwrap_or("")` gives it: the
/// text before the first `\n`, without a `\r` that ends it; the whole of `s`
/// when there is no `\n`.
pub open spec fn first_line(s: Seq<char>) -> Seq<char> {
    if s.contains('\n') {
        let k = choose|k: int|
            0 <= k < s.len() && s[k] == '\n' && forall|j: int| 0 <= j < k ==> s[j] != '\n';
        let l = s.take(k);
        if l.len() > 0 && l.last() == '\r' {
            l.drop_last()
        } else {
            l
        }
    } else {
        s
    }
}

/// The decimal digit character for `d < 10`.
pub open spec fn digit_char(d: nat) -> char {
    ((d + 48) as u32) as char
}

/// The decimal representation of `n`, as `Display` writes it.
pub open spec fn decimal(n: nat) -> Seq<char>
    decreases n,
{
    if n < 10 {
        seq![digit_char(n)]
    } else {
        decimal(n / 10).push(digit_char(n % 10))
    }
}

/// `parts` joined with `sep` between neighbours (`[String]::join`).
pub open spec fn join(parts: Seq<Seq<char>>, sep: Seq<char>) -> Seq<char>
    decreases parts.len(),
{
    if parts.len() == 0 {
        Seq::empty()
    } else if parts.len() == 1 {
        parts[0]
    } else {
        join(parts.drop_last(), sep) + sep + parts.last()
    }
}

// ---------------------------------------------------------------------------
// Lemmas
// ---------------------------------------------------------------------------
/// Trimming never leaves whitespace at either end.
pub proof fn lemma_trim_no_edge_ws(s: Seq<char>)
    ensures
        trim(s).len() > 0 ==> !is_ws(trim(s)[0]) && !is_ws(trim(s).last()),
        trim(s).len() <= s.len(),
{
    lemma_trim_start_props(s);
    lemma_trim_end_props(trim_start(s));
}

pub proof fn lemma_trim_start_props(s: Seq<char>)
    ensures
        trim_start(s).len() <= s.len(),
        trim_start(s).len() > 0 ==> !is_ws(trim_start(s)[0]),
        trim_start(s) == s.skip(s.len() - trim_start(s).len()),
    decreases s.len(),
{
    if s.len() > 0 && is_ws(s[0]) {
        lemma_trim_start_props(s.drop_first());
        assert(s.drop_first().skip(s.drop_first().len() - trim_start(s.drop_first()).len())
            =~= s.skip(s.len() - trim_start(s).len()));
    } else {
        assert(s.skip(0) =~= s);
    }
}

pub proof fn lemma_trim_end_props(s: Seq<char>)
    ensures
        trim_end(s).len() <= s.len(),
        trim_end(s).len() > 0 ==> !is_ws(trim_end(s).last()),
        trim_end(s) == s.take(trim_end(s).len() as int),
        trim_end(s).len() > 0 && s.len() > 0 && !is_ws(s[0]) ==> !is_ws(trim_end(s)[0]),
    decreases s.len(),
{
    if s.len() > 0 && is_ws(s.last()) {
        lemma_trim_end_props(s.drop_last());
        assert(s.drop_last().take(trim_end(s.drop_last()).len() as int) =~= s.take(
            trim_end(s).len() as int,
        ));
    } else {
        assert(s.take(s.len() as int) =~= s);
    }
}

/// A sequence with no whitespace at either end is its own trim.
pub proof fn lemma_trim_fixed(s: Seq<char>)
    requires
        s.len() > 0 ==> !is_ws(s[0]) && !is_ws(s.last()),
    ensures
        trim(s) == s,
{
}

// ---------------------------------------------------------------------------
// Executable helpers
// ---------------------------------------------------------------------------
/// The characters of a string slice, in order.
pub fn chars_of(s: &str) -> (r: Vec<char>)
    ensures
        r@ == s@,
{
    let mut r: Vec<char> = Vec::new();
    for c in it: s.chars()
        invariant
            r@ == it.seq().take(it.index() as int),
            it.seq() == s@,
    {
        r.push(c);
    }
    r
}

/// Appends one character to a string (`String::push`).
#[verifier::external_body]
fn push_char(s: &mut String, c: char)
    ensures
        final(s)@ == old(s)@.push(c),
{
    s.push(c);
}

/// A string holding exactly the given characters.
pub fn string_of(v: &[char]) -> (r: String)
    ensures
        r@ == v@,
{
    let mut r = String::new();
    let mut i: usize = 0;
    while i < v.len()
        invariant
            i <= v@.len(),
            r@ == v@.take(i as int),
        decreases v@.len() - i,
    {
        push_char(&mut r, v[i]);
        assert(v@.take(i as int).push(v@[i as int]) == v@.take(i + 1));
        i += 1;
    }
    assert(v@.take(v@.len() as int) == v@);
    r
}

/// An owned copy of a string slice.
pub fn owned(s: &str) -> (r: String)
    ensures
        r@ == s@,
{
    let v = chars_of(s);
    string_of(v.as_slice())
}

/// Concatenation of two character sequences.
pub fn concat(a: &[char], b: &[char]) -> (r: Vec<char>)
    ensures
        r@ == a@ + b@,
{
    let mut r: Vec<char> = Vec::new();
    let mut i: usize = 0;
    while i < a.len()
        invariant
            i <= a@.len(),
            r@ == a@.take(i as int),
        decreases a@.len() - i,
    {
        r.push(a[i]);
        assert(a@.take(i as int).push(a@[i as int]) == a@.take(i + 1));
        i += 1;
    }
    assert(a@.take(a@.len() as int) == a@);
    let mut j: usize = 0;
    while j < b.len()
        invariant
            j <= b@.len(),
            r@ == a@ + b@.take(j as int),
        decreases b@.len() - j,
    {
        r.push(b[j]);
        assert(b@.take(j as int).push(b@[j as int]) == b@.take(j + 1));
        assert((a@ + b@.take(j as int)).push(b@[j as int]) == a@ + b@.take(j + 1));
        j += 1;
    }
    assert(b@.take(b@.len() as int) == b@);
    r
}

/// Appends the characters of `b` to `r`.
pub fn extend(r: &mut Vec<char>, b: &[char])
    ensures
        final(r)@ == old(r)@ + b@,
{
    let mut j: usize = 0;
    while j < b.len()
        invariant
            j <= b@.len(),
            r@ == old(r)@ + b@.take(j as int),
        decreases b@.len() - j,
    {
        r.push(b[j]);
        assert(b@.take(j as int).push(b@[j as int]) == b@.take(j + 1));
        assert((old(r)@ + b@.take(j as int)).push(b@[j as int]) == old(r)@ + b@.take(j + 1));
        j += 1;
    }
    assert(b@.take(b@.len() as int) == b@);
}

/// Appends the characters of a string slice to `r`.
pub fn extend_str(r: &mut Vec<char>, b: &str)
    ensures
        final(r)@ == old(r)@ + b@,
{
    let v = chars_of(b);
    extend(r, v.as_slice());
}

/// Whether `c` is whitespace (`char::is_whitespace`).
pub fn char_is_ws(c: char) -> (r: bool)
    ensures
        r == is_ws(c),
{
    let u = c as u32;
    (0x9 <= u && u <= 0xd) || u == 0x20 || u == 0x85 || u == 0xa0 || u == 0x1680 || (0x2000 <= u
        && u <= 0x200a) || u == 0x2028 || u == 0x2029 || u == 0x202f || u == 0x205f || u == 0x3000
}

/// Whether `c` is a control character (`char::is_control`).
pub fn char_is_ctrl(c: char) -> (r: bool)
    ensures
        r == is_ctrl(c),
{
    let u = c as u32;
    u <= 0x1f || (0x7f <= u && u <= 0x9f)
}

/// `v` with whitespace removed at both ends.
pub fn trim_chars(v: &[char]) -> (r: Vec<char>)
    ensures
        r@ == trim(v@),
{
    let n = v.len();
    let mut lo: usize = 0;
    assert(v@.skip(0) =~= v@);
    while lo < n && char_is_ws(v[lo])
        invariant
            lo <= n == v@.len(),
            trim_start(v@) == trim_start(v@.skip(lo as int)),
        decreases n - lo,
    {
        assert(v@.skip(lo as int).drop_first() =~= v@.skip(lo + 1));
        lo += 1;
    }
    let ghost ts = v@.skip(lo as int);
    assert(trim_start(ts) == ts);
    let mut hi: usize = n;
    while hi > lo && char_is_ws(v[hi - 1])
        invariant
            lo <= hi <= n == v@.len(),
            trim_end(ts) == trim_end(v@.subrange(lo as int, hi as int)),
        decreases hi - lo,
    {
        assert(v@.subrange(lo as int, hi as int).drop_last() =~= v@.subrange(
            lo as int,
            hi - 1,
        ));
        hi -= 1;
    }
    let ghost core = v@.subrange(lo as int, hi as int);
    assert(trim_end(core) == core);
    let mut r: Vec<char> = Vec::new();
    let mut i = lo;
    while i < hi
        invariant
            lo <= i <= hi <= n == v@.len(),
            r@ == v@.subrange(lo as int, i as int),
        decreases hi - i,
    {
        r.push(v[i]);
        assert(v@.subrange(lo as int, i as int).push(v@[i as int]) =~= v@.subrange(
            lo as int,
            i + 1,
        ));
        i += 1;
    }
    r
}

/// `a` and `b` hold the same characters.
pub fn eq_chars(a: &[char], b: &[char]) -> (r: bool)
    ensures
        r == (a@ == b@),
{
    if a.len() != b.len() {
        return false;
    }
    let mut i: usize = 0;
    while i < a.len()
        invariant
            i <= a@.len() == b@.len(),
            a@.take(i as int) == b@.take(i as int),
        decreases a@.len() - i,
    {
        if a[i] != b[i] {
            assert(a@[i as int] != b@[i as int]);
            return false;
        }
        assert(a@.take(i + 1) =~= a@.take(i as int).push(a@[i as int]));
        assert(b@.take(i + 1) =~= b@.take(i as int).push(b@[i as int]));
        i += 1;
    }
    assert(a@ =~= a@.take(a@.len() as int));
    assert(b@ =~= b@.take(b@.len() as int));
    true
}

/// Whether `sub` occurs in `s` at index `i`.
pub fn occurs_at_exec(s: &[char], sub: &[char], i: usize) -> (r: bool)
    ensures
        r == occurs_at(s@, sub@, i as int),
{
    if sub.len() > s.len() || i > s.len() - sub.len() {
        return false;
    }
    let mut k: usize = 0;
    while k < sub.len()
        invariant
            i + sub@.len() <= s.len(),
            k <= sub@.len(),
            forall|j: int| 0 <= j < k ==> s@[i + j] == sub@[j],
        decreases sub@.len() - k,
    {
        assert(i + k < s@.len());
        if s[i + k] != sub[k] {
            assert(s@.subrange(i as int, i + sub@.len())[k as int] != sub@[k as int]);
            return false;
        }
        k += 1;
    }
    assert(s@.subrange(i as int, i + sub@.len()) =~= sub@);
    true
}

/// Whether `sub` occurs anywhere in `s`.
pub fn contains_chars(s: &[char], sub: &[char]) -> (r: bool)
    ensures
        r == contains(s@, sub@),
{
    if sub.len() > s.len() {
        return false;
    }
    if sub.len() == 0 {
        assert(s@.subrange(0, 0) =~= sub@);
        assert(occurs_at(s@, sub@, 0));
        return true;
    }
    let last = s.len() - sub.len();
    let mut i: usize = 0;
    while i <= last
        invariant
            last + sub@.len() == s.len(),
            sub@.len() >= 1,
            forall|j: int| 0 <= j < i ==> !occurs_at(s@, sub@, j),
        decreases last + 1 - i,
    {
        if occurs_at_exec(s, sub, i) {
            return true;
        }
        i += 1;
    }
    assert forall|j: int| !occurs_at(s@, sub@, j) by {
        if 0 <= j <= last {
        }
    }
    false
}

/// Whether a string slice contains another.
pub fn str_contains(s: &str, sub: &str) -> (r: bool)
    ensures
        r == contains(s@, sub@),
{
    let a = chars_of(s);
    let b = chars_of(sub);
    contains_chars(a.as_slice(), b.as_slice())
}

/// Whether a character sequence contains a given character.
pub fn has_char(s: &[char], c: char) -> (r: bool)
    ensures
        r == s@.contains(c),
{
    let mut i: usize = 0;
    while i < s.len()
        invariant
            i <= s@.len(),
            forall|j: int| 0 <= j < i ==> s@[j] != c,
        decreases s@.len() - i,
    {
        if s[i] == c {
            assert(s@[i as int] == c);
            return true;
        }
        i += 1;
    }
    false
}

/// Whether `s` begins with `p`.
pub fn starts_with_chars(s: &[char], p: &[char]) -> (r: bool)
    ensures
        r == starts_with(s@, p@),
{
    if p.len() > s.len() {
        return false;
    }
    let r = occurs_at_exec(s, p, 0);
    assert(s@.subrange(0, p@.len() as int) =~= s@.take(p@.len() as int));
    r
}

/// Whether `s` ends with `p`.
pub fn ends_with_chars(s: &[char], p: &[char]) -> (r: bool)
    ensures
        r == ends_with(s@, p@),
{
    if p.len() > s.len() {
        return false;
    }
    let r = occurs_at_exec(s, p, s.len() - p.len());
    assert(s@.subrange(s@.len() - p@.len(), s@.len() as int) =~= s@.skip(s@.len() - p@.len()));
    r
}

/// The first `n` characters of `s`.
pub fn take_chars(s: &[char], n: usize) -> (r: Vec<char>)
    requires
        n <= s@.len(),
    ensures
        r@ == s@.take(n as int),
{
    let mut r: Vec<char> = Vec::new();
    let mut i: usize = 0;
    while i < n
        invariant
            i <= n <= s@.len(),
            r@ == s@.take(i as int),
        decreases n - i,
    {
        r.push(s[i]);
        assert(s@.take(i as int).push(s@[i as int]) =~= s@.take(i + 1));
        i += 1;
    }
    r
}

/// The characters of `s` from index `n` on.
pub fn skip_chars(s: &[char], n: usize) -> (r: Vec<char>)
    requires
        n <= s@.len(),
    ensures
        r@ == s@.skip(n as int),
{
    let mut r: Vec<char> = Vec::new();
    let mut i: usize = n;
    while i < s.len()
        invariant
            n <= i <= s@.len(),
            r@ == s@.subrange(n as int, i as int),
        decreases s@.len() - i,
    {
        r.push(s[i]);
        assert(s@.subrange(n as int, i as int).push(s@[i as int]) =~= s@.subrange(
            n as int,
            i + 1,
        ));
        i += 1;
    }
    assert(s@.subrange(n as int, s@.len() as int) =~= s@.skip(n as int));
    r
}

/// ASCII lower-casing of one character.
pub fn ascii_lower_exec(c: char) -> (r: char)
    ensures
        r == ascii_lower(c),
{
    if 'A' <= c && c <= 'Z' {
        let u = (c as u32) + 32;
        assert(0x61 <= u <= 0x7a);
        // The result is an ASCII letter, so the conversion cannot fail.
        char_from_ascii(u as u8)
    } else {
        c
    }
}

/// The character with the given ASCII code.
pub fn char_from_ascii(b: u8) -> (r: char)
    requires
        b < 128,
    ensures
        r == (b as u32) as char,
        r as u32 == b as u32,
{
    b as char
}

/// Equality ignoring ASCII case.
pub fn eq_ignore_ascii_case_exec(a: &[char], b: &[char]) -> (r: bool)
    ensures
        r == eq_ignore_ascii_case(a@, b@),
{
    if a.len() != b.len() {
        return false;
    }
    let mut i: usize = 0;
    while i < a.len()
        invariant
            i <= a@.len() == b@.len(),
            forall|j: int| 0 <= j < i ==> ascii_lower(a@[j]) == ascii_lower(b@[j]),
        decreases a@.len() - i,
    {
        if ascii_lower_exec(a[i]) != ascii_lower_exec(b[i]) {
            return false;
        }
        i += 1;
    }
    true
}

/// The first line of `s` (see [`first_line`]).
pub fn first_line_exec(s: &[char]) -> (r: Vec<char>)
    ensures
        r@ == first_line(s@),
{
    let mut k: usize = 0;
    while k < s.len() && s[k] != '\n'
        invariant
            k <= s@.len(),
            forall|j: int| 0 <= j < k ==> s@[j] != '\n',
        decreases s@.len() - k,
    {
        k += 1;
    }
    if k == s.len() {
        assert(!s@.contains('\n'));
        return take_chars(s, k);
    }
    assert(s@.contains('\n')) by {
        assert(s@[k as int] == '\n');
    }
    proof {
        let idx = choose|k: int|
            0 <= k < s@.len() && s@[k] == '\n' && forall|j: int| 0 <= j < k ==> s@[j] != '\n';
        assert(0 <= k < s@.len() && s@[k as int] == '\n' && forall|j: int|
            0 <= j < k ==> s@[j] != '\n');
        if idx < k {
            assert(s@[idx] != '\n');
        }
        if idx > k {
            assert(s@[k as int] != '\n');
        }
        assert(idx == k as int);
    }
    if k > 0 && s[k - 1] == '\r' {
        let r = take_chars(s, k - 1);
        assert(r@ =~= s@.take(k as int).drop_last());
        r
    } else {
        take_chars(s, k)
    }
}

/// The decimal digits of `n`.
pub fn decimal_exec(n: usize) -> (r: Vec<char>)
    ensures
        r@ == decimal(n as nat),
    decreases n,
{
    if n < 10 {
        let c = char_from_ascii((n + 48) as u8);
        let mut r: Vec<char> = Vec::new();
        r.push(c);
        r
    } else {
        let mut r = decimal_exec(n / 10);
        let c = char_from_ascii(((n % 10) + 48) as u8);
        r.push(c);
        r
    }
}

/// The character view of each vector in a sequence of character vectors.
pub open spec fn views(v: Seq<Vec<char>>) -> Seq<Seq<char>> {
    Seq::new(v.len(), |i: int| v[i]@)
}

/// `parts` joined with `sep` between neighbours.
pub fn join_chars(parts: &Vec<Vec<char>>, sep: &[char]) -> (r: Vec<char>)
    ensures
        r@ == join(views(parts@), sep@),
{
    let ghost dv = views(parts@);
    let mut r: Vec<char> = Vec::new();
    let mut i: usize = 0;
    while i < parts.len()
        invariant
            i <= parts@.len(),
            dv == views(parts@),
            r@ == join(dv.take(i as int), sep@),
        decreases parts@.len() - i,
    {
        assert(dv.take(i + 1).drop_last() =~= dv.take(i as int));
        assert(dv.take(i + 1).last() == parts@[i as int]@);
        if i > 0 {
            extend(&mut r, sep);
        }
        extend(&mut r, parts[i].as_slice());
        i += 1;
    }
    assert(dv.take(parts@.len() as int) =~= dv);
    r
}


// ---------------------------------------------------------------------------
// Lines, signed numbers, case mapping
// ---------------------------------------------------------------------------
/// Index of the first `\n` in `s` (meaningful when `s` contains one).
pub open spec fn first_newline(s: Seq<char>) -> int {
    choose|k: int| 0 <= k < s.len() && s[k] == '\n' && forall|j: int| 0 <= j < k ==> s[j] != '\n'
}

/// The lines of `s` as `str::lines` yields them: split at each `\n`, a `\r`
/// right before a `\n` dropped, and no empty line after a final `\n`.
pub open spec fn lines(s: Seq<char>) -> Seq<Seq<char>>
    decreases s.len(),
{
    if s.len() == 0 {
        Seq::empty()
    } else if s.contains('\n') {
        let k = first_newline(s);
        if 0 <= k < s.len() {
            seq![first_line(s)] + lines(s.skip(k + 1))
        } else {
            Seq::empty()
        }
    } else {
        seq![s]
    }
}

/// The decimal representation of a signed number, as `Display` writes it.
pub open spec fn signed_decimal(n: int) -> Seq<char> {
    if n < 0 {
        seq!['-'] + decimal((-n) as nat)
    } else {
        decimal(n as nat)
    }
}

/// What `str::to_lowercase` returns for a text: its Unicode lower-case
/// mapping, character by character (a character may map to several).
pub uninterp spec fn lowercase_of(s: Seq<char>) -> Seq<char>;

/// Lower-cases a text with `str::to_lowercase`. The contract claims only that
/// the result is the standard library's (deterministic) mapping of `s`,
/// named [`lowercase_of`]; the Unicode case tables are left to `std`.
#[verifier::external_body]
pub(crate) fn to_lowercase(s: &str) -> (r: String)
    ensures
        r@ == lowercase_of(s@),
{
    s.to_lowercase()
}

/// The decimal digits of a signed 64-bit number.
pub fn signed_decimal_exec(n: i64) -> (r: Vec<char>)
    ensures
        r@ == signed_decimal(n as int),
{
    if n < 0 {
        let m: u64 = if n == i64::MIN {
            9223372036854775808u64
        } else {
            (-n) as u64
        };
        assert(m as int == -(n as int));
        let digits = decimal_u64(m);
        let mut r: Vec<char> = Vec::new();
        r.push('-');
        extend(&mut r, digits.as_slice());
        r
    } else {
        decimal_u64(n as u64)
    }
}

/// The decimal digits of `n`.
pub fn decimal_u64(n: u64) -> (r: Vec<char>)
    ensures
        r@ == decimal(n as nat),
    decreases n,
{
    if n < 10 {
        let c = char_from_ascii((n + 48) as u8);
        let mut r: Vec<char> = Vec::new();
        r.push(c);
        r
    } else {
        let mut r = decimal_u64(n / 10);
        let c = char_from_ascii(((n % 10) + 48) as u8);
        r.push(c);
        r
    }
}

/// Index of the first `\n` at or after `from`, or the length when none.
pub fn find_newline(s: &[char], from: usize) -> (k: usize)
    requires
        from <= s@.len(),
    ensures
        from <= k <= s@.len(),
        forall|j: int| from <= j < k ==> s@[j] != '\n',
        k < s@.len() ==> s@[k as int] == '\n',
{
    let mut k = from;
    while k < s.len() && s[k] != '\n'
        invariant
            from <= k <= s@.len(),
            forall|j: int| from <= j < k ==> s@[j] != '\n',
        decreases s@.len() - k,
    {
        k += 1;
    }
    k
}

/// The first newline of a text that has one is where [`find_newline`] stops.
pub proof fn lemma_first_newline(s: Seq<char>, k: int)
    requires
        0 <= k < s.len(),
        s[k] == '\n',
        forall|j: int| 0 <= j < k ==> s[j] != '\n',
    ensures
        s.contains('\n'),
        first_newline(s) == k,
        first_line(s) == (if k > 0 && s[k - 1] == '\r' { s.take(k - 1) } else { s.take(k) }),
{
    assert(s.contains('\n'));
    let idx = first_newline(s);
    if idx < k {
        assert(s[idx] != '\n');
    }
    if idx > k {
        assert(s[k] != '\n');
    }
    assert(idx == k);
    if k > 0 && s[k - 1] == '\r' {
        assert(s.take(k).drop_last() =~= s.take(k - 1));
    }
}

/// A tail of `s` without a newline is its own last line.
proof fn lemma_lines_last(s: Seq<char>, i: int)
    requires
        0 <= i < s.len(),
        forall|j: int| i <= j < s.len() ==> s[j] != '\n',
    ensures
        lines(s.skip(i)) == seq![s.skip(i)],
{
    reveal(lines);
    let rest = s.skip(i);
    if rest.contains('\n') {
        let j = choose|j: int| 0 <= j < rest.len() && rest[j] == '\n';
        assert(s[i + j] == '\n');
    }
}

/// The text of `s` from `i` up to a newline at `k`, without a `\r` that ends it.
pub open spec fn line_before(s: Seq<char>, i: int, k: int) -> Seq<char> {
    if k > i && s[k - 1] == '\r' {
        s.subrange(i, k - 1)
    } else {
        s.subrange(i, k)
    }
}

/// A tail of `s` whose first newline is at `k` splits there.
proof fn lemma_lines_split(s: Seq<char>, i: int, k: int)
    requires
        0 <= i <= k < s.len(),
        s[k] == '\n',
        forall|j: int| i <= j < k ==> s[j] != '\n',
    ensures
        lines(s.skip(i)) == lines(s.skip(k + 1)).insert(0, line_before(s, i, k)),
{
    reveal(lines);
    let rest = s.skip(i);
    let off = k - i;
    assert(rest[off] == '\n');
    assert forall|j: int| 0 <= j < off implies rest[j] != '\n' by {
        assert(rest[j] == s[i + j]);
    }
    lemma_first_newline(rest, off);
    assert(rest.skip(off + 1) =~= s.skip(k + 1));
    assert(rest.take(off) =~= s.subrange(i, k));
    if off > 0 {
        assert(rest.take(off - 1) =~= s.subrange(i, k - 1));
    }
    assert(seq![first_line(rest)] + lines(rest.skip(off + 1)) =~= lines(s.skip(k + 1)).insert(
        0,
        line_before(s, i, k),
    ));
}

/// One step of splitting `s` into lines: the line that ends at the newline
/// at `k` follows the lines before `i`.
#[verifier::rlimit(30)]
proof fn lemma_lines_step(s: Seq<char>, i: int, k: int, acc: Seq<Seq<char>>)
    requires
        0 <= i <= k < s.len(),
        s[k] == '\n',
        forall|j: int| i <= j < k ==> s[j] != '\n',
        acc + lines(s.skip(i)) == lines(s),
    ensures
        acc.push(line_before(s, i, k)) + lines(s.skip(k + 1)) == lines(s),
{
    lemma_lines_split(s, i, k);
    let tail = lines(s.skip(k + 1));
    assert(acc.push(line_before(s, i, k)) + tail =~= acc + tail.insert(0, line_before(s, i, k)));
}

/// The lines of `s`, as [`lines`] describes them.
pub fn lines_exec(s: &[char]) -> (r: Vec<Vec<char>>)
    ensures
        views(r@) == lines(s@),
{
    let mut r: Vec<Vec<char>> = Vec::new();
    let mut i: usize = 0;
    let ghost mut acc: Seq<Seq<char>> = Seq::empty();
    assert(s@.skip(0) =~= s@);
    assert(views(r@) =~= acc);
    while i < s.len()
        invariant
            i <= s@.len(),
            views(r@) == acc,
            acc + lines(s@.skip(i as int)) == lines(s@),
        decreases s@.len() - i,
    {
        let k = find_newline(s, i);
        if k == s.len() {
            proof {
                lemma_lines_last(s@, i as int);
            }
            let line = skip_chars(s, i);
            push_line(&mut r, line, Ghost(acc));
            proof {
                acc = acc.push(s@.skip(i as int));
            }
            i = s.len();
        } else {
            proof {
                lemma_lines_step(s@, i as int, k as int, acc);
            }
            let cr = k > i && s[k - 1] == '\r';
            let end = if cr { k - 1 } else { k };
            let line = slice_chars(s, i, end);
            let ghost l = line@;
            assert(l == line_before(s@, i as int, k as int));
            push_line(&mut r, line, Ghost(acc));
            proof {
                acc = acc.push(l);
            }
            i = k + 1;
        }
    }
    r
}

fn push_line(r: &mut Vec<Vec<char>>, line: Vec<char>, Ghost(acc): Ghost<Seq<Seq<char>>>)
    requires
        views(old(r)@) == acc,
    ensures
        views(final(r)@) == acc.push(line@),
{
    r.push(line);
    assert(views(r@) =~= acc.push(line@));
}

/// The characters of `s` from index `a` up to `b`.
pub fn slice_chars(s: &[char], a: usize, b: usize) -> (r: Vec<char>)
    requires
        a <= b <= s@.len(),
    ensures
        r@ == s@.subrange(a as int, b as int),
{
    let mut r: Vec<char> = Vec::new();
    let mut i: usize = a;
    while i < b
        invariant
            a <= i <= b <= s@.len(),
            r@ == s@.subrange(a as int, i as int),
        decreases b - i,
    {
        r.push(s[i]);
        assert(s@.subrange(a as int, i as int).push(s@[i as int]) =~= s@.subrange(
            a as int,
            i + 1,
        ));
        i += 1;
    }
    r
}

/// Whether command sanitising keeps a character: everything but control
/// characters, and of those the whitespace ones.
pub open spec fn kept_in_command(c: char) -> bool {
    !is_ctrl(c) || c == '\n' || c == '\t' || c == ' ' || is_ws(c)
}

/// `s` without the characters [`kept_in_command`] drops.
pub open spec fn sanitized(s: Seq<char>) -> Seq<char>
    decreases s.len(),
{
    if s.len() == 0 {
        Seq::empty()
    } else if kept_in_command(s.last()) {
        sanitized(s.drop_last()).push(s.last())
    } else {
        sanitized(s.drop_last())
    }
}

/// Removes control characters other than whitespace from a command.
pub fn sanitize_text(command: &str) -> (r: String)
    ensures
        r@ == sanitized(command@),
{
    let cs = chars_of(command);
    let mut r: Vec<char> = Vec::new();
    let mut i: usize = 0;
    while i < cs.len()
        invariant
            i <= cs@.len(),
            cs@ == command@,
            r@ == sanitized(cs@.take(i as int)),
        decreases cs@.len() - i,
    {
        let c = cs[i];
        assert(cs@.take(i + 1).drop_last() =~= cs@.take(i as int));
        if !char_is_ctrl(c) || c == '\n' || c == '\t' || c == ' ' || char_is_ws(c) {
            r.push(c);
        }
        i += 1;
    }
    assert(cs@.take(cs@.len() as int) =~= cs@);
    string_of(r.as_slice())
}

/// The first index at or after `from` where `sub` occurs in `s`.
pub open spec fn find_from(s: Seq<char>, sub: Seq<char>, from: int) -> Option<int> {
    if exists|i: int|
        from <= i && occurs_at(s, sub, i) && forall|j: int| from <= j < i ==> !occurs_at(s, sub, j) {
        Some(
            choose|i: int|
                from <= i && occurs_at(s, sub, i) && forall|j: int|
                    from <= j < i ==> !occurs_at(s, sub, j),
        )
    } else {
        None
    }
}

/// The second piece of `s` split at `sep` (`s.split(sep).nth(1)`): the text
/// between the first occurrence of `sep` and the next one, or the end.
pub open spec fn second_piece(s: Seq<char>, sep: Seq<char>) -> Option<Seq<char>> {
    match find_from(s, sep, 0) {
        None => None,
        Some(i) => {
            let start = i + sep.len();
            Some(
                match find_from(s, sep, start) {
                    Some(j) => s.subrange(start, j),
                    None => s.skip(start),
                },
            )
        },
    }
}

/// The first index at or after `from` where `sub` occurs (see [`find_from`]).
pub fn find_from_exec(s: &[char], sub: &[char], from: usize) -> (r: Option<usize>)
    requires
        sub@.len() > 0,
    ensures
        match r {
            Some(i) => find_from(s@, sub@, from as int) == Some(i as int),
            None => find_from(s@, sub@, from as int) is None,
        },
{
    if sub.len() > s.len() {
        assert forall|i: int| from <= i implies !occurs_at(s@, sub@, i) by {}
        return None;
    }
    let last = s.len() - sub.len();
    let mut i: usize = from;
    while i <= last
        invariant
            last + sub@.len() == s@.len(),
            last < s.len(),
            sub@.len() >= 1,
            from <= i,
            forall|j: int| from <= j < i ==> !occurs_at(s@, sub@, j),
        decreases last + 1 - i,
    {
        if occurs_at_exec(s, sub, i) {
            proof {
                let c = choose|k: int|
                    from <= k && occurs_at(s@, sub@, k) && forall|j: int|
                        from <= j < k ==> !occurs_at(s@, sub@, j);
                assert(from <= i && occurs_at(s@, sub@, i as int));
                if c < i {
                    assert(!occurs_at(s@, sub@, c));
                }
                if c > i {
                    assert(!occurs_at(s@, sub@, i as int));
                }
            }
            return Some(i);
        }
        i += 1;
    }
    assert forall|j: int| from <= j implies !occurs_at(s@, sub@, j) by {
        if j <= last {
        }
    }
    None
}

/// The second piece of `s` split at a non-empty `sep` (see [`second_piece`]).
pub fn second_piece_exec(s: &[char], sep: &[char]) -> (r: Option<Vec<char>>)
    requires
        sep@.len() > 0,
    ensures
        match r {
            Some(v) => second_piece(s@, sep@) == Some(v@),
            None => second_piece(s@, sep@) is None,
        },
{
    match find_from_exec(s, sep, 0) {
        None => None,
        Some(i) => {
            assert(occurs_at(s@, sep@, i as int));
            let n = s.len();
            assert(i + sep@.len() <= n);
            let start = i + sep.len();
            match find_from_exec(s, sep, start) {
                Some(j) => {
                    Some(slice_chars(s, start, j))
                },
                None => Some(skip_chars(s, start)),
            }
        },
    }
}

/// Owned copies of string slices, in order.
pub fn owned_all(v: &Vec<&str>) -> (r: Vec<String>)
    ensures
        r.deep_view() == v@.map_values(|s: &str| s@),
{
    let ghost target = v@.map_values(|s: &str| s@);
    let mut r: Vec<String> = Vec::new();
    let mut i: usize = 0;
    while i < v.len()
        invariant
            i <= v@.len(),
            target == v@.map_values(|s: &str| s@),
            r.deep_view() == target.take(i as int),
        decreases v@.len() - i,
    {
        let ghost before = r.deep_view();
        r.push(owned(v[i]));
        assert(r.deep_view() =~= before.push(v@[i as int]@));
        assert(target.take(i + 1) =~= target.take(i as int).push(target[i as int]));
        i += 1;
    }
    assert(target.take(v@.len() as int) =~= target);
    r
}

/// `v` without whitespace at its end (`str::trim_end`).
pub fn trim_end_chars(v: &[char]) -> (r: Vec<char>)
    ensures
        r@ == trim_end(v@),
{
    let mut hi = v.len();
    assert(v@.take(hi as int) =~= v@);
    while hi > 0 && char_is_ws(v[hi - 1])
        invariant
            hi <= v@.len(),
            trim_end(v@.take(hi as int)) == trim_end(v@),
        decreases hi,
    {
        assert(v@.take(hi as int).drop_last() =~= v@.take(hi - 1));
        hi -= 1;
    }
    let r = take_chars(v, hi);
    r
}

/// `n` right-aligned in a field of four characters (`{:4}`).
pub open spec fn pad4(n: nat) -> Seq<char> {
    let d = decimal(n);
    if d.len() < 4 {
        Seq::new((4 - d.len()) as nat, |i: int| ' ') + d
    } else {
        d
    }
}

/// `n` right-aligned in a field of four characters.
pub fn pad4_exec(n: usize) -> (r: Vec<char>)
    ensures
        r@ == pad4(n as nat),
{
    let d = decimal_exec(n);
    if d.len() < 4 {
        let mut r: Vec<char> = Vec::new();
        let k = 4 - d.len();
        let mut i: usize = 0;
        while i < k
            invariant
                i <= k,
                r@ == Seq::new(i as nat, |j: int| ' '),
            decreases k - i,
        {
            r.push(' ');
            assert(r@ =~= Seq::new((i + 1) as nat, |j: int| ' '));
            i += 1;
        }
        extend(&mut r, d.as_slice());
        r
    } else {
        d
    }
}

} // verus!
