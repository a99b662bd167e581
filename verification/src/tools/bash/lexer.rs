//! Shell-word splitting, provided by the `shlex` crate.
use vstd::prelude::*;

verus! {

/// What `shlex::split` returns for a given text: the words of the text under
/// POSIX-shell quoting rules, or `None` when the quoting is unbalanced.
pub uninterp spec fn shlex_words(s: Seq<char>) -> Option<Seq<Seq<char>>>;

/// Splits `s` into shell words with `shlex::split`. The contract claims only
/// that the result is the crate's (deterministic) answer for `s`, named
/// [`shlex_words`]; the word rules themselves are left to the crate.
#[verifier::external_body]
pub(crate) fn shell_words(s: &str) -> (r: Option<Vec<String>>)
    ensures
        r.deep_view() == shlex_words(s@),
{
    shlex::split(s)
}

/// The view of each string in a vector of strings.
pub open spec fn strings_view(v: Seq<String>) -> Seq<Seq<char>> {
    Seq::new(v.len(), |i: int| v[i]@)
}

/// Pushing a string extends the vector's character view by that string.
pub fn push_string(v: &mut Vec<String>, s: String)
    ensures
        final(v).deep_view() == old(v).deep_view().push(s@),
{
    v.push(s);
    assert(v.deep_view() =~= old(v).deep_view().push(s@));
}

} // verus!
