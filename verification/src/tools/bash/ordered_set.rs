//! Insertion-ordered set of strings, provided by the `indexmap` crate.
use indexmap::IndexSet;
use vstd::prelude::*;

verus! {

/// A set of `indexmap` that keeps its items in insertion order
/// (`IndexSet`), carried as an opaque value.
#[verifier::external_type_specification]
#[verifier::external_body]
#[verifier::reject_recursive_types(T)]
#[verifier::reject_recursive_types(S)]
pub struct ExIndexSet<T, S>(IndexSet<T, S>);

/// The strings an `IndexSet<String>` holds, in insertion order.
pub uninterp spec fn index_set_items(set: IndexSet<String>) -> Seq<Seq<char>>;

/// An empty set (`IndexSet::new`).
#[verifier::external_body]
pub(crate) fn index_set_new() -> (r: IndexSet<String>)
    ensures
        index_set_items(r) == Seq::<Seq<char>>::empty(),
{
    IndexSet::new()
}

/// `IndexSet::insert`: a value equal to one already held leaves the set as it
/// was and gives `false`; a new value goes to the end and gives `true`.
#[verifier::external_body]
pub(crate) fn index_set_insert(set: &mut IndexSet<String>, value: String) -> (added: bool)
    ensures
        added == !index_set_items(*old(set)).contains(value@),
        index_set_items(*final(set)) == if added {
            index_set_items(*old(set)).push(value@)
        } else {
            index_set_items(*old(set))
        },
{
    set.insert(value)
}

/// The held strings in insertion order (`IntoIterator` for `IndexSet`).
#[verifier::external_body]
pub(crate) fn index_set_into_vec(set: IndexSet<String>) -> (r: Vec<String>)
    ensures
        r.deep_view() == index_set_items(set),
{
    set.into_iter().collect()
}

} // verus!
