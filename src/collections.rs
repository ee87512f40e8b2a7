//! The insertion-ordered collections of indexmap, and the words they hold.
use vstd::prelude::*;
use indexmap::{IndexMap, IndexSet};

verus! {

#[verifier::external_type_specification]
#[verifier::external_body]
#[verifier::reject_recursive_types(T)]
#[verifier::reject_recursive_types(S)]
pub struct ExIndexSet<T, S>(IndexSet<T, S>);

#[verifier::external_type_specification]
#[verifier::external_body]
#[verifier::reject_recursive_types(K)]
#[verifier::reject_recursive_types(V)]
#[verifier::reject_recursive_types(S)]
pub struct ExIndexMap<K, V, S>(IndexMap<K, V, S>);

/// The words of a set of strings, in insertion order.
pub uninterp spec fn word_entries(s: IndexSet<String>) -> Seq<Seq<char>>;

/// Relies on `IndexSet::new`: an empty set.
#[verifier::external_body]
pub(crate) fn word_set_new() -> (r: IndexSet<String>)
    ensures
        word_entries(r) == Seq::<Seq<char>>::empty(),
{
    IndexSet::new()
}

/// Relies on `IndexSet::insert`: a word that is not there yet goes last and
/// `true` comes back; otherwise the set is left as it was and `false` comes
/// back. Strings are equal when their characters are.
#[verifier::external_body]
pub(crate) fn word_set_insert(s: &mut IndexSet<String>, w: String) -> (added: bool)
    ensures
        added == !word_entries(*old(s)).contains(w@),
        word_entries(*final(s)) == if added {
            word_entries(*old(s)).push(w@)
        } else {
            word_entries(*old(s))
        },
{
    s.insert(w)
}

/// Relies on `IndexSet::contains`: whether an equal word is in the set.
#[verifier::external_body]
pub(crate) fn word_set_contains(s: &IndexSet<String>, w: &str) -> (r: bool)
    ensures
        r == word_entries(*s).contains(w@),
{
    s.contains(w)
}

/// Relies on `IndexSet::get_index`: the word at position `i`, if `i` is in
/// range.
#[verifier::external_body]
pub(crate) fn word_set_get(s: &IndexSet<String>, i: usize) -> (r: Option<&String>)
    ensures
        i < word_entries(*s).len() ==> r is Some && r->0@ == word_entries(*s)[i as int],
        i >= word_entries(*s).len() ==> r is None,
{
    s.get_index(i)
}

/// Relies on `IndexSet::len`: the number of words.
#[verifier::external_body]
pub(crate) fn word_set_len(s: &IndexSet<String>) -> (r: usize)
    ensures
        r == word_entries(*s).len(),
{
    s.len()
}

} // verus!
