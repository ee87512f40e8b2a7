//! Grapheme clusters, their order, and the sorted key of a word.
use vstd::prelude::*;
use vstd::relations::*;
use vstd::seq_lib::*;
use vstd::string::*;
use itertools::Itertools;
use unicode_segmentation::UnicodeSegmentation;

verus! {

/// Lexicographic order on strings, character by character by code point.
/// For UTF-8 text this is the order of `str`'s `Ord`, which compares bytes.
pub open spec fn chars_le(a: Seq<char>, b: Seq<char>) -> bool
    decreases a.len(),
{
    if a.len() == 0 {
        true
    } else if b.len() == 0 {
        false
    } else if a[0] != b[0] {
        (a[0] as u32) < (b[0] as u32)
    } else {
        chars_le(a.drop_first(), b.drop_first())
    }
}

/// The order `chars_le` as a relation, for use with vstd's sorting.
pub open spec fn grapheme_order() -> spec_fn(Seq<char>, Seq<char>) -> bool {
    |a: Seq<char>, b: Seq<char>| chars_le(a, b)
}

/// The extended grapheme clusters of a text, in order.
pub uninterp spec fn grapheme_clusters(s: Seq<char>) -> Seq<Seq<char>>;

/// The views of a sequence of strings.
pub open spec fn views(v: Seq<String>) -> Seq<Seq<char>> {
    v.map_values(|g: String| g@)
}

/// The concatenation of a sequence of strings.
pub open spec fn concat_all(g: Seq<Seq<char>>) -> Seq<char> {
    g.flatten()
}

/// A sequence of graphemes put in ascending order.
pub open spec fn sort_graphemes_spec(g: Seq<Seq<char>>) -> Seq<Seq<char>> {
    g.sort_by(grapheme_order())
}

/// The sorted key of a word: its grapheme clusters in ascending order, joined.
/// Two words share a sorted key exactly when one is a rearrangement of the
/// other's grapheme clusters.
pub open spec fn sorted_key(s: Seq<char>) -> Seq<char> {
    concat_all(sort_graphemes_spec(grapheme_clusters(s)))
}

proof fn lemma_chars_le_reflexive(a: Seq<char>)
    ensures
        chars_le(a, a),
    decreases a.len(),
{
    if a.len() > 0 {
        lemma_chars_le_reflexive(a.drop_first());
    }
}

proof fn lemma_chars_le_antisymmetric(a: Seq<char>, b: Seq<char>)
    requires
        chars_le(a, b),
        chars_le(b, a),
    ensures
        a == b,
    decreases a.len(),
{
    if a.len() > 0 && b.len() > 0 {
        if a[0] == b[0] {
            lemma_chars_le_antisymmetric(a.drop_first(), b.drop_first());
            assert(a =~= seq![a[0]] + a.drop_first());
            assert(b =~= seq![b[0]] + b.drop_first());
        }
    }
    assert(a =~= b);
}

proof fn lemma_chars_le_transitive(a: Seq<char>, b: Seq<char>, c: Seq<char>)
    requires
        chars_le(a, b),
        chars_le(b, c),
    ensures
        chars_le(a, c),
    decreases a.len(),
{
    if a.len() > 0 && b.len() > 0 && c.len() > 0 {
        if a[0] == b[0] && b[0] == c[0] {
            lemma_chars_le_transitive(a.drop_first(), b.drop_first(), c.drop_first());
        }
    }
}

proof fn lemma_chars_le_total(a: Seq<char>, b: Seq<char>)
    ensures
        chars_le(a, b) || chars_le(b, a),
    decreases a.len(),
{
    if a.len() > 0 && b.len() > 0 {
        if a[0] == b[0] {
            lemma_chars_le_total(a.drop_first(), b.drop_first());
        } else {
            vstd::utf8::char_u32_cast(a[0], a[0] as u32);
            vstd::utf8::char_u32_cast(b[0], b[0] as u32);
        }
    }
}

/// `chars_le` is a total order.
pub proof fn lemma_grapheme_order_total()
    ensures
        total_ordering(grapheme_order()),
{
    let r = grapheme_order();
    assert forall|x: Seq<char>| #[trigger] r(x, x) by {
        lemma_chars_le_reflexive(x);
    }
    assert forall|x: Seq<char>, y: Seq<char>| #[trigger] r(x, y) && #[trigger] r(y, x) implies x
        == y by {
        lemma_chars_le_antisymmetric(x, y);
    }
    assert forall|x: Seq<char>, y: Seq<char>, z: Seq<char>| #[trigger]
        r(x, y) && #[trigger] r(y, z) implies r(x, z) by {
        lemma_chars_le_transitive(x, y, z);
    }
    assert forall|x: Seq<char>, y: Seq<char>| #[trigger] r(x, y) || #[trigger] r(y, x) by {
        lemma_chars_le_total(x, y);
    }
}

/// Any ascending rearrangement of `g` is `sort_graphemes_spec(g)`.
pub proof fn lemma_sorted_is_sort(g: Seq<Seq<char>>, s: Seq<Seq<char>>)
    requires
        sorted_by(s, grapheme_order()),
        s.to_multiset() == g.to_multiset(),
    ensures
        s == sort_graphemes_spec(g),
{
    lemma_grapheme_order_total();
    g.lemma_sort_by_ensures(grapheme_order());
    lemma_sorted_unique(s, sort_graphemes_spec(g), grapheme_order());
}

/// Relies on unicode_segmentation's `graphemes(s, true)`: the extended grapheme
/// clusters of `s`, in order; they are consecutive slices of `s`, so together
/// they spell `s`.
#[verifier::external_body]
fn graphemes(s: &str) -> (r: Vec<String>)
    ensures
        views(r@) == grapheme_clusters(s@),
        concat_all(views(r@)) == s@,
{
    UnicodeSegmentation::graphemes(s, true).map(|g| g.to_string()).collect()
}

/// Relies on itertools' `sorted` over strings: the same strings, in ascending
/// order of `str`'s `Ord`.
#[verifier::external_body]
fn sort_strings(v: Vec<String>) -> (r: Vec<String>)
    ensures
        views(r@).to_multiset() == views(v@).to_multiset(),
        sorted_by(views(r@), grapheme_order()),
{
    v.into_iter().sorted().collect()
}

/// The lowercase form of a text, as `str::to_lowercase` gives it.
pub uninterp spec fn lower_of(s: Seq<char>) -> Seq<char>;

/// Relies on `str::to_lowercase`: the result depends on the characters alone.
#[verifier::external_body]
pub(crate) fn lowercase(s: &str) -> (r: String)
    ensures
        r@ == lower_of(s@),
{
    s.to_lowercase()
}

/// The grapheme clusters of `s`, in order.
pub fn grapheme_vec(s: &str) -> (r: Vec<String>)
    ensures
        views(r@) == grapheme_clusters(s@),
{
    graphemes(s)
}

/// Joins a sequence of strings.
pub fn join_all(v: &Vec<String>) -> (r: String)
    ensures
        r@ == concat_all(views(v@)),
{
    let mut r = String::new();
    let mut i: usize = 0;
    while i < v.len()
        invariant
            0 <= i <= v.len(),
            r@ == concat_all(views(v@.subrange(0, i as int))),
        decreases v.len() - i,
    {
        r.append(v[i].as_str());
        proof {
            let pre = views(v@.subrange(0, i as int));
            let post = views(v@.subrange(0, i + 1));
            assert(post =~= pre.push(v@[i as int]@));
            pre.lemma_flatten_push(v@[i as int]@);
        }
        i = i + 1;
    }
    assert(v@.subrange(0, v.len() as int) =~= v@);
    r
}

/// The sorted key of `s`.
pub fn sort_key(s: &str) -> (r: String)
    ensures
        r@ == sorted_key(s@),
{
    let g = graphemes(s);
    let sorted = sort_strings(g);
    proof {
        lemma_sorted_is_sort(grapheme_clusters(s@), views(sorted@));
    }
    join_all(&sorted)
}

/// Things that have a sorted key.
pub trait Sorted {
    spec fn sorted_spec(&self) -> Seq<char>;

    fn sorted(&self) -> (r: String)
        ensures
            r@ == self.sorted_spec(),
    ;
}

impl Sorted for String {
    open spec fn sorted_spec(&self) -> Seq<char> {
        sorted_key(self@)
    }

    fn sorted(&self) -> (r: String) {
        sort_key(self.as_str())
    }
}

/// Sorting graphemes that are already in order leaves them as they are.
pub proof fn lemma_sort_graphemes_idempotent(g: Seq<Seq<char>>)
    ensures
        sort_graphemes_spec(sort_graphemes_spec(g)) == sort_graphemes_spec(g),
{
    lemma_grapheme_order_total();
    g.lemma_sort_by_ensures(grapheme_order());
    lemma_sorted_is_sort(sort_graphemes_spec(g), sort_graphemes_spec(g));
}

/// The sorted key depends only on which grapheme clusters a word has, not on
/// their order: words whose clusters are rearrangements of each other share
/// it.
pub proof fn lemma_sorted_key_permutation(s: Seq<char>, t: Seq<char>)
    requires
        grapheme_clusters(s).to_multiset() == grapheme_clusters(t).to_multiset(),
    ensures
        sorted_key(s) == sorted_key(t),
{
    lemma_grapheme_order_total();
    grapheme_clusters(s).lemma_sort_by_ensures(grapheme_order());
    grapheme_clusters(t).lemma_sort_by_ensures(grapheme_order());
    lemma_sorted_is_sort(grapheme_clusters(t), sort_graphemes_spec(grapheme_clusters(s)));
}

/// Taking the sorted key of a sorted key gives it back, whenever the key
/// splits into the same clusters that were sorted into it.
pub proof fn lemma_sorted_key_idempotent(s: Seq<char>)
    requires
        grapheme_clusters(sorted_key(s)) == sort_graphemes_spec(grapheme_clusters(s)),
    ensures
        sorted_key(sorted_key(s)) == sorted_key(s),
{
    lemma_sort_graphemes_idempotent(grapheme_clusters(s));
}

} // verus!
