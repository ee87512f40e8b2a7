//! Word lists indexed by sorted key.
use vstd::prelude::*;
use indexmap::{IndexMap, IndexSet};
use crate::collections::{word_entries, word_set_contains, word_set_get, word_set_insert, word_set_len, word_set_new};
use crate::random::random_index;
use crate::text::{lower_of, lowercase, sort_key, sorted_key, views};

verus! {

/// The classes of an anagram index: each sorted key with its words, in the
/// order in which they were added.
pub uninterp spec fn class_entries(m: IndexMap<String, Vec<String>>) -> Map<Seq<char>, Seq<Seq<char>>>;

/// Relies on `IndexMap::new`: an empty map.
#[verifier::external_body]
fn class_map_new() -> (r: IndexMap<String, Vec<String>>)
    ensures
        class_entries(r) =~= Map::empty(),
{
    IndexMap::new()
}

/// Relies on `IndexMap::get`: the words stored under an equal key, if any.
#[verifier::external_body]
fn class_map_get<'a>(m: &'a IndexMap<String, Vec<String>>, key: &str) -> (r: Option<
    &'a Vec<String>,
>)
    ensures
        r is Some <==> class_entries(*m).contains_key(key@),
        r is Some ==> views(r->0@) == class_entries(*m)[key@],
{
    m.get(key)
}

/// Relies on `IndexMap::insert`: the key now maps to the given words, and
/// every other key keeps its own.
#[verifier::external_body]
fn class_map_insert(m: &mut IndexMap<String, Vec<String>>, key: String, words: Vec<String>)
    ensures
        class_entries(*final(m)) == class_entries(*old(m)).insert(key@, views(words@)),
{
    m.insert(key, words);
}

/// The words of `words` whose sorted key is `key`, in order.
pub open spec fn class_of(words: Seq<Seq<char>>, key: Seq<char>) -> Seq<Seq<char>> {
    words.filter(|w: Seq<char>| sorted_key(w) == key)
}

/// `classes` maps exactly the sorted keys that occur in `words`, each to its
/// class.
pub open spec fn indexes(words: Seq<Seq<char>>, classes: Map<Seq<char>, Seq<Seq<char>>>) -> bool {
    &&& forall|k: Seq<char>| #[trigger]
        classes.contains_key(k) ==> classes[k] == class_of(words, k)
    &&& forall|k: Seq<char>| #[trigger]
        class_of(words, k).len() > 0 <==> classes.contains_key(k)
}

/// The lowercase forms of a list of words.
pub open spec fn normalized(ws: Seq<String>) -> Seq<Seq<char>> {
    ws.map_values(|w: String| lower_of(w@))
}

/// The items of `s` without repeats, each where it first occurs.
pub open spec fn distinct_in_order<A>(s: Seq<A>) -> Seq<A>
    decreases s.len(),
{
    if s.len() == 0 {
        Seq::empty()
    } else {
        let prev = distinct_in_order(s.drop_last());
        if prev.contains(s.last()) {
            prev
        } else {
            prev.push(s.last())
        }
    }
}

/// A text that is the lowercase form of some text.
pub open spec fn is_lower_form(w: Seq<char>) -> bool {
    exists|s: Seq<char>| lower_of(s) == w
}

/// Every word of `words` is a lowercase form.
pub open spec fn all_lower_forms(words: Seq<Seq<char>>) -> bool {
    forall|i: int| 0 <= i < words.len() ==> is_lower_form(#[trigger] words[i])
}

/// The words that a list loads as: lowercased, without repeats.
pub open spec fn loaded(ws: Seq<String>) -> Seq<Seq<char>> {
    distinct_in_order(normalized(ws))
}

/// A list of words with its anagram index.
pub struct WordIndex {
    words: IndexSet<String>,
    classes: IndexMap<String, Vec<String>>,
}

impl WordIndex {
    /// The words, in the order in which they were loaded.
    pub closed spec fn entries(&self) -> Seq<Seq<char>> {
        word_entries(self.words)
    }

    /// The anagram classes, by sorted key.
    pub closed spec fn class_map(&self) -> Map<Seq<char>, Seq<Seq<char>>> {
        class_entries(self.classes)
    }

    pub open spec fn wf(&self) -> bool {
        &&& self.entries().no_duplicates()
        &&& indexes(self.entries(), self.class_map())
        &&& all_lower_forms(self.entries())
    }

    /// Loads a list of words: each is lowercased, kept once, and filed under
    /// its sorted key.
    pub fn build(ws: &Vec<String>) -> (r: WordIndex)
        ensures
            r.wf(),
            r.entries() == loaded(ws@),
    {
        let mut words = word_set_new();
        let mut classes = class_map_new();
        let mut i: usize = 0;
        while i < ws.len()
            invariant
                0 <= i <= ws.len(),
                word_entries(words) == loaded(ws@.subrange(0, i as int)),
                word_entries(words).no_duplicates(),
                all_lower_forms(word_entries(words)),
                indexes(word_entries(words), class_entries(classes)),
            decreases ws.len() - i,
        {
            let w = lowercase(ws[i].as_str());
            let ghost before = word_entries(words);
            let ghost classes_before = class_entries(classes);
            proof {
                assert(normalized(ws@.subrange(0, i + 1)) =~= normalized(
                    ws@.subrange(0, i as int),
                ).push(w@));
                assert(normalized(ws@.subrange(0, i + 1)).drop_last() =~= normalized(
                    ws@.subrange(0, i as int),
                ));
            }
            let added = word_set_insert(&mut words, w.clone());
            if added {
                let key = sort_key(w.as_str());
                let mut class: Vec<String> = Vec::new();
                match class_map_get(&classes, key.as_str()) {
                    Some(old_class) => {
                        class = copy_words(old_class);
                    },
                    None => {},
                }
                proof {
                    if !classes_before.contains_key(key@) {
                        assert(class_of(before, key@).len() == 0);
                        assert(views(class@) =~= class_of(before, key@));
                    }
                }
                let ghost class_before = class@;
                class.push(w);
                proof {
                    assert(views(class@) =~= views(class_before).push(w@));
                }
                class_map_insert(&mut classes, key, class);
                proof {
                    let after = word_entries(words);
                    let cm = class_entries(classes);
                    assert(after == before.push(w@));
                    assert forall|k: Seq<char>| #[trigger] cm.contains_key(k) implies cm[k]
                        == class_of(after, k) by {
                        before.lemma_filter_push(w@, |x: Seq<char>| sorted_key(x) == k);
                    }
                    assert forall|k: Seq<char>| #[trigger]
                        class_of(after, k).len() > 0 <==> cm.contains_key(k) by {
                        before.lemma_filter_push(w@, |x: Seq<char>| sorted_key(x) == k);
                        if k != key@ {
                            assert(class_of(after, k) == class_of(before, k));
                            assert(class_of(before, k).len() > 0 <==> classes_before.contains_key(k));
                        }
                    }
                    assert(after.no_duplicates());
                }
            }
            i = i + 1;
        }
        assert(ws@.subrange(0, ws.len() as int) =~= ws@);
        WordIndex { words, classes }
    }

    /// Whether `word` is one of the words.
    pub fn contains(&self, word: &str) -> (r: bool)
        ensures
            r == self.entries().contains(word@),
    {
        word_set_contains(&self.words, word)
    }

    /// The number of words.
    pub fn len(&self) -> (r: usize)
        ensures
            r == self.entries().len(),
    {
        word_set_len(&self.words)
    }

    /// The word at position `index`.
    pub fn get(&self, index: usize) -> (r: &String)
        requires
            index < self.entries().len(),
        ensures
            r@ == self.entries()[index as int],
    {
        word_set_get(&self.words, index).unwrap()
    }

    /// The words whose sorted key is `key`, if there are any.
    pub fn class(&self, key: &str) -> (r: Option<&Vec<String>>)
        requires
            self.wf(),
        ensures
            r is Some <==> class_of(self.entries(), key@).len() > 0,
            r is Some ==> views(r->0@) == class_of(self.entries(), key@),
    {
        class_map_get(&self.classes, key)
    }
}

/// A copy of a list of words.
fn copy_words(v: &Vec<String>) -> (r: Vec<String>)
    ensures
        views(r@) == views(v@),
{
    let mut r: Vec<String> = Vec::new();
    let mut i: usize = 0;
    while i < v.len()
        invariant
            0 <= i <= v.len(),
            views(r@) == views(v@.subrange(0, i as int)),
        decreases v.len() - i,
    {
        r.push(v[i].clone());
        assert(views(v@.subrange(0, i + 1)) =~= views(v@.subrange(0, i as int)).push(v@[i as int]@));
        i = i + 1;
    }
    assert(v@.subrange(0, v.len() as int) =~= v@);
    r
}


/// Why a dictionary cannot be loaded.
#[derive(Debug, PartialEq, Eq, Structural)]
pub enum DictionaryError {
    /// The list of quiz words is empty.
    EmptyWordList,
}

/// The words of one language: the list that quizzes are drawn from, and
/// optionally a larger list of further acceptable words.
pub struct Dictionary {
    questions: WordIndex,
    full: Option<WordIndex>,
}

/// What an optional list loads as.
pub open spec fn loaded_opt(ws: Option<Vec<String>>) -> Option<Seq<Seq<char>>> {
    match ws {
        Some(v) => Some(loaded(v@)),
        None => None,
    }
}

proof fn lemma_loaded_nonempty(ws: Seq<String>)
    requires
        ws.len() > 0,
    ensures
        loaded(ws).len() > 0,
{
    let s = normalized(ws);
    let prev = distinct_in_order(s.drop_last());
    if prev.contains(s.last()) {
        assert(prev.len() > 0);
    }
}

impl Dictionary {
    /// The quiz words, in load order.
    pub closed spec fn words(&self) -> Seq<Seq<char>> {
        self.questions.entries()
    }

    /// The anagram classes of the quiz words, by sorted key.
    pub closed spec fn classes(&self) -> Map<Seq<char>, Seq<Seq<char>>> {
        self.questions.class_map()
    }

    /// The further acceptable words, if the language has such a list.
    pub closed spec fn full_words(&self) -> Option<Seq<Seq<char>>> {
        match self.full {
            Some(f) => Some(f.entries()),
            None => None,
        }
    }

    /// The anagram classes of the further acceptable words (none without
    /// such a list).
    pub closed spec fn full_classes(&self) -> Map<Seq<char>, Seq<Seq<char>>> {
        match self.full {
            Some(f) => f.class_map(),
            None => Map::empty(),
        }
    }

    pub open spec fn wf(&self) -> bool {
        &&& self.words().len() > 0
        &&& self.words().no_duplicates()
        &&& all_lower_forms(self.words())
        &&& indexes(self.words(), self.classes())
        &&& self.full_words() is Some ==> {
            &&& self.full_words()->0.no_duplicates()
            &&& all_lower_forms(self.full_words()->0)
            &&& indexes(self.full_words()->0, self.full_classes())
        }
    }

    /// Loads a dictionary from its quiz words and, optionally, its further
    /// acceptable words. Each word is lowercased and kept once, in order.
    /// Fails when there are no quiz words.
    pub fn from_words(questions: Vec<String>, full: Option<Vec<String>>) -> (r: Result<
        Dictionary,
        DictionaryError,
    >)
        ensures
            r is Err <==> questions@.len() == 0,
            r is Err ==> r == Err::<Dictionary, DictionaryError>(DictionaryError::EmptyWordList),
            r is Ok ==> {
                &&& r->Ok_0.wf()
                &&& r->Ok_0.words() == loaded(questions@)
                &&& r->Ok_0.full_words() == loaded_opt(full)
            },
    {
        if questions.len() == 0 {
            return Err(DictionaryError::EmptyWordList);
        }
        let q = WordIndex::build(&questions);
        proof {
            lemma_loaded_nonempty(questions@);
        }
        let f = match full {
            Some(ws) => Some(WordIndex::build(&ws)),
            None => None,
        };
        Ok(Dictionary { questions: q, full: f })
    }

    /// The quiz word at position `index`.
    pub fn get(&self, index: usize) -> (r: &String)
        requires
            index < self.words().len(),
        ensures
            r@ == self.words()[index as int],
    {
        self.questions.get(index)
    }

    /// A quiz word drawn uniformly at random.
    pub fn pick(&self) -> (r: &String)
        requires
            self.wf(),
        ensures
            self.words().contains(r@),
    {
        let n = self.questions.len();
        let i = random_index(n);
        let r = self.get(i);
        assert(self.words()[i as int] == r@);
        r
    }

    /// The number of quiz words.
    pub fn len(&self) -> (r: usize)
        ensures
            r == self.words().len(),
    {
        self.questions.len()
    }

    /// The number of further acceptable words, if the language has such a
    /// list.
    pub fn full_len(&self) -> (r: Option<usize>)
        ensures
            r is Some <==> self.full_words() is Some,
            r is Some ==> r->0 == self.full_words()->0.len(),
    {
        match &self.full {
            Some(f) => Some(f.len()),
            None => None,
        }
    }

    /// Whether `word` is a quiz word.
    pub fn contains(&self, word: &str) -> (r: bool)
        ensures
            r == self.words().contains(word@),
    {
        self.questions.contains(word)
    }

    /// Whether `word` is among the further acceptable words.
    pub fn contains_ex(&self, word: &str) -> (r: bool)
        ensures
            r == (self.full_words() is Some && self.full_words()->0.contains(word@)),
    {
        match &self.full {
            Some(f) => f.contains(word),
            None => false,
        }
    }

    /// The quiz words whose sorted key is `key`, if there are any.
    pub fn anagram_class(&self, key: &str) -> (r: Option<&Vec<String>>)
        requires
            self.wf(),
        ensures
            r is Some <==> self.classes().contains_key(key@),
            r is Some ==> views(r->0@) == self.classes()[key@],
    {
        self.questions.class(key)
    }

    /// The further acceptable words whose sorted key is `key`; `None` when
    /// there are none or the language has no such list.
    pub fn full_anagram_class(&self, key: &str) -> (r: Option<&Vec<String>>)
        requires
            self.wf(),
        ensures
            r is Some <==> self.full_classes().contains_key(key@),
            r is Some ==> views(r->0@) == self.full_classes()[key@],
    {
        match &self.full {
            Some(f) => f.class(key),
            None => None,
        }
    }
}

/// Every quiz word of a dictionary lies in the anagram class of its own
/// sorted key.
pub proof fn lemma_word_in_own_class(d: &Dictionary, w: Seq<char>)
    requires
        d.wf(),
        d.words().contains(w),
    ensures
        d.classes().contains_key(sorted_key(w)),
        d.classes()[sorted_key(w)].contains(w),
{
    let k = sorted_key(w);
    d.words().lemma_filter_contains_rev(|x: Seq<char>| sorted_key(x) == k, w);
    assert(class_of(d.words(), k).contains(w));
    assert(class_of(d.words(), k).len() > 0);
}

} // verus!
