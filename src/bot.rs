//! Languages, the quiz state machine, and answer classification.
use vstd::prelude::*;
use vstd::string::*;
use indexmap::IndexSet;
use crate::dictionary::{distinct_in_order, Dictionary};
use crate::random::random_index;
use crate::text::{lower_of, lowercase, sort_key, sorted_key};

verus! {

/// A language that quizzes can be posed in.
#[derive(Clone, Copy, Debug, Hash, PartialEq, Eq, Structural)]
pub enum Lang {
    En,
    Ja,
    Fr,
    De,
    It,
    Ru,
    Eo,
}

/// How a language is named when a quiz is posed.
pub open spec fn symbol_of(l: Lang) -> Seq<char> {
    match l {
        Lang::En => "英単語"@,
        Lang::Ja => "単語"@,
        Lang::Fr => "仏単語"@,
        Lang::De => "独単語"@,
        Lang::It => "伊単語"@,
        Lang::Ru => "露単語"@,
        Lang::Eo => "エスペラント単語"@,
    }
}

/// The code that names a language in commands.
pub open spec fn code_of(l: Lang) -> Seq<char> {
    match l {
        Lang::En => "en"@,
        Lang::Ja => "ja"@,
        Lang::Fr => "fr"@,
        Lang::De => "de"@,
        Lang::It => "it"@,
        Lang::Ru => "ru"@,
        Lang::Eo => "eo"@,
    }
}

/// The position of a language in a library.
pub open spec fn lang_index(l: Lang) -> int {
    match l {
        Lang::En => 0,
        Lang::Ja => 1,
        Lang::Fr => 2,
        Lang::De => 3,
        Lang::It => 4,
        Lang::Ru => 5,
        Lang::Eo => 6,
    }
}

/// The number of languages.
pub const LANG_COUNT: usize = 7;

fn str_eq(a: &str, b: &str) -> (r: bool)
    ensures
        r == (a@ == b@),
{
    String::from_str(a) == String::from_str(b)
}

impl Lang {
    pub fn as_symbol(self) -> (r: String)
        ensures
            r@ == symbol_of(self),
    {
        match self {
            Lang::En => String::from_str("英単語"),
            Lang::Ja => String::from_str("単語"),
            Lang::Fr => String::from_str("仏単語"),
            Lang::De => String::from_str("独単語"),
            Lang::It => String::from_str("伊単語"),
            Lang::Ru => String::from_str("露単語"),
            Lang::Eo => String::from_str("エスペラント単語"),
        }
    }

    /// The language that `code` names, if any.
    pub fn from_code(code: &str) -> (r: Option<Lang>)
        ensures
            r is Some ==> code_of(r->0) == code@,
            r is None ==> forall|l: Lang| code_of(l) != code@,
    {
        if str_eq(code, "en") {
            Some(Lang::En)
        } else if str_eq(code, "ja") {
            Some(Lang::Ja)
        } else if str_eq(code, "fr") {
            Some(Lang::Fr)
        } else if str_eq(code, "de") {
            Some(Lang::De)
        } else if str_eq(code, "it") {
            Some(Lang::It)
        } else if str_eq(code, "ru") {
            Some(Lang::Ru)
        } else if str_eq(code, "eo") {
            Some(Lang::Eo)
        } else {
            None
        }
    }

    /// The position of the language in a library.
    pub fn index(self) -> (r: usize)
        ensures
            r == lang_index(self),
            r < LANG_COUNT,
    {
        match self {
            Lang::En => 0,
            Lang::Ja => 1,
            Lang::Fr => 2,
            Lang::De => 3,
            Lang::It => 4,
            Lang::Ru => 5,
            Lang::Eo => 6,
        }
    }
}

/// One dictionary for each language, loaded once and shared read-only.
pub struct Library {
    dictionaries: Vec<Dictionary>,
}

impl Library {
    /// The dictionary of a language.
    pub closed spec fn dict(&self, l: Lang) -> Dictionary {
        self.dictionaries@[lang_index(l)]
    }

    pub closed spec fn wf(&self) -> bool {
        &&& self.dictionaries@.len() == LANG_COUNT
        &&& forall|l: Lang| #[trigger] self.dict(l).wf()
    }

    /// A library of the given dictionaries, one per language.
    pub fn new(
        en: Dictionary,
        ja: Dictionary,
        fr: Dictionary,
        de: Dictionary,
        it: Dictionary,
        ru: Dictionary,
        eo: Dictionary,
    ) -> (r: Library)
        requires
            en.wf(),
            ja.wf(),
            fr.wf(),
            de.wf(),
            it.wf(),
            ru.wf(),
            eo.wf(),
        ensures
            r.wf(),
            r.dict(Lang::En) == en,
            r.dict(Lang::Ja) == ja,
            r.dict(Lang::Fr) == fr,
            r.dict(Lang::De) == de,
            r.dict(Lang::It) == it,
            r.dict(Lang::Ru) == ru,
            r.dict(Lang::Eo) == eo,
    {
        let dictionaries = vec![en, ja, fr, de, it, ru, eo];
        let r = Library { dictionaries };
        assert forall|l: Lang| #[trigger] r.dict(l).wf() by {
            match l {
                Lang::En => {},
                Lang::Ja => {},
                Lang::Fr => {},
                Lang::De => {},
                Lang::It => {},
                Lang::Ru => {},
                Lang::Eo => {},
            }
        }
        r
    }

    /// Every dictionary of a well-formed library is well formed.
    pub proof fn lemma_dict_wf(&self, l: Lang)
        requires
            self.wf(),
        ensures
            self.dict(l).wf(),
    {
    }
}

/// The dictionary of `lang`.
pub fn get_dictionary(library: &Library, lang: Lang) -> (r: &Dictionary)
    requires
        library.wf(),
    ensures
        *r == library.dict(lang),
        r.wf(),
{
    assert(library.dict(lang).wf());
    &library.dictionaries[lang.index()]
}

/// The dictionary of the language that `lang` names, if it names one.
pub fn select_dictionary_from_str<'a>(library: &'a Library, lang: &str) -> (r: Option<&'a Dictionary>)
    requires
        library.wf(),
    ensures
        r is Some <==> exists|l: Lang| code_of(l) == lang@,
        forall|l: Lang| code_of(l) == lang@ ==> r == Some(&library.dict(l)),
{
    match Lang::from_code(lang) {
        Some(l) => {
            proof {
                lemma_codes_distinct();
            }
            Some(get_dictionary(library, l))
        },
        None => None,
    }
}

/// No two languages share a code.
proof fn lemma_codes_distinct()
    ensures
        forall|a: Lang, b: Lang| code_of(a) == code_of(b) ==> a == b,
{
    reveal_strlit("en");
    reveal_strlit("ja");
    reveal_strlit("fr");
    reveal_strlit("de");
    reveal_strlit("it");
    reveal_strlit("ru");
    reveal_strlit("eo");
    assert forall|a: Lang, b: Lang| code_of(a) == code_of(b) implies a == b by {
        if a != b {
            assert(code_of(a)[0] != code_of(b)[0] || code_of(a)[1] != code_of(b)[1]);
        }
    }
}

/// The state of the quiz in one channel. Times are milliseconds on the
/// caller's clock.
#[derive(Debug)]
pub enum Status {
    /// No quiz is posed.
    StandingBy,
    /// A single quiz: the answer, its language, and when it was posed.
    Holding(String, Lang, u64),
    /// A contest: the answer, its language, (this round, number of rounds),
    /// and when the round was posed.
    Contesting(String, Lang, (u32, u32), u64),
}

/// How a guess compares with the held answer.
pub enum CheckResult<'a> {
    /// The intended answer.
    Assumed(&'a str),
    /// Another quiz word with the same letters.
    Anagram(&'a str),
    /// A further acceptable word with the same letters.
    Full(&'a str),
    /// Wrong, or no quiz is posed.
    WA,
}

impl Status {
    /// The held answer (empty when standing by).
    pub open spec fn answer(&self) -> Seq<char> {
        match self {
            Status::StandingBy => Seq::empty(),
            Status::Holding(a, _, _) => a@,
            Status::Contesting(a, _, _, _) => a@,
        }
    }

    /// The language of the held answer (English when standing by).
    pub open spec fn lang(&self) -> Lang {
        match self {
            Status::StandingBy => Lang::En,
            Status::Holding(_, l, _) => *l,
            Status::Contesting(_, l, _, _) => *l,
        }
    }

    /// A contest's round counter stays within its number of rounds.
    pub open spec fn wf(&self) -> bool {
        match self {
            Status::Contesting(_, _, (c, n), _) => 1 <= *c <= *n,
            _ => true,
        }
    }

    /// The guess, normalized, is the held answer.
    pub open spec fn correct_spec(&self, got: Seq<char>) -> bool {
        !(self is StandingBy) && self.answer() == lower_of(got)
    }

    /// The guess, normalized, has the answer's sorted key and is a quiz word
    /// of the answer's language.
    pub open spec fn anagram_spec(&self, library: &Library, got: Seq<char>) -> bool {
        &&& !(self is StandingBy)
        &&& sorted_key(self.answer()) == sorted_key(lower_of(got))
        &&& library.dict(self.lang()).words().contains(lower_of(got))
    }

    /// The guess, normalized, has the answer's sorted key and is a further
    /// acceptable word of the answer's language.
    pub open spec fn full_spec(&self, library: &Library, got: Seq<char>) -> bool {
        &&& !(self is StandingBy)
        &&& sorted_key(self.answer()) == sorted_key(lower_of(got))
        &&& library.dict(self.lang()).full_words() is Some
        &&& library.dict(self.lang()).full_words()->0.contains(lower_of(got))
    }

    pub fn is_standing_by(&self) -> (r: bool)
        ensures
            r == self is StandingBy,
    {
        match self {
            Status::StandingBy => true,
            _ => false,
        }
    }

    pub fn is_holding(&self) -> (r: bool)
        ensures
            r == self is Holding,
    {
        match self {
            Status::Holding(..) => true,
            _ => false,
        }
    }

    pub fn is_contesting(&self) -> (r: bool)
        ensures
            r == self is Contesting,
    {
        match self {
            Status::Contesting(..) => true,
            _ => false,
        }
    }

    /// The held answer; `Err` when standing by.
    pub fn ans(&self) -> (r: Result<&String, ()>)
        ensures
            r is Err <==> self is StandingBy,
            r is Ok ==> r->Ok_0@ == self.answer(),
    {
        match self {
            Status::StandingBy => Err(()),
            Status::Holding(ans, ..) => Ok(ans),
            Status::Contesting(ans, ..) => Ok(ans),
        }
    }

    /// The dictionary of the held answer's language; `Err` when standing by.
    pub fn get_dictionary<'a>(&self, library: &'a Library) -> (r: Result<&'a Dictionary, ()>)
        requires
            library.wf(),
        ensures
            r is Err <==> self is StandingBy,
            r is Ok ==> *r->Ok_0 == library.dict(self.lang()) && r->Ok_0.wf(),
    {
        match self {
            Status::StandingBy => Err(()),
            Status::Holding(_, lang, ..) => Ok(get_dictionary(library, *lang)),
            Status::Contesting(_, lang, ..) => Ok(get_dictionary(library, *lang)),
        }
    }

    /// Whether the guess, lowercased, is the held answer.
    pub fn is_correct_answer(&self, got: &str) -> (r: bool)
        ensures
            r == self.correct_spec(got@),
    {
        match self {
            Status::StandingBy => false,
            Status::Holding(ans, ..) => *ans == lowercase(got),
            Status::Contesting(ans, ..) => *ans == lowercase(got),
        }
    }

    /// Whether the guess, lowercased, is another quiz word with the answer's
    /// letters.
    pub fn is_anagram(&self, library: &Library, got: &str) -> (r: bool)
        requires
            library.wf(),
        ensures
            r == self.anagram_spec(library, got@),
    {
        match self.ans() {
            Err(()) => false,
            Ok(ans) => {
                let lower = lowercase(got);
                sort_key(ans.as_str()) == sort_key(lower.as_str())
                    && self.get_dictionary(library).unwrap().contains(lower.as_str())
            },
        }
    }

    /// Whether the guess, lowercased, is a further acceptable word with the
    /// answer's letters.
    pub fn is_anagram_by_full(&self, library: &Library, got: &str) -> (r: bool)
        requires
            library.wf(),
        ensures
            r == self.full_spec(library, got@),
    {
        match self.ans() {
            Err(()) => false,
            Ok(ans) => {
                let lower = lowercase(got);
                sort_key(ans.as_str()) == sort_key(lower.as_str())
                    && self.get_dictionary(library).unwrap().contains_ex(lower.as_str())
            },
        }
    }

    /// Classifies a guess. The checks go in order: the intended answer
    /// first, then another quiz word with the same letters, then a further
    /// acceptable word with the same letters.
    pub fn answer_check<'a>(&self, library: &Library, msg: &'a str) -> (r: CheckResult<'a>)
        requires
            library.wf(),
        ensures
            self.correct_spec(msg@) ==> r == CheckResult::Assumed(msg),
            !self.correct_spec(msg@) && self.anagram_spec(library, msg@) ==> r
                == CheckResult::Anagram(msg),
            !self.correct_spec(msg@) && !self.anagram_spec(library, msg@) && self.full_spec(
                library,
                msg@,
            ) ==> r == CheckResult::Full(msg),
            !self.correct_spec(msg@) && !self.anagram_spec(library, msg@) && !self.full_spec(
                library,
                msg@,
            ) ==> r == CheckResult::<'a>::WA,
    {
        if self.is_correct_answer(msg) {
            CheckResult::Assumed(msg)
        } else if self.is_anagram(library, msg) {
            CheckResult::Anagram(msg)
        } else if self.is_anagram_by_full(library, msg) {
            CheckResult::Full(msg)
        } else {
            CheckResult::WA
        }
    }

    /// Whether this is the last round of a contest.
    pub fn is_contest_end(&self) -> (r: bool)
        ensures
            r == match self {
                Status::Contesting(_, _, (c, n), _) => *c == *n,
                _ => false,
            },
    {
        match self {
            Status::Contesting(_, _, (count, num), ..) => *count == *num,
            _ => false,
        }
    }

    /// The round counter of a contest: (this round, number of rounds).
    pub fn get_contest_num(&self) -> (r: Option<(u32, u32)>)
        ensures
            r == match self {
                Status::Contesting(_, _, p, _) => Some(*p),
                _ => None::<(u32, u32)>,
            },
    {
        match self {
            Status::Contesting(_, _, (count, num), ..) => Some((*count, *num)),
            _ => None,
        }
    }

    /// Milliseconds since the quiz was posed, by the clock reading `now`
    /// (zero if `now` is earlier); `None` when standing by.
    pub fn elapsed(&self, now: u64) -> (r: Option<u64>)
        ensures
            r == match self {
                Status::StandingBy => None::<u64>,
                Status::Holding(_, _, t) => Some(elapsed_ms(*t, now)),
                Status::Contesting(_, _, _, t) => Some(elapsed_ms(*t, now)),
            },
    {
        match self {
            Status::StandingBy => None,
            Status::Holding(_, _, t) => Some(if now >= *t { now - *t } else { 0 }),
            Status::Contesting(_, _, _, t) => Some(if now >= *t { now - *t } else { 0 }),
        }
    }
}

/// The time from `start` to `now`, or zero if `now` is earlier.
pub open spec fn elapsed_ms(start: u64, now: u64) -> u64 {
    if now >= start {
        (now - start) as u64
    } else {
        0
    }
}

/// A guess that, lowercased, is another quiz word of the answer's language
/// with the answer's sorted key is not the intended answer but an anagram,
/// so `answer_check` returns `Anagram` for it.
pub proof fn lemma_same_key_quiz_word_is_anagram(s: &Status, library: &Library, g: Seq<char>)
    requires
        !(s is StandingBy),
        lower_of(g) != s.answer(),
        sorted_key(lower_of(g)) == sorted_key(s.answer()),
        library.dict(s.lang()).words().contains(lower_of(g)),
    ensures
        !s.correct_spec(g),
        s.anagram_spec(library, g),
{
}

/// A guess whose lowercase form has another sorted key than the answer is
/// none of the accepted classes, so `answer_check` returns `WA` for it.
pub proof fn lemma_other_key_is_wrong(s: &Status, library: &Library, g: Seq<char>)
    requires
        sorted_key(lower_of(g)) != sorted_key(s.answer()),
    ensures
        !s.correct_spec(g),
        !s.anagram_spec(library, g),
        !s.full_spec(library, g),
{
}

/// Whatever else a guess satisfies, the held answer itself is classified as
/// the intended answer.
pub proof fn lemma_exact_answer_takes_precedence(s: &Status, g: Seq<char>)
    requires
        !(s is StandingBy),
        lower_of(g) == s.answer(),
    ensures
        s.correct_spec(g),
{
}

/// The languages of a set, in insertion order.
pub uninterp spec fn lang_entries(s: IndexSet<Lang>) -> Seq<Lang>;

/// Relies on `IndexSet::new`: an empty set.
#[verifier::external_body]
fn lang_set_new() -> (r: IndexSet<Lang>)
    ensures
        lang_entries(r) =~= Seq::empty(),
{
    IndexSet::new()
}

/// Relies on `IndexSet::insert`: a language not there yet goes last;
/// otherwise the set is left as it was.
#[verifier::external_body]
fn lang_set_insert(s: &mut IndexSet<Lang>, l: Lang) -> (added: bool)
    ensures
        added == !lang_entries(*old(s)).contains(l),
        lang_entries(*final(s)) == if added {
            lang_entries(*old(s)).push(l)
        } else {
            lang_entries(*old(s))
        },
{
    s.insert(l)
}

/// Relies on `IndexSet::get_index`: the language at position `i`, if `i` is
/// in range.
#[verifier::external_body]
fn lang_set_get(s: &IndexSet<Lang>, i: usize) -> (r: Option<&Lang>)
    ensures
        i < lang_entries(*s).len() <==> r is Some,
        r is Some ==> *r->0 == lang_entries(*s)[i as int],
{
    s.get_index(i)
}

/// Relies on `IndexSet::len`: the number of languages.
#[verifier::external_body]
fn lang_set_len(s: &IndexSet<Lang>) -> (r: usize)
    ensures
        r == lang_entries(*s).len(),
{
    s.len()
}

/// Why a selector cannot be configured.
#[derive(Debug, PartialEq, Eq, Structural)]
pub enum SelectorError {
    /// No language was given.
    NoLanguage,
}

/// Chooses the language of each contest round: always the same one when a
/// single language is configured, else uniformly among the configured ones.
pub struct DictionarySelector {
    engine: Option<Lang>,
    set: IndexSet<Lang>,
}

impl Default for DictionarySelector {
    fn default() -> (r: DictionarySelector)
        ensures
            r.langs() == seq![Lang::En],
    {
        DictionarySelector::new()
    }
}

impl DictionarySelector {
    /// The languages that can be chosen, in a fixed order.
    pub closed spec fn langs(&self) -> Seq<Lang> {
        match self.engine {
            Some(l) => seq![l],
            None => lang_entries(self.set),
        }
    }

    pub open spec fn wf(&self) -> bool {
        self.langs().len() > 0
    }

    /// A selector that always chooses English.
    pub fn new() -> (r: DictionarySelector)
        ensures
            r.langs() == seq![Lang::En],
            r.wf(),
    {
        DictionarySelector { engine: Some(Lang::En), set: lang_set_new() }
    }

    /// Configures the languages: one language is always chosen; several are
    /// kept once each, in order, and chosen uniformly. No language at all is
    /// refused and leaves the selector as it was.
    pub fn set(&mut self, languages: Vec<Lang>) -> (r: Result<(), SelectorError>)
        ensures
            languages@.len() == 0 ==> r == Err::<(), SelectorError>(SelectorError::NoLanguage)
                && final(self).langs() == old(self).langs(),
            languages@.len() == 1 ==> r is Ok && final(self).langs() == languages@,
            languages@.len() > 1 ==> r is Ok && final(self).langs() == distinct_in_order(
                languages@,
            ),
            old(self).wf() ==> final(self).wf(),
    {
        if languages.len() == 0 {
            return Err(SelectorError::NoLanguage);
        }
        if languages.len() == 1 {
            self.engine = Some(languages[0]);
            assert(self.langs() =~= languages@);
            return Ok(());
        }
        let mut set = lang_set_new();
        let mut i: usize = 0;
        while i < languages.len()
            invariant
                0 <= i <= languages.len(),
                lang_entries(set) == distinct_in_order(languages@.subrange(0, i as int)),
            decreases languages.len() - i,
        {
            assert(languages@.subrange(0, i + 1).drop_last() =~= languages@.subrange(0, i as int));
            lang_set_insert(&mut set, languages[i]);
            i = i + 1;
        }
        assert(languages@.subrange(0, languages.len() as int) =~= languages@);
        proof {
            let s = languages@;
            let prev = distinct_in_order(s.drop_last());
            if prev.contains(s.last()) {
                assert(prev.len() > 0);
            }
        }
        self.engine = None;
        self.set = set;
        Ok(())
    }

    /// The language at position `index` of `langs()`, with its dictionary.
    pub fn select_at<'a>(&self, library: &'a Library, index: usize) -> (r: (&'a Dictionary, Lang))
        requires
            library.wf(),
            index < self.langs().len(),
        ensures
            r.1 == self.langs()[index as int],
            *r.0 == library.dict(r.1),
            r.0.wf(),
    {
        let lang = match self.engine {
            Some(l) => l,
            None => *lang_set_get(&self.set, index).unwrap(),
        };
        (get_dictionary(library, lang), lang)
    }

    /// A language drawn uniformly from `langs()`, with its dictionary.
    pub fn select<'a>(&self, library: &'a Library) -> (r: (&'a Dictionary, Lang))
        requires
            library.wf(),
            self.wf(),
        ensures
            self.langs().contains(r.1),
            *r.0 == library.dict(r.1),
            r.0.wf(),
    {
        let n = match self.engine {
            Some(_) => 1,
            None => lang_set_len(&self.set),
        };
        let i = random_index(n);
        let r = self.select_at(library, i);
        assert(self.langs()[i as int] == r.1);
        r
    }
}

} // verus!
