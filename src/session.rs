//! One channel's quiz session: the quiz state, the contest results, and the
//! language selector, with the operations that the transport invokes.
use vstd::prelude::*;
use indexmap::IndexMap;
use crate::bot::{symbol_of, CheckResult, DictionarySelector, Lang, Library, Status};
use crate::contest::{
    aggregates, credit, credited, names_distinct, standing_entries, standings,
    standings_new, ContestData,
};
use crate::hint::{
    check_hint, first_graphemes, masked, masked_graphemes, random_positions, shown, hint_verdict,
    Hint, HintVerdict,
};
use crate::messages::{
    anagram_accepted, anagram_accepted_text, answer_revealed, contest_over, contest_over_text,
    contest_round, contest_round_text, contest_start, contest_start_text, correct, correct_text,
    first_hint, first_hint_text, full_accepted, full_accepted_text, notice, notice_text, problem,
    problem_text, random_hint, random_hint_text, reveal_text, still_contesting,
    still_contesting_text, still_holding, still_holding_text, Notice,
};
use crate::text::{concat_all, grapheme_clusters, grapheme_vec, lower_of, lowercase, sort_key, sorted_key, views};

verus! {

/// Which round of how many a status is in, if it is a contest.
pub open spec fn phase(s: Status) -> Option<(u32, u32)> {
    match s {
        Status::Contesting(_, _, p, _) => Some(p),
        _ => None,
    }
}

/// The round after a contest round is resolved: the next one, or none after
/// the last.
pub open spec fn next_phase(p: Option<(u32, u32)>) -> Option<(u32, u32)> {
    match p {
        Some((c, n)) => if c >= n {
            None
        } else {
            Some(((c + 1) as u32, n))
        },
        None => None,
    }
}

/// The reply that refuses a new quiz while one is posed.
pub open spec fn busy(s: Status) -> Seq<char> {
    match s {
        Status::Contesting(a, _, _, _) => still_contesting(sorted_key(a@)),
        _ => still_holding(sorted_key(s.answer())),
    }
}

impl Status {
    /// Poses the next round of a contest: a language from `selector`, a
    /// word of its dictionary, and the round counter advanced.
    pub fn contest_continue(&mut self, selector: &DictionarySelector, library: &Library, now: u64) -> (r: String)
        requires
            library.wf(),
            selector.wf(),
            old(self).wf(),
            match *old(self) {
                Status::Contesting(_, _, (c, n), _) => c < n,
                _ => false,
            },
        ensures
            final(self).wf(),
            phase(*final(self)) == next_phase(phase(*old(self))),
            match *final(self) {
                Status::Contesting(a, l, (c, n), t) => {
                    &&& t == now
                    &&& selector.langs().contains(l)
                    &&& library.dict(l).words().contains(a@)
                    &&& r@ == contest_round(c as nat, n as nat, symbol_of(l), sorted_key(a@))
                },
                _ => false,
            },
    {
        let (count, num) = self.get_contest_num().unwrap();
        let (dic, lang) = selector.select(library);
        let ans = dic.pick();
        let sorted = sort_key(ans.as_str());
        let text = contest_round_text(count + 1, num, lang.as_symbol().as_str(), sorted.as_str());
        *self = Status::Contesting(ans.clone(), lang, (count + 1, num), now);
        text
    }
}

/// The state of one channel.
pub struct BotState {
    pub stat: Status,
    pub contest: IndexMap<String, ContestData>,
    pub library: DictionarySelector,
}

/// Why a contest cannot start.
#[derive(Debug, PartialEq, Eq, Structural)]
pub enum ContestError {
    /// Zero rounds were asked for.
    NoRounds,
    /// No language was given.
    NoLanguage,
}

/// What resolving a contest round does: after the last round the contest
/// ends with its standings and the results are cleared; before it, the next
/// round is posed and the results are kept.
pub open spec fn finishes_round(
    before: Status,
    results: Seq<(Seq<char>, Seq<u64>)>,
    langs: Seq<Lang>,
    library: &Library,
    after: &BotState,
    now: u64,
    replies: Seq<Seq<char>>,
) -> bool {
    match before {
        Status::Contesting(_, _, (c, n), _) => if c == n {
            &&& after.stat is StandingBy
            &&& standing_entries(after.contest) == Seq::<(Seq<char>, Seq<u64>)>::empty()
            &&& replies == seq![contest_over(n as nat, standings(results))]
        } else {
            match after.stat {
                Status::Contesting(a, l, (c2, n2), t) => {
                    &&& c2 == c + 1
                    &&& n2 == n
                    &&& t == now
                    &&& langs.contains(l)
                    &&& library.dict(l).words().contains(a@)
                    &&& standing_entries(after.contest) == results
                    &&& replies == seq![contest_round(c2 as nat, n as nat, symbol_of(l), sorted_key(a@))]
                },
                _ => false,
            }
        },
        _ => false,
    }
}

/// A held answer is a quiz word of its language's dictionary.
pub open spec fn posed_from(s: Status, library: &Library) -> bool {
    !(s is StandingBy) ==> library.dict(s.lang()).words().contains(s.answer())
}

/// A held answer is the lowercase form of some text: it is a word that a
/// dictionary loaded.
pub proof fn lemma_held_answer_is_lowercase(state: &BotState, library: &Library)
    requires
        library.wf(),
        state.inv(library),
        !(state.stat is StandingBy),
    ensures
        crate::dictionary::is_lower_form(state.stat.answer()),
{
    let d = library.dict(state.stat.lang());
    library.lemma_dict_wf(state.stat.lang());
    let i = choose|i: int| 0 <= i < d.words().len() && d.words()[i] == state.stat.answer();
    assert(crate::dictionary::is_lower_form(d.words()[i]));
}

/// The elapsed time that a solve is credited with.
pub open spec fn elapsed_of(s: Status, now: u64) -> u64 {
    match s {
        Status::Holding(_, _, t) => crate::bot::elapsed_ms(t, now),
        Status::Contesting(_, _, _, t) => crate::bot::elapsed_ms(t, now),
        Status::StandingBy => 0,
    }
}

impl BotState {
    pub open spec fn wf(&self) -> bool {
        &&& self.stat.wf()
        &&& names_distinct(standing_entries(self.contest))
        &&& self.library.wf()
    }

    /// Well formed, and any held answer is a quiz word of its language.
    pub open spec fn inv(&self, library: &Library) -> bool {
        &&& self.wf()
        &&& posed_from(self.stat, library)
    }

    /// A channel standing by, with no results and English selected.
    pub fn new() -> (r: BotState)
        ensures
            r.wf(),
            r.stat is StandingBy,
            standing_entries(r.contest) == Seq::<(Seq<char>, Seq<u64>)>::empty(),
            r.library.langs() == seq![Lang::En],
    {
        BotState { stat: Status::StandingBy, contest: standings_new(), library: DictionarySelector::new() }
    }

    /// Resolves the current contest round.
    fn finish_round(&mut self, library: &Library, now: u64) -> (r: Vec<String>)
        requires
            library.wf(),
            old(self).inv(library),
            old(self).stat is Contesting,
        ensures
            final(self).inv(library),
            final(self).library == old(self).library,
            finishes_round(
                old(self).stat,
                standing_entries(old(self).contest),
                old(self).library.langs(),
                library,
                final(self),
                now,
                views(r@),
            ),
    {
        if self.stat.is_contest_end() {
            let (_, num) = self.stat.get_contest_num().unwrap();
            let result = aggregates(&self.contest);
            let text = contest_over_text(num, result.as_str());
            self.contest = standings_new();
            self.stat = Status::StandingBy;
            let r = vec![text];
            assert(views(r@) =~= seq![text@]);
            r
        } else {
            let text = self.stat.contest_continue(&self.library, library, now);
            let r = vec![text];
            assert(views(r@) =~= seq![text@]);
            r
        }
    }

    /// Poses a single quiz in `lang`; refused with a reminder of the posed
    /// one while a quiz or contest is on.
    pub fn prob(&mut self, library: &Library, lang: Lang, now: u64) -> (r: Vec<String>)
        requires
            library.wf(),
            old(self).inv(library),
        ensures
            final(self).inv(library),
            final(self).contest == old(self).contest,
            final(self).library == old(self).library,
            !(old(self).stat is StandingBy) ==> final(self).stat == old(self).stat && views(r@)
                == seq![busy(old(self).stat)],
            old(self).stat is StandingBy ==> match final(self).stat {
                Status::Holding(a, l, t) => {
                    &&& l == lang
                    &&& t == now
                    &&& library.dict(lang).words().contains(a@)
                    &&& views(r@) == seq![problem(symbol_of(lang), sorted_key(a@))]
                },
                _ => false,
            },
    {
        let text = match &self.stat {
            Status::StandingBy => {
                let dic = crate::bot::get_dictionary(library, lang);
                let ans = dic.pick();
                let text = problem_text(lang.as_symbol().as_str(), sort_key(ans.as_str()).as_str());
                self.stat = Status::Holding(ans.clone(), lang, now);
                text
            },
            Status::Holding(ans, ..) => still_holding_text(sort_key(ans.as_str()).as_str()),
            Status::Contesting(ans, ..) => still_contesting_text(sort_key(ans.as_str()).as_str()),
        };
        let r = vec![text];
        assert(views(r@) =~= seq![text@]);
        r
    }

    /// Judges a message of `name` as a guess. A wrong guess, or any message
    /// while standing by, changes nothing and gets no reply. In a single
    /// quiz the intended answer ends the quiz; another accepted word is
    /// acknowledged and the quiz stays open. In a contest any accepted word
    /// credits `name` with the elapsed time and resolves the round.
    pub fn answer_check(&mut self, library: &Library, name: &str, content: &str, now: u64) -> (r: Vec<String>)
        requires
            library.wf(),
            old(self).inv(library),
        ensures
            final(self).inv(library),
            final(self).library == old(self).library,
            ({
                let s = old(self).stat;
                let exact = s.correct_spec(content@);
                let anagram = s.anagram_spec(library, content@);
                let full = s.full_spec(library, content@);
                let first = if exact {
                    correct(name@, s.answer(), elapsed_of(s, now) as nat)
                } else if anagram {
                    anagram_accepted(name@, lower_of(content@))
                } else {
                    full_accepted(name@, lower_of(content@))
                };
                &&& !exact && !anagram && !full ==> {
                    &&& final(self).stat == s
                    &&& final(self).contest == old(self).contest
                    &&& views(r@) == Seq::<Seq<char>>::empty()
                }
                &&& s is Holding && exact ==> {
                    &&& final(self).stat is StandingBy
                    &&& final(self).contest == old(self).contest
                    &&& views(r@) == seq![first]
                }
                &&& s is Holding && !exact && (anagram || full) ==> {
                    &&& final(self).stat == s
                    &&& final(self).contest == old(self).contest
                    &&& views(r@) == seq![first]
                }
                &&& s is Contesting && (exact || anagram || full) ==> {
                    &&& views(r@).len() == 2
                    &&& views(r@)[0] == first
                    &&& finishes_round(
                        s,
                        credited(standing_entries(old(self).contest), name@, elapsed_of(s, now)),
                        old(self).library.langs(),
                        library,
                        final(self),
                        now,
                        views(r@).drop_first(),
                    )
                }
            }),
    {
        let elapsed = match self.stat.elapsed(now) {
            Some(t) => t,
            None => 0,
        };
        let first = match self.stat.answer_check(library, content) {
            CheckResult::WA => {
                return Vec::new();
            },
            CheckResult::Assumed(_) => {
                let ans = self.stat.ans().unwrap();
                correct_text(name, ans.as_str(), elapsed)
            },
            CheckResult::Anagram(got) => anagram_accepted_text(name, lowercase(got).as_str()),
            CheckResult::Full(got) => full_accepted_text(name, lowercase(got).as_str()),
        };
        if self.stat.is_contesting() {
            credit(&mut self.contest, name, elapsed);
            let mut rest = self.finish_round(library, now);
            let ghost tail = rest@;
            let mut r = vec![first];
            r.append(&mut rest);
            assert(r@ =~= seq![first].add(tail));
            assert(views(r@).drop_first() =~= views(tail));
            r
        } else {
            if self.stat.is_correct_answer(content) {
                self.stat = Status::StandingBy;
            }
            let r = vec![first];
            assert(views(r@) =~= seq![first@]);
            r
        }
    }

    /// Gives up the posed quiz: the answer is revealed; a single quiz ends,
    /// and a contest round is resolved without crediting anyone.
    pub fn giveup(&mut self, library: &Library, now: u64) -> (r: Vec<String>)
        requires
            library.wf(),
            old(self).inv(library),
        ensures
            final(self).inv(library),
            final(self).library == old(self).library,
            gives_up(*old(self), library, *final(self), now, views(r@)),
    {
        match &self.stat {
            Status::StandingBy => {
                let r = vec![notice_text(Notice::NoQuiz)];
                assert(views(r@) =~= seq![r@[0]@]);
                r
            },
            Status::Holding(ans, ..) => {
                let r = vec![reveal_text(ans.as_str())];
                assert(views(r@) =~= seq![r@[0]@]);
                self.stat = Status::StandingBy;
                r
            },
            Status::Contesting(ans, ..) => {
                let first = reveal_text(ans.as_str());
                let mut rest = self.finish_round(library, now);
                let ghost tail = rest@;
                let mut r = vec![first];
                r.append(&mut rest);
                assert(r@ =~= seq![first].add(tail));
                assert(views(r@).drop_first() =~= views(tail));
                r
            },
        }
    }

    /// Starts a contest of `num` rounds over `languages`. Refused with a
    /// reminder of the posed quiz while one is on; zero rounds or no
    /// language is an error and changes nothing.
    pub fn contest(&mut self, library: &Library, num: u32, languages: Vec<Lang>, now: u64) -> (r: Result<Vec<String>, ContestError>)
        requires
            library.wf(),
            old(self).inv(library),
        ensures
            final(self).inv(library),
            !(old(self).stat is StandingBy) ==> {
                &&& r is Ok
                &&& views(r->Ok_0@) == seq![busy(old(self).stat)]
                &&& final(self).stat == old(self).stat
                &&& final(self).contest == old(self).contest
                &&& final(self).library == old(self).library
            },
            old(self).stat is StandingBy && (num == 0 || languages@.len() == 0) ==> {
                &&& r == if num == 0 {
                    Err::<Vec<String>, ContestError>(ContestError::NoRounds)
                } else {
                    Err::<Vec<String>, ContestError>(ContestError::NoLanguage)
                }
                &&& final(self).stat == old(self).stat
                &&& final(self).contest == old(self).contest
                &&& final(self).library.langs() == old(self).library.langs()
            },
            old(self).stat is StandingBy && num > 0 && languages@.len() > 0 ==> {
                &&& r is Ok
                &&& final(self).library.langs() == if languages@.len() == 1 {
                    languages@
                } else {
                    crate::dictionary::distinct_in_order(languages@)
                }
                &&& standing_entries(final(self).contest) == Seq::<(Seq<char>, Seq<u64>)>::empty()
                &&& match final(self).stat {
                    Status::Contesting(a, l, p, t) => {
                        &&& p == (1u32, num)
                        &&& t == now
                        &&& final(self).library.langs().contains(l)
                        &&& library.dict(l).words().contains(a@)
                        &&& views(r->Ok_0@) == seq![contest_start(num as nat, symbol_of(l), sorted_key(a@))]
                    },
                    _ => false,
                }
            },
    {
        let busy_text = match &self.stat {
            Status::StandingBy => None,
            Status::Holding(ans, ..) => Some(still_holding_text(sort_key(ans.as_str()).as_str())),
            Status::Contesting(ans, ..) => Some(still_contesting_text(sort_key(ans.as_str()).as_str())),
        };
        match busy_text {
            Some(text) => {
                let r = vec![text];
                assert(views(r@) =~= seq![r@[0]@]);
                return Ok(r);
            },
            None => {},
        }
        if num == 0 {
            return Err(ContestError::NoRounds);
        }
        match self.library.set(languages) {
            Err(_) => {
                return Err(ContestError::NoLanguage);
            },
            Ok(()) => {},
        }
        let (dic, lang) = self.library.select(library);
        let ans = dic.pick();
        let text = contest_start_text(num, lang.as_symbol().as_str(), sort_key(ans.as_str()).as_str());
        self.contest = standings_new();
        self.stat = Status::Contesting(ans.clone(), lang, (1, num), now);
        let r = vec![text];
        assert(views(r@) =~= seq![r@[0]@]);
        Ok(r)
    }

    /// Ends a contest early, without standings; otherwise says that no
    /// contest is on.
    pub fn unrated(&mut self) -> (r: Vec<String>)
        requires
            old(self).wf(),
        ensures
            final(self).wf(),
            final(self).library == old(self).library,
            old(self).stat is Contesting ==> {
                &&& final(self).stat is StandingBy
                &&& standing_entries(final(self).contest) == Seq::<(Seq<char>, Seq<u64>)>::empty()
                &&& views(r@) == seq![notice(Notice::ContestAborted)]
            },
            !(old(self).stat is Contesting) ==> {
                &&& final(self).stat == old(self).stat
                &&& final(self).contest == old(self).contest
                &&& views(r@) == seq![notice(Notice::NoContest)]
            },
    {
        let r = if self.stat.is_contesting() {
            self.stat = Status::StandingBy;
            self.contest = standings_new();
            vec![notice_text(Notice::ContestAborted)]
        } else {
            vec![notice_text(Notice::NoContest)]
        };
        assert(views(r@) =~= seq![r@[0]@]);
        r
    }

    /// Gives a hint on the posed answer. Zero graphemes, or more than the
    /// answer has, is refused; all graphemes or all but one counts as giving
    /// up. Otherwise the first graphemes are shown, or as many graphemes at
    /// distinct random positions with the others masked.
    pub fn hint(&mut self, library: &Library, hint: Hint, now: u64) -> (r: Vec<String>)
        requires
            library.wf(),
            old(self).inv(library),
        ensures
            final(self).inv(library),
            final(self).library == old(self).library,
            old(self).stat is StandingBy ==> {
                &&& final(self).stat == old(self).stat
                &&& final(self).contest == old(self).contest
                &&& views(r@) == seq![notice(Notice::NoQuizForHint)]
            },
            !(old(self).stat is StandingBy) ==> ({
                let g = grapheme_clusters(old(self).stat.answer());
                let n = hint.count();
                let unchanged = final(self).stat == old(self).stat && final(self).contest
                    == old(self).contest;
                match hint_verdict(n, g.len()) {
                    HintVerdict::ZeroLength => unchanged && views(r@) == seq![
                        notice(Notice::ZeroHint),
                    ],
                    HintVerdict::TooLong => unchanged && views(r@) == seq![
                        notice(Notice::HintTooLong),
                    ],
                    HintVerdict::GivesUp => {
                        &&& views(r@).len() >= 1
                        &&& views(r@)[0] == notice(Notice::HintGivesUp)
                        &&& gives_up(*old(self), library, *final(self), now, views(r@).drop_first())
                    },
                    HintVerdict::Valid => unchanged && match hint {
                        Hint::First(_) => views(r@) == seq![first_hint(n, concat_all(g.take(n as int)))],
                        Hint::Random(_) => exists|p: Seq<usize>|
                            {
                                &&& p.len() == n
                                &&& p.no_duplicates()
                                &&& shown(g.len(), p).len() == n
                                &&& views(r@) == seq![random_hint(n, concat_all(#[trigger] masked(g, p)))]
                            },
                    },
                }
            }),
    {
        let g = match &self.stat {
            Status::StandingBy => {
                let r = vec![notice_text(Notice::NoQuizForHint)];
                assert(views(r@) =~= seq![r@[0]@]);
                return r;
            },
            Status::Holding(ans, ..) => grapheme_vec(ans.as_str()),
            Status::Contesting(ans, ..) => grapheme_vec(ans.as_str()),
        };
        let n = match hint {
            Hint::First(n) => n,
            Hint::Random(n) => n,
        };
        match check_hint(n, g.len()) {
            HintVerdict::ZeroLength => {
                let r = vec![notice_text(Notice::ZeroHint)];
                assert(views(r@) =~= seq![r@[0]@]);
                r
            },
            HintVerdict::TooLong => {
                let r = vec![notice_text(Notice::HintTooLong)];
                assert(views(r@) =~= seq![r@[0]@]);
                r
            },
            HintVerdict::GivesUp => {
                let first = notice_text(Notice::HintGivesUp);
                let mut rest = self.giveup(library, now);
                let ghost tail = rest@;
                let mut r = vec![first];
                r.append(&mut rest);
                assert(r@ =~= seq![first].add(tail));
                assert(views(r@).drop_first() =~= views(tail));
                r
            },
            HintVerdict::Valid => {
                let text = match hint {
                    Hint::First(_) => first_hint_text(n, first_graphemes(&g, n).as_str()),
                    Hint::Random(_) => {
                        let positions = random_positions(g.len(), n);
                        random_hint_text(n, masked_graphemes(&g, &positions).as_str())
                    },
                };
                let r = vec![text];
                assert(views(r@) =~= seq![r@[0]@]);
                r
            },
        }
    }
}

/// What giving up does: nothing but a reply when no quiz is posed; a single
/// quiz reveals its answer and ends; a contest round reveals its answer and
/// is resolved.
pub open spec fn gives_up(before: BotState, library: &Library, after: BotState, now: u64, replies: Seq<Seq<char>>) -> bool {
    match before.stat {
        Status::StandingBy => {
            &&& after.stat == before.stat
            &&& after.contest == before.contest
            &&& replies == seq![notice(Notice::NoQuiz)]
        },
        Status::Holding(a, _, _) => {
            &&& after.stat is StandingBy
            &&& after.contest == before.contest
            &&& replies == seq![answer_revealed(a@)]
        },
        Status::Contesting(a, _, _, _) => {
            &&& replies.len() >= 1
            &&& replies[0] == answer_revealed(a@)
            &&& finishes_round(
                before.stat,
                standing_entries(before.contest),
                before.library.langs(),
                library,
                &after,
                now,
                replies.drop_first(),
            )
        },
    }
}

/// The round a contest of `k` rounds is in after `j` rounds are resolved;
/// `None` once it has ended.
pub open spec fn phase_after(k: u32, j: nat) -> Option<(u32, u32)>
    decreases j,
{
    if j == 0 {
        Some((1u32, k))
    } else {
        next_phase(phase_after(k, (j - 1) as nat))
    }
}

/// A contest of `k` rounds is still on after fewer than `k` rounds are
/// resolved, in round `j + 1`, and ends exactly when the `k`-th is resolved,
/// staying ended after that.
pub proof fn lemma_contest_ends_after_last_round(k: u32, j: nat)
    requires
        k >= 1,
    ensures
        j < k ==> phase_after(k, j) == Some(((j + 1) as u32, k)),
        j >= k ==> phase_after(k, j) is None,
    decreases j,
{
    if j > 0 {
        lemma_contest_ends_after_last_round(k, (j - 1) as nat);
    }
}

/// Resolving a round moves a contest to `next_phase` of its round.
pub proof fn lemma_resolving_advances_phase(
    before: Status,
    results: Seq<(Seq<char>, Seq<u64>)>,
    langs: Seq<Lang>,
    library: &Library,
    after: &BotState,
    now: u64,
    replies: Seq<Seq<char>>,
)
    requires
        before.wf(),
        finishes_round(before, results, langs, library, after, now, replies),
    ensures
        phase(after.stat) == next_phase(phase(before)),
{
}

} // verus!
