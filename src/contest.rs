//! Contest results: each participant's solve times, and the standings.
use vstd::prelude::*;
use vstd::relations::*;
use vstd::seq_lib::*;
use vstd::string::*;
use indexmap::IndexMap;
use itertools::Itertools;
use crate::messages::{decimal, number_text, seconds, seconds_text};

verus! {

/// One participant's results in a contest: the time of each solve, in
/// milliseconds.
pub struct ContestData {
    pub time: Vec<u64>,
}

/// The total of a list of times.
pub open spec fn total_ms(s: Seq<u64>) -> int
    decreases s.len(),
{
    if s.len() == 0 {
        0
    } else {
        total_ms(s.drop_last()) + s.last()
    }
}

/// The mean of a list of times, rounded to the nearest millisecond (halves
/// round up); zero for no times.
pub open spec fn mean_ms(s: Seq<u64>) -> int {
    if s.len() == 0 {
        0
    } else {
        let q = total_ms(s) / (s.len() as int);
        let r = total_ms(s) % (s.len() as int);
        if 2 * r >= s.len() {
            q + 1
        } else {
            q
        }
    }
}

/// The summary of a participant's results.
pub open spec fn summary(s: Seq<u64>) -> Seq<char> {
    decimal(s.len()) + " AC, average speed = "@ + seconds(mean_ms(s) as nat) + " sec"@
}

/// The ranking key: more solves first, then the lower mean time.
pub open spec fn rank_key(s: Seq<u64>) -> (usize, u128) {
    ((usize::MAX - s.len()) as usize, mean_ms(s) as u128)
}

impl ContestData {
    /// No solves yet.
    pub fn new() -> (r: ContestData)
        ensures
            r.time@ == Seq::<u64>::empty(),
    {
        ContestData { time: Vec::new() }
    }

    /// Adds a solve that took `ms` milliseconds.
    pub fn add_time(&mut self, ms: u64)
        ensures
            final(self).time@ == old(self).time@.push(ms),
    {
        self.time.push(ms);
    }

    /// The same results.
    pub fn copy(&self) -> (r: ContestData)
        ensures
            r.time@ == self.time@,
    {
        let mut time: Vec<u64> = Vec::new();
        let mut i: usize = 0;
        while i < self.time.len()
            invariant
                0 <= i <= self.time.len(),
                time@ == self.time@.subrange(0, i as int),
            decreases self.time.len() - i,
        {
            time.push(self.time[i]);
            assert(self.time@.subrange(0, i + 1) =~= self.time@.subrange(0, i as int).push(
                self.time@[i as int],
            ));
            i = i + 1;
        }
        assert(self.time@.subrange(0, self.time.len() as int) =~= self.time@);
        ContestData { time }
    }

    fn mean(&self) -> (r: u128)
        ensures
            r == mean_ms(self.time@),
    {
        let n = self.time.len();
        let mut sum: u128 = 0;
        let mut i: usize = 0;
        while i < n
            invariant
                n == self.time.len(),
                0 <= i <= n,
                sum == total_ms(self.time@.subrange(0, i as int)),
                sum <= i * 0xFFFF_FFFF_FFFF_FFFFu128,
            decreases n - i,
        {
            assert(self.time@.subrange(0, i + 1).drop_last() =~= self.time@.subrange(0, i as int));
            sum = sum + self.time[i] as u128;
            i = i + 1;
        }
        assert(self.time@.subrange(0, n as int) =~= self.time@);
        if n == 0 {
            0
        } else {
            let q = sum / (n as u128);
            let r = sum % (n as u128);
            assert(q <= sum) by (nonlinear_arith)
                requires
                    q == sum / (n as u128),
                    n >= 1,
            ;
            if 2 * r >= n as u128 {
                q + 1
            } else {
                q
            }
        }
    }

    /// "<solves> AC, average speed = <mean seconds, three decimals> sec".
    pub fn as_string(&self) -> (r: String)
        ensures
            r@ == summary(self.time@),
    {
        let mean = self.mean();
        number_text(self.time.len() as u128).concat(" AC, average speed = ").concat(
            seconds_text(mean).as_str(),
        ).concat(" sec")
    }

    /// The ranking key: more solves rank first, then the lower mean time.
    pub fn key(&self) -> (r: (usize, u128))
        ensures
            r == rank_key(self.time@),
    {
        (usize::MAX - self.time.len(), self.mean())
    }
}

/// Each participant's name and solve times, in the order of first solve.
pub uninterp spec fn standing_entries(m: IndexMap<String, ContestData>) -> Seq<(Seq<char>, Seq<u64>)>;

/// Relies on `IndexMap::new`: an empty map.
#[verifier::external_body]
pub(crate) fn standings_new() -> (r: IndexMap<String, ContestData>)
    ensures
        standing_entries(r) =~= Seq::empty(),
{
    IndexMap::new()
}

/// Relies on `IndexMap::len`: the number of participants.
#[verifier::external_body]
fn standings_len(m: &IndexMap<String, ContestData>) -> (r: usize)
    ensures
        r == standing_entries(*m).len(),
{
    m.len()
}

/// Relies on `IndexMap::get_index`: the entry at position `i`, if `i` is in
/// range.
#[verifier::external_body]
fn standings_get_index(m: &IndexMap<String, ContestData>, i: usize) -> (r: Option<
    (&String, &ContestData),
>)
    ensures
        i < standing_entries(*m).len() <==> r is Some,
        r is Some ==> ((r->0).0@, (r->0).1.time@) == standing_entries(*m)[i as int],
{
    m.get_index(i)
}

/// Relies on `IndexMap::get`: the results stored under an equal name, if any.
#[verifier::external_body]
fn standings_get<'a>(m: &'a IndexMap<String, ContestData>, name: &str) -> (r: Option<
    &'a ContestData,
>)
    ensures
        r is Some <==> has_name(standing_entries(*m), name@),
        r is Some ==> exists|j: int|
            0 <= j < standing_entries(*m).len() && #[trigger] standing_entries(*m)[j] == (
                name@,
                r->0.time@,
            ),
{
    m.get(name)
}

/// Relies on `IndexMap::insert`: an existing name keeps its place and takes
/// the new results; a new name goes last.
#[verifier::external_body]
fn standings_insert(m: &mut IndexMap<String, ContestData>, name: String, data: ContestData)
    ensures
        has_name(standing_entries(*old(m)), name@) ==> {
            &&& standing_entries(*final(m)).len() == standing_entries(*old(m)).len()
            &&& forall|j: int|
                0 <= j < standing_entries(*old(m)).len() ==> #[trigger] standing_entries(
                    *final(m),
                )[j] == if standing_entries(*old(m))[j].0 == name@ {
                    (name@, data.time@)
                } else {
                    standing_entries(*old(m))[j]
                }
        },
        !has_name(standing_entries(*old(m)), name@) ==> standing_entries(*final(m))
            == standing_entries(*old(m)).push((name@, data.time@)),
{
    m.insert(name, data);
}

/// Whether some entry has this name.
pub open spec fn has_name(e: Seq<(Seq<char>, Seq<u64>)>, name: Seq<char>) -> bool {
    exists|j: int| 0 <= j < e.len() && #[trigger] e[j].0 == name
}

/// No two entries share a name.
pub open spec fn names_distinct(e: Seq<(Seq<char>, Seq<u64>)>) -> bool {
    forall|i: int, j: int| 0 <= i < e.len() && 0 <= j < e.len() && i != j ==> #[trigger] e[i].0 != #[trigger] e[j].0
}

/// The entries after crediting `name` with a solve of `ms` milliseconds.
pub open spec fn credited(e: Seq<(Seq<char>, Seq<u64>)>, name: Seq<char>, ms: u64) -> Seq<
    (Seq<char>, Seq<u64>),
> {
    if has_name(e, name) {
        Seq::new(
            e.len(),
            |j: int|
                if e[j].0 == name {
                    (name, e[j].1.push(ms))
                } else {
                    e[j]
                },
        )
    } else {
        e.push((name, seq![ms]))
    }
}

/// Credits `name` with a solve of `ms` milliseconds.
pub fn credit(m: &mut IndexMap<String, ContestData>, name: &str, ms: u64)
    requires
        names_distinct(standing_entries(*old(m))),
    ensures
        standing_entries(*final(m)) == credited(standing_entries(*old(m)), name@, ms),
        names_distinct(standing_entries(*final(m))),
{
    let ghost e = standing_entries(*m);
    let mut data = match standings_get(m, name) {
        Some(d) => d.copy(),
        None => ContestData::new(),
    };
    let ghost before = data.time@;
    data.add_time(ms);
    standings_insert(m, String::from_str(name), data);
    proof {
        let f = standing_entries(*m);
        if has_name(e, name@) {
            let j0 = choose|j: int| 0 <= j < e.len() && #[trigger] e[j] == (name@, before);
            assert forall|j: int| 0 <= j < e.len() implies #[trigger] f[j] == credited(
                e,
                name@,
                ms,
            )[j] by {
                if e[j].0 == name@ {
                    assert(e[j0].0 == e[j].0);
                    assert(j == j0);
                }
            }
            assert(f =~= credited(e, name@, ms));
        } else {
            assert(before =~= Seq::<u64>::empty());
            assert(data.time@ =~= seq![ms]);
        }
        assert forall|i: int, j: int| 0 <= i < f.len() && 0 <= j < f.len() && i != j implies #[trigger] f[i].0 != #[trigger] f[j].0 by {
            if has_name(e, name@) {
                assert(f[i].0 == e[i].0);
                assert(f[j].0 == e[j].0);
            } else if i < e.len() && j < e.len() {
            } else if i == e.len() {
                assert(e[j].0 != name@);
            } else {
                assert(e[i].0 != name@);
            }
        }
    }
}

/// The order of ranking items: by key, then by position.
pub open spec fn item_le(a: (usize, u128, usize), b: (usize, u128, usize)) -> bool {
    a.0 < b.0 || (a.0 == b.0 && (a.1 < b.1 || (a.1 == b.1 && a.2 <= b.2)))
}

pub open spec fn item_order() -> spec_fn((usize, u128, usize), (usize, u128, usize)) -> bool {
    |a: (usize, u128, usize), b: (usize, u128, usize)| item_le(a, b)
}

/// The ranking items of the entries: each one's key and position.
pub open spec fn rank_items(e: Seq<(Seq<char>, Seq<u64>)>) -> Seq<(usize, u128, usize)> {
    Seq::new(
        e.len(),
        |i: int| (rank_key(e[i].1).0, rank_key(e[i].1).1, i as usize),
    )
}

/// The entries' positions in ranking order: by key, ties in entry order.
pub open spec fn ranking(e: Seq<(Seq<char>, Seq<u64>)>) -> Seq<(usize, u128, usize)> {
    rank_items(e).sort_by(item_order())
}

/// The ordinal suffix of `n`: "th" for 11 to 13 modulo 100, else "st", "nd",
/// "rd" for 1, 2, 3 modulo 10, else "th".
pub open spec fn ordinal_suffix(n: nat) -> Seq<char> {
    let m = n % 100;
    if 11 <= m <= 13 {
        "th"@
    } else if m % 10 == 1 {
        "st"@
    } else if m % 10 == 2 {
        "nd"@
    } else if m % 10 == 3 {
        "rd"@
    } else {
        "th"@
    }
}

/// One line of the standings.
pub open spec fn standing_line(rank: nat, name: Seq<char>, times: Seq<u64>) -> Seq<char> {
    decimal(rank) + ordinal_suffix(rank) + ": "@ + name + ", "@ + summary(times) + "\n"@
}

/// The lines of the standings, in ranking order, ranks counted from 1.
pub open spec fn standing_lines(e: Seq<(Seq<char>, Seq<u64>)>) -> Seq<Seq<char>> {
    Seq::new(
        e.len(),
        |k: int|
            standing_line(
                (k + 1) as nat,
                e[ranking(e)[k].2 as int].0,
                e[ranking(e)[k].2 as int].1,
            ),
    )
}

/// The standings as one text.
pub open spec fn standings(e: Seq<(Seq<char>, Seq<u64>)>) -> Seq<char> {
    standing_lines(e).flatten()
}

/// Relies on ordinal's `Ordinal(n).suffix()`.
#[verifier::external_body]
fn suffix_of(n: usize) -> (r: &'static str)
    ensures
        r@ == ordinal_suffix(n as nat),
{
    ordinal::Ordinal(n).suffix()
}

/// Relies on itertools' `sorted` over integer triples: the same triples in
/// ascending lexicographic order.
#[verifier::external_body]
fn sort_items(v: Vec<(usize, u128, usize)>) -> (r: Vec<(usize, u128, usize)>)
    ensures
        r@.to_multiset() == v@.to_multiset(),
        sorted_by(r@, item_order()),
{
    v.into_iter().sorted().collect()
}

proof fn lemma_item_order_total()
    ensures
        total_ordering(item_order()),
{
}

/// The standings of a contest: one line per participant, more solves first,
/// then the lower mean time, ties in the order of first solve; each line
/// reads "<rank>: <name>, <summary>".
pub fn aggregates(contest_result: &IndexMap<String, ContestData>) -> (r: String)
    ensures
        r@ == standings(standing_entries(*contest_result)),
{
    let ghost e = standing_entries(*contest_result);
    let n = standings_len(contest_result);
    let mut items: Vec<(usize, u128, usize)> = Vec::new();
    let mut i: usize = 0;
    while i < n
        invariant
            n == e.len(),
            e == standing_entries(*contest_result),
            0 <= i <= n,
            items@ == rank_items(e).subrange(0, i as int),
        decreases n - i,
    {
        let (_, data) = standings_get_index(contest_result, i).unwrap();
        let key = data.key();
        items.push((key.0, key.1, i));
        assert(items@ =~= rank_items(e).subrange(0, i + 1));
        i = i + 1;
    }
    assert(items@ =~= rank_items(e));
    let sorted = sort_items(items);
    proof {
        lemma_item_order_total();
        rank_items(e).lemma_sort_by_ensures(item_order());
        lemma_sorted_unique(sorted@, ranking(e), item_order());
        broadcast use group_to_multiset_ensures;
        assert(sorted@.len() == sorted@.to_multiset().len());
        assert(items@.len() == items@.to_multiset().len());
    }
    let mut out = String::new();
    let mut k: usize = 0;
    while k < n
        invariant
            n == e.len(),
            e == standing_entries(*contest_result),
            sorted@ == ranking(e),
            sorted@.len() == n,
            0 <= k <= n,
            out@ == standing_lines(e).subrange(0, k as int).flatten(),
            forall|x: (usize, u128, usize)| ranking(e).contains(x) ==> rank_items(e).contains(x),
        decreases n - k,
    {
        let idx = sorted[k].2;
        proof {
            assert(ranking(e).contains(ranking(e)[k as int]));
            let j = choose|j: int| 0 <= j < rank_items(e).len() && rank_items(e)[j] == ranking(e)[k as int];
            assert(idx == j);
        }
        let (name, data) = standings_get_index(contest_result, idx).unwrap();
        let rank = k + 1;
        let line = number_text(rank as u128).concat(suffix_of(rank)).concat(": ").concat(
            name.as_str(),
        ).concat(", ").concat(data.as_string().as_str()).concat("\n");
        proof {
            let pre = standing_lines(e).subrange(0, k as int);
            assert(standing_lines(e).subrange(0, k + 1) =~= pre.push(line@));
            pre.lemma_flatten_push(line@);
        }
        out.append(line.as_str());
        k = k + 1;
    }
    assert(standing_lines(e).subrange(0, n as int) =~= standing_lines(e));
    out
}

} // verus!
