//! Hints: the first graphemes of the answer, or graphemes at random
//! positions with the others masked.
use vstd::prelude::*;
use vstd::string::*;
use crate::random::sample_indices;
use crate::text::{concat_all, join_all, views};

verus! {

/// A hint request: the first `n` graphemes, or `n` graphemes at random
/// positions.
#[derive(Debug, Clone, Copy, PartialEq, Eq, Structural)]
pub enum Hint {
    First(usize),
    Random(usize),
}

impl Hint {
    /// The number of graphemes asked for.
    pub open spec fn count(self) -> nat {
        match self {
            Hint::First(n) => n as nat,
            Hint::Random(n) => n as nat,
        }
    }
}

/// What a hint request amounts to on an answer of a given length.
#[derive(Debug, Clone, Copy, PartialEq, Eq, Structural)]
pub enum HintVerdict {
    /// Zero graphemes: refused.
    ZeroLength,
    /// All graphemes, or all but one: taken as giving up.
    GivesUp,
    /// More graphemes than the answer has: refused.
    TooLong,
    /// A hint can be given.
    Valid,
}

/// The verdict on a hint of `n` graphemes for an answer of `len` graphemes.
/// The checks go in this order.
pub open spec fn hint_verdict(n: nat, len: nat) -> HintVerdict {
    if n == 0 {
        HintVerdict::ZeroLength
    } else if n == len || n + 1 == len {
        HintVerdict::GivesUp
    } else if n > len {
        HintVerdict::TooLong
    } else {
        HintVerdict::Valid
    }
}

pub fn check_hint(n: usize, len: usize) -> (r: HintVerdict)
    ensures
        r == hint_verdict(n as nat, len as nat),
{
    if n == 0 {
        HintVerdict::ZeroLength
    } else if n == len || n as u128 + 1 == len as u128 {
        HintVerdict::GivesUp
    } else if n > len {
        HintVerdict::TooLong
    } else {
        HintVerdict::Valid
    }
}

/// The answer with only the graphemes at `positions` shown, each other one
/// replaced by "*".
pub open spec fn masked(g: Seq<Seq<char>>, positions: Seq<usize>) -> Seq<Seq<char>> {
    Seq::new(
        g.len(),
        |i: int|
            if positions.contains(i as usize) {
                g[i]
            } else {
                "*"@
            },
    )
}

/// The positions that a mask shows.
pub open spec fn shown(len: nat, positions: Seq<usize>) -> Set<usize> {
    Set::new(|i: usize| i < len && positions.contains(i))
}

/// The first `n` graphemes, joined.
pub fn first_graphemes(g: &Vec<String>, n: usize) -> (r: String)
    requires
        n <= g@.len(),
    ensures
        r@ == concat_all(views(g@).take(n as int)),
{
    let mut prefix: Vec<String> = Vec::new();
    let mut i: usize = 0;
    while i < n
        invariant
            n <= g@.len(),
            0 <= i <= n,
            views(prefix@) == views(g@).take(i as int),
        decreases n - i,
    {
        let ghost before = prefix@;
        prefix.push(g[i].clone());
        assert(views(prefix@) =~= views(before).push(g@[i as int]@));
        assert(views(prefix@) =~= views(g@).take(i + 1));
        i = i + 1;
    }
    join_all(&prefix)
}

/// The answer's graphemes with those at `positions` shown and the others
/// masked, joined.
pub fn masked_graphemes(g: &Vec<String>, positions: &Vec<usize>) -> (r: String)
    ensures
        r@ == concat_all(masked(views(g@), positions@)),
{
    let mut out: Vec<String> = Vec::new();
    let mut i: usize = 0;
    while i < g.len()
        invariant
            0 <= i <= g@.len(),
            views(out@) == masked(views(g@), positions@).take(i as int),
        decreases g@.len() - i,
    {
        let mut show = false;
        let mut j: usize = 0;
        while j < positions.len()
            invariant
                0 <= j <= positions@.len(),
                show == positions@.take(j as int).contains(i),
            decreases positions@.len() - j,
        {
            if positions[j] == i {
                show = true;
            }
            proof {
                let pre = positions@.take(j as int);
                let post = positions@.take(j + 1);
                assert(post =~= pre.push(positions@[j as int]));
                if pre.contains(i) {
                    let k = choose|k: int| 0 <= k < pre.len() && pre[k] == i;
                    assert(post[k] == i);
                }
                if post.contains(i) {
                    let k = choose|k: int| 0 <= k < post.len() && post[k] == i;
                    if k < pre.len() {
                        assert(pre[k] == i);
                    }
                }
                if positions@[j as int] == i {
                    assert(post[j as int] == i);
                }
            }
            j = j + 1;
        }
        assert(positions@.take(positions@.len() as int) =~= positions@);
        let ghost before = out@;
        if show {
            out.push(g[i].clone());
        } else {
            out.push(String::from_str("*"));
        }
        assert(views(out@) =~= views(before).push(out@[i as int]@));
        assert(views(out@) =~= masked(views(g@), positions@).take(i + 1));
        i = i + 1;
    }
    assert(masked(views(g@), positions@).take(g@.len() as int) =~= masked(views(g@), positions@));
    join_all(&out)
}

/// `n` distinct positions below `len`, drawn uniformly at random.
pub fn random_positions(len: usize, n: usize) -> (r: Vec<usize>)
    requires
        n <= len,
    ensures
        r@.len() == n,
        r@.no_duplicates(),
        forall|i: int| 0 <= i < r@.len() ==> #[trigger] r@[i] < len,
        shown(len as nat, r@).len() == n,
{
    let r = sample_indices(len, n);
    proof {
        lemma_shown_count(len as nat, r@);
    }
    r
}

/// A mask over `n` distinct positions below the answer's length shows
/// exactly `n` positions.
pub proof fn lemma_shown_count(len: nat, positions: Seq<usize>)
    requires
        positions.no_duplicates(),
        forall|i: int| 0 <= i < positions.len() ==> #[trigger] positions[i] < len,
    ensures
        shown(len, positions).len() == positions.len(),
        shown(len, positions).finite(),
{
    assert(shown(len, positions) =~= positions.to_set());
    positions.unique_seq_to_set();
}

} // verus!
