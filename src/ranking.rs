//! Ordering of a leaderboard: by total time, largest first, keeping the
//! earlier of two equal totals first.

use vstd::prelude::*;
use crate::models::{Stat, UserInfo, stats};

verus! {

/// Where `x` goes in `s`: before the first entry with a smaller total.
pub open spec fn slot(x: Stat, s: Seq<Stat>) -> nat
    decreases s.len(),
{
    if s.len() == 0 {
        0
    } else if x.1 > s[0].1 {
        0
    } else {
        1 + slot(x, s.drop_first())
    }
}

/// `s` with `x` placed before the first entry whose total is smaller.
pub open spec fn insert_ranked(x: Stat, s: Seq<Stat>) -> Seq<Stat> {
    s.insert(slot(x, s) as int, x)
}

/// The entries of `s` ordered by total, largest first; entries with equal
/// totals keep their order in `s`.
pub open spec fn ranked(s: Seq<Stat>) -> Seq<Stat>
    decreases s.len(),
{
    if s.len() == 0 {
        s
    } else {
        insert_ranked(s.last(), ranked(s.drop_last()))
    }
}

/// Totals never increase along `s`.
pub open spec fn is_ranked(s: Seq<Stat>) -> bool {
    forall|i: int, j: int| 0 <= i < j < s.len() ==> s[i].1 >= s[j].1
}

proof fn lemma_slot(x: Stat, s: Seq<Stat>)
    ensures
        slot(x, s) <= s.len(),
        forall|k: int| 0 <= k < slot(x, s) ==> s[k].1 >= x.1,
        slot(x, s) < s.len() ==> x.1 > s[slot(x, s) as int].1,
    decreases s.len(),
{
    if s.len() > 0 && x.1 <= s[0].1 {
        lemma_slot(x, s.drop_first());
        assert forall|k: int| 0 <= k < slot(x, s) implies s[k].1 >= x.1 by {
            if k > 0 {
                assert(s[k] == s.drop_first()[k - 1]);
            }
        }
    }
}

proof fn lemma_slot_unique(x: Stat, s: Seq<Stat>, j: int)
    requires
        0 <= j <= s.len(),
        forall|k: int| 0 <= k < j ==> s[k].1 >= x.1,
        j < s.len() ==> x.1 > s[j].1,
    ensures
        slot(x, s) == j,
    decreases s.len(),
{
    if s.len() > 0 && j > 0 {
        assert(s[0].1 >= x.1);
        assert forall|k: int| 0 <= k < j - 1 implies s.drop_first()[k].1 >= x.1 by {
            assert(s.drop_first()[k] == s[k + 1]);
        }
        lemma_slot_unique(x, s.drop_first(), j - 1);
    }
}

/// Ranking keeps every entry, each as often as before.
pub proof fn lemma_ranked_permutes(s: Seq<Stat>)
    ensures
        ranked(s).to_multiset() == s.to_multiset(),
    decreases s.len(),
{
    broadcast use vstd::seq_lib::to_multiset_build, vstd::seq_lib::to_multiset_insert;

    if s.len() > 0 {
        lemma_ranked_permutes(s.drop_last());
        lemma_slot(s.last(), ranked(s.drop_last()));
        assert(s.drop_last().push(s.last()) =~= s);
    }
}

/// A ranked sequence has non-increasing totals.
pub proof fn lemma_ranked_sorted(s: Seq<Stat>)
    ensures
        is_ranked(ranked(s)),
        ranked(s).len() == s.len(),
    decreases s.len(),
{
    if s.len() > 0 {
        let r = ranked(s.drop_last());
        let x = s.last();
        lemma_ranked_sorted(s.drop_last());
        lemma_slot(x, r);
        let p = slot(x, r) as int;
        let t = r.insert(p, x);
        assert forall|i: int, j: int| 0 <= i < j < t.len() implies t[i].1 >= t[j].1 by {
            if j < p {
            } else if j == p {
            } else if i < p {
                assert(t[j] == r[j - 1]);
            } else if i == p {
                assert(t[j] == r[j - 1]);
                assert(r[p].1 >= r[j - 1].1);
            } else {
                assert(t[i] == r[i - 1]);
                assert(t[j] == r[j - 1]);
            }
        }
    }
}

/// Orders statistics by total time, largest first, keeping the order of equal totals.
pub fn rank(v: &Vec<UserInfo>) -> (r: Vec<UserInfo>)
    ensures
        stats(r@) == ranked(stats(v@)),
{
    let mut out: Vec<UserInfo> = Vec::new();
    let mut i: usize = 0;
    while i < v.len()
        invariant
            i <= v@.len(),
            stats(out@) == ranked(stats(v@.subrange(0, i as int))),
        decreases v@.len() - i,
    {
        let x = v[i].duplicate();
        let mut j: usize = 0;
        while j < out.len() && !(x.total_seconds > out[j].total_seconds)
            invariant
                j <= out@.len(),
                forall|k: int| 0 <= k < j ==> out@[k].total_seconds >= x.total_seconds,
            decreases out@.len() - j,
        {
            j = j + 1;
        }
        let ghost before = stats(out@);
        proof {
            assert forall|k: int| 0 <= k < j implies before[k].1 >= x@.1 by {
                assert(before[k] == out@[k]@);
            }
            lemma_slot_unique(x@, before, j as int);
            let pre = stats(v@.subrange(0, i as int));
            let next = stats(v@.subrange(0, i + 1));
            assert(next.drop_last() =~= pre);
            assert(next.last() == x@);
        }
        out.insert(j, x);
        proof {
            assert(stats(out@) =~= before.insert(j as int, x@));
        }
        i = i + 1;
    }
    proof {
        assert(v@.subrange(0, v@.len() as int) =~= v@);
    }
    out
}

} // verus!
