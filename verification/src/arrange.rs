//! Putting a list of numbers in order and dropping its repeats.

use vstd::prelude::*;
use vstd::seq_lib::*;

verus! {

/// The entries of `s` read as mathematical integers.
pub open spec fn as_ints(s: Seq<i64>) -> Seq<int> {
    s.map_values(|x: i64| x as int)
}

/// No entry is larger than an entry after it.
pub open spec fn ascending(s: Seq<i64>) -> bool {
    forall|i: int, j: int| 0 <= i <= j < s.len() ==> s[i] <= s[j]
}

/// `s` with every run of equal neighbours shortened to one entry.
pub open spec fn without_repeats(s: Seq<i64>) -> Seq<i64>
    decreases s.len(),
{
    if s.len() <= 1 {
        s
    } else if s[s.len() - 2] == s.last() {
        without_repeats(s.drop_last())
    } else {
        without_repeats(s.drop_last()).push(s.last())
    }
}

/// Dropping the repeats of an ascending list leaves the same numbers, each
/// once, still in order.
pub proof fn lemma_without_repeats_of_ascending(s: Seq<i64>)
    requires
        ascending(s),
    ensures
        forall|i: int, j: int|
            0 <= i < j < without_repeats(s).len() ==> without_repeats(s)[i] < without_repeats(s)[j],
        forall|x: i64| without_repeats(s).contains(x) <==> s.contains(x),
        s.len() > 0 ==> without_repeats(s).len() > 0 && without_repeats(s).last() == s.last(),
    decreases s.len(),
{
    let r = without_repeats(s);
    if s.len() <= 1 {
    } else {
        let front = s.drop_last();
        let rf = without_repeats(front);
        let last = s.last();
        assert(ascending(front));
        lemma_without_repeats_of_ascending(front);
        assert(front.last() == s[s.len() - 2]);
        assert forall|x: i64| s.contains(x) <==> (front.contains(x) || x == last) by {
            if s.contains(x) {
                let k = choose|k: int| 0 <= k < s.len() && s[k] == x;
                if k < front.len() {
                    assert(front[k] == x);
                }
            }
            if front.contains(x) {
                let k = choose|k: int| 0 <= k < front.len() && front[k] == x;
                assert(s[k] == x);
            }
            if x == last {
                assert(s[s.len() - 1] == x);
            }
        }
        if s[s.len() - 2] == last {
            assert(r == rf);
            assert(front.contains(front.last()));
        } else {
            assert(r == rf.push(last));
            assert(s[s.len() - 2] < last);
            assert forall|i: int, j: int| 0 <= i < j < r.len() implies r[i] < r[j] by {
                if j < rf.len() {
                    assert(r[i] == rf[i] && r[j] == rf[j]);
                } else {
                    assert(r[i] == rf[i]);
                    assert(rf[i] <= rf.last());
                }
            }
            assert forall|x: i64| r.contains(x) <==> (rf.contains(x) || x == last) by {
                if r.contains(x) {
                    let k = choose|k: int| 0 <= k < r.len() && r[k] == x;
                    if k < rf.len() {
                        assert(rf[k] == x);
                    }
                }
                if rf.contains(x) {
                    let k = choose|k: int| 0 <= k < rf.len() && rf[k] == x;
                    assert(r[k] == x);
                }
                if x == last {
                    assert(r[r.len() - 1] == x);
                }
            }
        }
    }
}

/// Sorts `v` in ascending order.
pub fn sort_ascending(v: &mut Vec<i64>)
    ensures
        ascending(final(v)@),
        final(v)@.to_multiset() == old(v)@.to_multiset(),
{
    let mut sorted: Vec<i64> = Vec::new();
    let mut k: usize = 0;
    assert(v@.take(0) =~= Seq::<i64>::empty());
    while k < v.len()
        invariant
            k <= v.len(),
            v@ == old(v)@,
            ascending(sorted@),
            sorted@.to_multiset() == v@.take(k as int).to_multiset(),
        decreases v.len() - k,
    {
        let x = v[k];
        let mut p: usize = 0;
        while p < sorted.len() && sorted[p] <= x
            invariant
                p <= sorted.len(),
                ascending(sorted@),
                forall|j: int| 0 <= j < p ==> sorted[j] <= x,
            decreases sorted.len() - p,
        {
            p += 1;
        }
        proof {
            let before = sorted@;
            let after = before.insert(p as int, x);
            to_multiset_insert(before, p as int, x);
            assert(v@.take(k + 1) =~= v@.take(k as int).push(x));
            to_multiset_build(v@.take(k as int), x);
            assert forall|i: int, j: int| 0 <= i <= j < after.len() implies after[i] <= after[j] by {
                if j < p {
                    assert(after[i] == before[i] && after[j] == before[j]);
                } else if j == p {
                    if i < p {
                        assert(after[i] == before[i]);
                    }
                } else {
                    assert(after[j] == before[j - 1]);
                    assert(x < before[p as int]);
                    if i < p {
                        assert(after[i] == before[i]);
                    } else if i == p {
                    } else {
                        assert(after[i] == before[i - 1]);
                    }
                }
            }
        }
        sorted.insert(p, x);
        k += 1;
    }
    assert(v@.take(k as int) =~= v@);
    *v = sorted;
}

/// Removes consecutive repeated numbers from `v`, keeping the first of each
/// run.
pub fn remove_repeats(v: &mut Vec<i64>)
    ensures
        final(v)@ == without_repeats(old(v)@),
{
    let mut kept: Vec<i64> = Vec::new();
    let mut k: usize = 0;
    assert(v@.take(0) =~= Seq::<i64>::empty());
    while k < v.len()
        invariant
            k <= v.len(),
            v@ == old(v)@,
            kept@ == without_repeats(v@.take(k as int)),
        decreases v.len() - k,
    {
        let x = v[k];
        proof {
            let next = v@.take(k + 1);
            assert(next.drop_last() =~= v@.take(k as int));
            assert(next.last() == x);
            if k > 0 {
                assert(next[next.len() - 2] == v@[k - 1]);
            } else {
                assert(next =~= seq![x]);
                assert(kept@ =~= Seq::<i64>::empty());
            }
        }
        if k == 0 || v[k - 1] != x {
            kept.push(x);
        }
        assert(kept@ =~= without_repeats(v@.take(k + 1)));
        k += 1;
    }
    assert(v@.take(k as int) =~= v@);
    *v = kept;
}

} // verus!
