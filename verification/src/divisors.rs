//! The mathematical vocabulary of the judger: proper factors, primality and
//! the ascending list of factors that a composite verdict carries.

use vstd::prelude::*;

verus! {

/// `d` divides `n` and lies strictly between 1 and `n`.
pub open spec fn is_proper_factor(n: int, d: int) -> bool {
    1 < d < n && n % d == 0
}

/// `n` is greater than 1 and has no proper factor.
pub open spec fn is_prime(n: int) -> bool {
    n > 1 && forall|d: int| !is_proper_factor(n, d)
}

/// Every entry is smaller than each entry after it.
pub open spec fn strictly_ascending(s: Seq<int>) -> bool {
    forall|i: int, j: int| 0 <= i < j < s.len() ==> s[i] < s[j]
}

/// The factors `d` of `n` with `2 <= d < bound`, smallest first.
pub open spec fn factors_below(n: int, bound: int) -> Seq<int>
    decreases bound,
{
    if bound <= 2 {
        Seq::empty()
    } else if n % (bound - 1) == 0 {
        factors_below(n, bound - 1).push(bound - 1)
    } else {
        factors_below(n, bound - 1)
    }
}

/// The proper factors of `n`, smallest first.
pub open spec fn factor_seq(n: int) -> Seq<int> {
    factors_below(n, n)
}

/// `s` lists exactly the factors `d` of `n` with `2 <= d < bound`, smallest
/// first and each once.
pub open spec fn lists_factors_below(s: Seq<int>, n: int, bound: int) -> bool {
    &&& strictly_ascending(s)
    &&& forall|d: int| s.contains(d) <==> (2 <= d < bound && n % d == 0)
}

/// `factors_below` is ascending without repeats and holds exactly the
/// factors in its range.
pub proof fn lemma_factors_below_lists(n: int, bound: int)
    ensures
        lists_factors_below(factors_below(n, bound), n, bound),
    decreases bound,
{
    let s = factors_below(n, bound);
    if bound <= 2 {
        assert(s.len() == 0);
    } else {
        let d = bound - 1;
        let rest = factors_below(n, d);
        lemma_factors_below_lists(n, d);
        if n % d == 0 {
            assert(s == rest.push(d));
            assert forall|i: int, j: int| 0 <= i < j < s.len() implies s[i] < s[j] by {
                if j < rest.len() {
                    assert(s[i] == rest[i] && s[j] == rest[j]);
                } else {
                    assert(s[i] == rest[i]);
                    assert(rest.contains(rest[i]));
                }
            }
            assert forall|x: int| s.contains(x) <==> (2 <= x < bound && n % x == 0) by {
                if s.contains(x) {
                    let k = choose|k: int| 0 <= k < s.len() && s[k] == x;
                    if k < rest.len() {
                        assert(rest[k] == x);
                        assert(rest.contains(x));
                    }
                }
                if 2 <= x < bound && n % x == 0 {
                    if x == d {
                        assert(s[rest.len() as int] == d);
                    } else {
                        assert(rest.contains(x));
                        let k = choose|k: int| 0 <= k < rest.len() && rest[k] == x;
                        assert(s[k] == x);
                    }
                }
            }
        } else {
            assert(s == rest);
        }
    }
}

/// Only one sequence lists the factors below a bound: `factors_below`.
pub proof fn lemma_factor_list_unique(s: Seq<int>, n: int, bound: int)
    requires
        lists_factors_below(s, n, bound),
    ensures
        s == factors_below(n, bound),
    decreases bound,
{
    if bound <= 2 {
        if s.len() > 0 {
            assert(s.contains(s[0]));
        }
        assert(s =~= Seq::<int>::empty());
    } else {
        let d = bound - 1;
        if n % d == 0 {
            assert(s.contains(d));
            let k = choose|k: int| 0 <= k < s.len() && s[k] == d;
            if k < s.len() - 1 {
                assert(s.contains(s[s.len() - 1]));
            }
            assert(k == s.len() - 1);
            let front = s.drop_last();
            assert forall|x: int| front.contains(x) <==> (2 <= x < d && n % x == 0) by {
                if front.contains(x) {
                    let j = choose|j: int| 0 <= j < front.len() && front[j] == x;
                    assert(s[j] == x);
                    assert(s.contains(x));
                }
                if 2 <= x < d && n % x == 0 {
                    assert(s.contains(x));
                    let j = choose|j: int| 0 <= j < s.len() && s[j] == x;
                    assert(front[j] == x);
                }
            }
            assert(strictly_ascending(front));
            lemma_factor_list_unique(front, n, d);
            assert(s =~= front.push(d));
        } else {
            assert forall|x: int| s.contains(x) <==> (2 <= x < d && n % x == 0) by {}
            lemma_factor_list_unique(s, n, d);
        }
    }
}

} // verus!
