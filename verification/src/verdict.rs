//! The verdict on one integer and the trial division that reaches it.

use vstd::prelude::*;
use vstd::arithmetic::div_mod::*;
use vstd::seq_lib::*;
use crate::arrange::{as_ints, ascending, without_repeats, lemma_without_repeats_of_ascending,
    sort_ascending, remove_repeats};
use crate::divisors::{is_proper_factor, is_prime, factor_seq, lists_factors_below,
    strictly_ascending, lemma_factors_below_lists, lemma_factor_list_unique};

verus! {

/// How an integer was classified.
#[derive(Debug, PartialEq, Eq)]
pub enum Verdict {
    /// Nothing has been judged yet.
    Unjudged,
    /// The number is 1 or less: neither prime nor composite.
    Invalid,
    /// The number has no factor besides 1 and itself.
    Prime,
    /// The number's factors besides 1 and itself, ascending, each once.
    Composite(Vec<i64>),
}

/// A verdict as a mathematical value.
pub enum VerdictModel {
    Unjudged,
    Invalid,
    Prime,
    Composite(Seq<int>),
}

impl View for Verdict {
    type V = VerdictModel;

    open spec fn view(&self) -> VerdictModel {
        match self {
            Verdict::Unjudged => VerdictModel::Unjudged,
            Verdict::Invalid => VerdictModel::Invalid,
            Verdict::Prime => VerdictModel::Prime,
            Verdict::Composite(factors) => VerdictModel::Composite(as_ints(factors@)),
        }
    }
}

impl Clone for Verdict {
    fn clone(&self) -> (copy: Self)
        ensures
            copy@ == self@,
    {
        match self {
            Verdict::Unjudged => Verdict::Unjudged,
            Verdict::Invalid => Verdict::Invalid,
            Verdict::Prime => Verdict::Prime,
            Verdict::Composite(factors) => Verdict::Composite(factors.clone()),
        }
    }
}

/// The verdict that `n` deserves.
pub open spec fn verdict_of(n: int) -> VerdictModel {
    if n <= 1 {
        VerdictModel::Invalid
    } else if factor_seq(n).len() == 0 {
        VerdictModel::Prime
    } else {
        VerdictModel::Composite(factor_seq(n))
    }
}

/// What each class of verdict says of `n`: outside the domain exactly when
/// `n` is 1 or less, prime exactly when `n` is prime, and otherwise composite
/// with the proper factors of `n`, ascending and each once. A number is
/// never left unjudged.
pub proof fn lemma_verdict_classes(n: int)
    ensures
        verdict_of(n) !is Unjudged,
        verdict_of(n) is Invalid <==> n <= 1,
        verdict_of(n) is Prime <==> is_prime(n),
        verdict_of(n) matches VerdictModel::Composite(factors) ==> {
            &&& factors.len() > 0
            &&& strictly_ascending(factors)
            &&& forall|d: int| factors.contains(d) <==> is_proper_factor(n, d)
        },
{
    lemma_factors_below_lists(n, n);
    let factors = factor_seq(n);
    if n > 1 {
        if factors.len() == 0 {
            assert forall|d: int| !is_proper_factor(n, d) by {
                if is_proper_factor(n, d) {
                    assert(factors.contains(d));
                }
            }
        } else {
            assert(factors.contains(factors[0]));
            assert(is_proper_factor(n, factors[0]));
        }
    }
}

/// Judging is repeatable: two verdicts on the same number are the same
/// verdict.
pub proof fn lemma_judge_repeatable(n: i64, first: Verdict, second: Verdict)
    requires
        first@ == verdict_of(n as int),
        second@ == verdict_of(n as int),
    ensures
        first@ == second@,
        first is Composite ==> second is Composite && first->Composite_0@ == second->Composite_0@,
{
    if first is Composite {
        let a = first->Composite_0@;
        let b = second->Composite_0@;
        assert(as_ints(a) == as_ints(b));
        assert forall|k: int| 0 <= k < a.len() implies a[k] == b[k] by {
            assert(as_ints(a)[k] == a[k] as int);
            assert(as_ints(b)[k] == b[k] as int);
        }
        assert(as_ints(a).len() == a.len());
        assert(as_ints(b).len() == b.len());
        assert(a =~= b);
    }
}

/// A proper factor `d` of `n` comes with its complement `n / d`, which is a
/// proper factor too and whose own complement is `d`.
pub proof fn lemma_complement(n: int, d: int)
    requires
        is_proper_factor(n, d),
    ensures
        is_proper_factor(n, n / d),
        d * (n / d) == n,
        n / (n / d) == d,
{
    let e = n / d;
    lemma_fundamental_div_mod(n, d);
    assert(n == d * e);
    assert(e > 1) by (nonlinear_arith)
        requires
            n == d * e,
            1 < d < n,
    ;
    assert(e < n) by (nonlinear_arith)
        requires
            n == d * e,
            1 < d,
            e > 1,
    ;
    lemma_mod_multiples_basic(d, e);
    lemma_div_multiples_vanish(d, e);
    assert(d * e == e * d) by (nonlinear_arith);
}

/// Once the square of `i` exceeds `n`, each proper factor of `n` is below
/// `i` or has its complement below `i`.
pub proof fn lemma_small_side(n: int, i: int, d: int)
    requires
        is_proper_factor(n, d),
        0 <= i,
        i * i > n,
    ensures
        d < i || n / d < i,
{
    let e = n / d;
    lemma_complement(n, d);
    if d >= i && e >= i {
        assert(d * e >= i * i) by (nonlinear_arith)
            requires
                d >= i,
                e >= i,
                i >= 0,
        ;
    }
}

/// Whether the square of `i` is at most `n`, computed without overflow.
fn square_at_most(i: i64, n: i64) -> (within: bool)
    requires
        0 <= i,
    ensures
        within == (i * i <= n),
{
    assert(0 <= i * i <= 0x7fff_ffff_ffff_ffff * 0x7fff_ffff_ffff_ffff) by (nonlinear_arith)
        requires
            0 <= i <= 0x7fff_ffff_ffff_ffff,
    ;
    (i as i128) * (i as i128) <= n as i128
}

/// Every entry of `found` is a proper factor of `n`, and every proper
/// factor that is below `i`, or whose complement is, has been found.
spec fn scanned(found: Seq<i64>, n: int, i: int) -> bool {
    &&& forall|k: int| 0 <= k < found.len() ==> is_proper_factor(n, #[trigger] found[k] as int)
    &&& forall|d: i64|
        is_proper_factor(n, d as int) && (d < i || n / (d as int) < i) ==> #[trigger] found.contains(d)
}

/// Sorting the scanned factors and dropping repeats gives the factor list.
proof fn lemma_arranged(found: Seq<i64>, sorted: Seq<i64>, n: i64, i: int)
    requires
        scanned(found, n as int, i),
        0 <= i,
        i * i > n,
        ascending(sorted),
        sorted.to_multiset() == found.to_multiset(),
    ensures
        as_ints(without_repeats(sorted)) == factor_seq(n as int),
{
    let kept = without_repeats(sorted);
    let list = as_ints(kept);
    lemma_without_repeats_of_ascending(sorted);
    assert forall|x: i64| sorted.contains(x) <==> found.contains(x) by {
        to_multiset_contains(sorted, x);
        to_multiset_contains(found, x);
    }
    assert forall|d: int| list.contains(d) <==> (2 <= d < n && n as int % d == 0) by {
        if list.contains(d) {
            let k = choose|k: int| 0 <= k < list.len() && list[k] == d;
            assert(kept[k] as int == d);
            assert(kept.contains(kept[k]));
            assert(found.contains(kept[k]));
            let j = choose|j: int| 0 <= j < found.len() && found[j] == kept[k];
            assert(is_proper_factor(n as int, found[j] as int));
        }
        if 2 <= d < n && n as int % d == 0 {
            lemma_small_side(n as int, i, d);
            let x = d as i64;
            assert(found.contains(x));
            assert(kept.contains(x));
            let k = choose|k: int| 0 <= k < kept.len() && kept[k] == x;
            assert(list[k] == d);
        }
    }
    assert(lists_factors_below(list, n as int, n as int));
    lemma_factor_list_unique(list, n as int, n as int);
}

/// Judges `input`: outside the domain when it is 1 or less, else prime or
/// composite by trial division up to its square root.
pub fn judge(input: i64) -> (verdict: Verdict)
    ensures
        verdict@ == verdict_of(input as int),
        verdict@ !is Unjudged,
        verdict@ is Invalid <==> input <= 1,
        verdict@ is Prime <==> is_prime(input as int),
{
    proof {
        lemma_verdict_classes(input as int);
    }
    if input <= 1 {
        return Verdict::Invalid;
    }
    let ghost n = input as int;
    let mut found: Vec<i64> = Vec::new();
    let mut i: i64 = 2;
    proof {
        assert forall|d: i64| is_proper_factor(n, d as int) implies n / (d as int) >= 2 by {
            lemma_complement(n, d as int);
        }
    }
    while square_at_most(i, input)
        invariant
            2 <= i <= input,
            n == input,
            scanned(found@, n, i as int),
        decreases input - i,
    {
        let ghost before = found@;
        assert(i < input) by (nonlinear_arith)
            requires
                2 <= i,
                i * i <= input,
        ;
        if input % i == 0 {
            proof {
                lemma_complement(n, i as int);
            }
            found.push(i);
            let complement = input / i;
            if complement != i {
                found.push(complement);
            }
        }
        proof {
            let now = found@;
            assert forall|x: i64| before.contains(x) implies now.contains(x) by {
                let k = choose|k: int| 0 <= k < before.len() && before[k] == x;
                assert(now[k] == x);
            }
            assert forall|d: i64|
                is_proper_factor(n, d as int) && (d < i + 1 || n / (d as int) < i + 1) implies now.contains(
                d,
            ) by {
                lemma_complement(n, d as int);
                if d < i || n / (d as int) < i {
                    assert(before.contains(d));
                } else if d == i {
                    assert(now[before.len() as int] == d);
                } else {
                    assert(n / (d as int) == i);
                    assert(n % (i as int) == 0);
                    assert(n / (i as int) == d);
                    assert(now[before.len() as int + 1] == d);
                }
            }
        }
        i += 1;
    }
    let ghost scanned_list = found@;
    sort_ascending(&mut found);
    let ghost sorted = found@;
    remove_repeats(&mut found);
    proof {
        lemma_arranged(scanned_list, sorted, input, i as int);
    }
    if found.is_empty() {
        Verdict::Prime
    } else {
        Verdict::Composite(found)
    }
}

} // verus!
