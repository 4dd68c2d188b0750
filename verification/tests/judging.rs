use prime_number_judger::arrange::{remove_repeats, sort_ascending};
use prime_number_judger::verdict::{judge, Verdict};

#[test]
fn numbers_up_to_one_are_invalid() {
    for n in [1i64, 0, -1, -2, -97, -1024, i64::MIN] {
        assert_eq!(judge(n), Verdict::Invalid);
    }
}

#[test]
fn two_and_three_are_prime() {
    assert_eq!(judge(2), Verdict::Prime);
    assert_eq!(judge(3), Verdict::Prime);
}

#[test]
fn four_has_the_single_factor_two() {
    assert_eq!(judge(4), Verdict::Composite(vec![2]));
}

#[test]
fn twelve_has_factors_two_three_four_six() {
    assert_eq!(judge(12), Verdict::Composite(vec![2, 3, 4, 6]));
}

#[test]
fn ninety_seven_is_prime() {
    assert_eq!(judge(97), Verdict::Prime);
}

#[test]
fn the_default_input_is_composite() {
    assert_eq!(
        judge(1024),
        Verdict::Composite(vec![2, 4, 8, 16, 32, 64, 128, 256, 512])
    );
}

#[test]
fn a_perfect_square_lists_its_root_once() {
    assert_eq!(judge(49), Verdict::Composite(vec![7]));
    assert_eq!(judge(36), Verdict::Composite(vec![2, 3, 4, 6, 9, 12, 18]));
}

#[test]
fn a_product_of_two_primes_lists_both() {
    assert_eq!(judge(15), Verdict::Composite(vec![3, 5]));
    assert_eq!(judge(1_000_000_007 * 3), Verdict::Composite(vec![3, 1_000_000_007]));
}

#[test]
fn a_large_prime_is_prime() {
    assert_eq!(judge(1_000_000_007), Verdict::Prime);
    assert_eq!(judge(2_147_483_647), Verdict::Prime);
}

#[test]
fn judging_never_leaves_a_number_unjudged() {
    for n in -5i64..200 {
        assert_ne!(judge(n), Verdict::Unjudged);
    }
}

#[test]
fn factors_agree_with_plain_division() {
    for n in 2i64..400 {
        let expected: Vec<i64> = (2..n).filter(|d| n % d == 0).collect();
        let verdict = judge(n);
        if expected.is_empty() {
            assert_eq!(verdict, Verdict::Prime);
        } else {
            assert_eq!(verdict, Verdict::Composite(expected));
        }
    }
}

#[test]
fn judging_twice_gives_the_same_verdict() {
    for n in [-3i64, 0, 1, 2, 12, 97, 1024, 999_983, 1_000_000] {
        assert_eq!(judge(n), judge(n));
    }
}

#[test]
fn sorting_orders_and_keeps_every_entry() {
    let mut v = vec![6i64, 2, 4, 3, 2, -1, 6];
    sort_ascending(&mut v);
    assert_eq!(v, vec![-1, 2, 2, 3, 4, 6, 6]);
    let mut empty: Vec<i64> = Vec::new();
    sort_ascending(&mut empty);
    assert!(empty.is_empty());
    let mut extremes = vec![i64::MAX, 0, i64::MIN];
    sort_ascending(&mut extremes);
    assert_eq!(extremes, vec![i64::MIN, 0, i64::MAX]);
}

#[test]
fn removing_repeats_shortens_each_run_to_one() {
    let mut v = vec![2i64, 2, 3, 4, 4, 4, 6];
    remove_repeats(&mut v);
    assert_eq!(v, vec![2, 3, 4, 6]);
    let mut unsorted = vec![1i64, 1, 2, 1, 1];
    remove_repeats(&mut unsorted);
    assert_eq!(unsorted, vec![1, 2, 1]);
    let mut single = vec![5i64];
    remove_repeats(&mut single);
    assert_eq!(single, vec![5]);
    let mut empty: Vec<i64> = Vec::new();
    remove_repeats(&mut empty);
    assert!(empty.is_empty());
}

#[test]
fn a_cloned_verdict_equals_its_source() {
    for n in [-1i64, 2, 12, 1024] {
        let verdict = judge(n);
        assert_eq!(verdict.clone(), verdict);
    }
    assert_eq!(Verdict::Unjudged.clone(), Verdict::Unjudged);
}
