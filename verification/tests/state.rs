use prime_number_judger::display::display_text;
use prime_number_judger::judger::{PrimeNumberJudger, DEFAULT_INPUT};
use prime_number_judger::text::{comma_separated_text, decimal_text, push_decimal, push_decimal_nat};
use prime_number_judger::verdict::{judge, Verdict};

#[test]
fn a_fresh_judger_has_judged_nothing() {
    let judger = PrimeNumberJudger::default();
    assert_eq!(DEFAULT_INPUT, 1024);
    assert_eq!(judger.input(), 1024);
    assert_eq!(judger.previous_input(), 0);
    assert!(!judger.has_judged());
    assert_eq!(judger.shown(), Verdict::Unjudged);
    assert_eq!(
        judger.project_address(),
        "https://github.com/Daihongyi/prime-number-judger"
    );
}

#[test]
fn judging_stores_the_verdict_of_the_input() {
    let mut judger = PrimeNumberJudger::default();
    judger.set_input(12);
    judger.judge();
    assert!(judger.has_judged());
    assert_eq!(judger.previous_input(), 12);
    assert_eq!(judger.input(), 12);
    assert_eq!(judger.shown(), Verdict::Composite(vec![2, 3, 4, 6]));
    assert_eq!(judger.shown(), judge(12));
}

#[test]
fn editing_the_input_makes_the_verdict_stale() {
    let mut judger = PrimeNumberJudger::default();
    judger.set_input(97);
    judger.judge();
    assert_eq!(judger.shown(), Verdict::Prime);
    assert!(judger.has_judged());
    judger.set_input(98);
    assert!(!judger.has_judged());
    assert_eq!(judger.shown(), Verdict::Unjudged);
    assert_eq!(judger.previous_input(), 97);
    judger.refresh();
    assert!(!judger.has_judged());
    assert_eq!(judger.shown(), Verdict::Unjudged);
    judger.set_input(97);
    judger.refresh();
    assert!(!judger.has_judged());
    assert_eq!(judger.shown(), Verdict::Unjudged);
    judger.judge();
    assert!(judger.has_judged());
    assert_eq!(judger.shown(), Verdict::Prime);
}

#[test]
fn an_edit_after_the_first_judgment_clears_the_flag() {
    let mut judger = PrimeNumberJudger::default();
    judger.judge();
    assert!(judger.has_judged());
    judger.set_input(5);
    assert!(!judger.has_judged());
    assert_eq!(judger.shown(), Verdict::Unjudged);
    assert_eq!(judger.input(), 5);
    assert_eq!(judger.previous_input(), 1024);
}

#[test]
fn an_edit_to_the_same_number_keeps_the_verdict() {
    let mut judger = PrimeNumberJudger::default();
    judger.set_input(12);
    judger.judge();
    judger.set_input(12);
    assert!(judger.has_judged());
    assert_eq!(judger.shown(), Verdict::Composite(vec![2, 3, 4, 6]));
    assert_eq!(judger.update(12, false), Verdict::Composite(vec![2, 3, 4, 6]));
    assert!(judger.has_judged());
}

#[test]
fn the_prompt_is_shown_exactly_while_the_flag_is_down() {
    let mut judger = PrimeNumberJudger::default();
    let frames = [
        (1024i64, false),
        (1024, true),
        (1024, false),
        (7, false),
        (1024, false),
        (7, true),
        (8, true),
        (8, false),
        (0, false),
        (0, true),
    ];
    for (input, judge_requested) in frames {
        let shown = judger.update(input, judge_requested);
        assert_eq!(shown == Verdict::Unjudged, !judger.has_judged());
        if judger.has_judged() {
            assert_eq!(judger.input(), judger.previous_input());
            assert_eq!(shown, judge(input));
        }
    }
}

#[test]
fn a_refresh_without_an_edit_keeps_the_verdict() {
    let mut judger = PrimeNumberJudger::default();
    judger.judge();
    judger.refresh();
    assert!(judger.has_judged());
    assert_eq!(judger.previous_input(), 1024);
    assert_eq!(judger.shown(), judge(1024));
}

#[test]
fn frames_follow_edits_and_requests() {
    let mut judger = PrimeNumberJudger::default();
    assert_eq!(judger.update(1024, false), Verdict::Unjudged);
    assert_eq!(judger.update(4, true), Verdict::Composite(vec![2]));
    assert_eq!(judger.update(4, false), Verdict::Composite(vec![2]));
    assert!(judger.has_judged());
    assert_eq!(judger.update(5, false), Verdict::Unjudged);
    assert!(!judger.has_judged());
    assert_eq!(judger.input(), 5);
    assert_eq!(judger.update(4, false), Verdict::Unjudged);
    assert!(!judger.has_judged());
    assert_eq!(judger.previous_input(), 4);
    assert_eq!(judger.update(1, true), Verdict::Invalid);
    assert_eq!(judger.previous_input(), 1);
    assert_eq!(judger.update(7, true), Verdict::Prime);
    assert_eq!(judger.input(), 7);
}

#[test]
fn decimal_text_matches_the_number() {
    assert_eq!(decimal_text(0), "0");
    assert_eq!(decimal_text(7), "7");
    assert_eq!(decimal_text(10), "10");
    assert_eq!(decimal_text(1024), "1024");
    assert_eq!(decimal_text(-40), "-40");
    assert_eq!(decimal_text(i64::MAX), "9223372036854775807");
    assert_eq!(decimal_text(i64::MIN), "-9223372036854775808");
    for n in -1200i64..1200 {
        assert_eq!(decimal_text(n), format!("{}", n));
    }
}

#[test]
fn pushing_decimals_appends_to_the_text() {
    let mut text = String::from("n = ");
    push_decimal(&mut text, -5);
    assert_eq!(text, "n = -5");
    push_decimal_nat(&mut text, 18_446_744_073_709_551_615);
    assert_eq!(text, "n = -518446744073709551615");
    push_decimal_nat(&mut text, 0);
    assert_eq!(text, "n = -5184467440737095516150");
}

#[test]
fn factor_lists_are_comma_separated() {
    assert_eq!(comma_separated_text(&vec![]), "");
    assert_eq!(comma_separated_text(&vec![2]), "2");
    assert_eq!(comma_separated_text(&vec![2, 3, 4, 6]), "2, 3, 4, 6");
    assert_eq!(comma_separated_text(&vec![-1, 0, 100]), "-1, 0, 100");
}

#[test]
fn each_verdict_has_its_lines() {
    assert_eq!(
        display_text(&Verdict::Unjudged, 1024),
        vec!["Click 'Judge' to check the number".to_string()]
    );
    assert_eq!(
        display_text(&Verdict::Invalid, -3),
        vec!["❌ Number must be greater than 1".to_string()]
    );
    assert_eq!(
        display_text(&Verdict::Prime, 97),
        vec!["✅ 97 is a prime number".to_string()]
    );
    assert_eq!(
        display_text(&Verdict::Composite(vec![2, 3, 4, 6]), 12),
        vec![
            "❌ 12 is a composite number".to_string(),
            "Factors found:".to_string(),
            "2, 3, 4, 6".to_string(),
        ]
    );
}

#[test]
fn a_judged_number_is_displayed_in_words() {
    let mut judger = PrimeNumberJudger::default();
    let shown = judger.update(1024, true);
    assert_eq!(
        display_text(&shown, judger.input()),
        vec![
            "❌ 1024 is a composite number".to_string(),
            "Factors found:".to_string(),
            "2, 4, 8, 16, 32, 64, 128, 256, 512".to_string(),
        ]
    );
    let shown = judger.update(1023, false);
    assert_eq!(
        display_text(&shown, judger.input()),
        vec!["Click 'Judge' to check the number".to_string()]
    );
}
