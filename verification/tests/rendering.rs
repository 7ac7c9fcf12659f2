//! Unit checks of the validity evaluator and the decimal rendering.

use checkssl::text::{day_string, decimal_string};
use checkssl::validity::evaluate;

#[test]
fn decimal_rendering_is_exact() {
    assert_eq!(decimal_string(0), "0");
    assert_eq!(decimal_string(7), "7");
    assert_eq!(decimal_string(42), "42");
    assert_eq!(decimal_string(1826), "1826");
    assert_eq!(decimal_string(18446744073709551615), "18446744073709551615");
}

#[test]
fn day_text_has_the_unit_suffix() {
    assert_eq!(day_string(0), "0 day(s)");
    assert_eq!(day_string(42), "42 day(s)");
}

#[test]
fn evaluate_inside_window() {
    let (valid, text) = evaluate(0, 5 * 86400 + 100, 0);
    assert!(valid);
    assert_eq!(text, "5 day(s)");
}

#[test]
fn evaluate_after_window() {
    let (valid, text) = evaluate(0, 100, 150);
    assert!(!valid);
    assert_eq!(text, "");
}

#[test]
fn evaluate_before_window_still_counts_down() {
    let (valid, text) = evaluate(100, 86400 + 100, 50);
    assert!(!valid);
    assert_eq!(text, "1 day(s)");
}

#[test]
fn evaluate_at_the_window_ends() {
    let (valid_at_start, _) = evaluate(100, 200, 100);
    assert!(valid_at_start);
    let (valid_at_end, text) = evaluate(100, 200, 200);
    assert!(valid_at_end);
    assert_eq!(text, "");
}

#[test]
fn countdown_shrinks_as_time_advances_and_then_disappears() {
    let not_before: i64 = 0;
    let not_after: i64 = 10 * 86400;
    let (_, early) = evaluate(not_before, not_after, 86400);
    let (_, later) = evaluate(not_before, not_after, 2 * 86400 + 30);
    assert_eq!(early, "9 day(s)");
    assert_eq!(later, "7 day(s)");
    let (_, gone) = evaluate(not_before, not_after, not_after);
    assert_eq!(gone, "");
}

#[test]
fn validity_flips_only_at_the_window_edges() {
    let not_before: i64 = 1000;
    let not_after: i64 = 2000;
    assert!(!evaluate(not_before, not_after, 999).0);
    assert!(evaluate(not_before, not_after, 1000).0);
    assert!(evaluate(not_before, not_after, 1500).0);
    assert!(evaluate(not_before, not_after, 2000).0);
    assert!(!evaluate(not_before, not_after, 2001).0);
}
