use forgelag::text::{fmt_dur, fmt_ns, int_text, with_int, with_str};

#[test]
fn integers_render_in_decimal() {
    assert_eq!(int_text(0), "0");
    assert_eq!(int_text(-42), "-42");
    assert_eq!(int_text(18_446_744_073_709_551_615), "18446744073709551615");
    assert_eq!(with_int("x=".to_string(), 7), "x=7");
    assert_eq!(with_str("a".to_string(), "bc"), "abc");
}

#[test]
fn ns_labels_use_seconds_from_one_second() {
    assert_eq!(fmt_ns(1_000_000_000), "1s");
    assert_eq!(fmt_ns(90_500_000_000), "90s");
    assert_eq!(fmt_ns(999_999_999), "999ms");
    assert_eq!(fmt_ns(250_000_000), "250ms");
    assert_eq!(fmt_ns(0), "0ms");
}

#[test]
fn dur_labels_pick_the_largest_exact_unit() {
    assert_eq!(fmt_dur(0), "0");
    assert_eq!(fmt_dur(300_000_000_000), "5m");
    assert_eq!(fmt_dur(90_000_000_000), "90s");
    assert_eq!(fmt_dur(60_000_000_000), "1m");
    assert_eq!(fmt_dur(1_500_000_000), "1500ms");
    assert_eq!(fmt_dur(1_000_000_000), "1s");
    assert_eq!(fmt_dur(750), "0ms");
}
