use footprints::strfmt::u64_to_string;
use footprints::strfmt::usize_to_string;
use footprints::warn::Timer;
use footprints::warn::Warn;

#[test]
fn u64_to_string_zero() {
    assert_eq!(u64_to_string(0), "0");
}

#[test]
fn u64_to_string_digits() {
    assert_eq!(u64_to_string(907), "907");
    assert_eq!(u64_to_string(10), "10");
    assert_eq!(u64_to_string(1234567890123), "1234567890123");
}

#[test]
fn usize_to_string_small() {
    assert_eq!(usize_to_string(2), "2");
}

#[test]
fn warn_ok_has_no_warnings() {
    let w = Warn::ok(5);
    let (value, lines) = w.extract_lines();
    assert_eq!(value, 5);
    assert!(lines.is_empty());
}

#[test]
fn warn_extract_two_warnings_in_order() {
    let w = Warn::warnings(7, vec!["first".to_string(), "second".to_string()]);
    let (value, lines) = w.extract_lines();
    assert_eq!(value, 7);
    assert_eq!(
        lines,
        vec![
            "2 warnings:".to_string(),
            "first".to_string(),
            "second".to_string()
        ]
    );
}

#[test]
fn warn_extract_with_context_header() {
    let w = Warn::warn(1, "lost a footprint".to_string());
    let (value, lines) = w.extract_lines_with_context("convert buildings".to_string());
    assert_eq!(value, 1);
    assert_eq!(
        lines,
        vec![
            "1 warnings (convert buildings):".to_string(),
            "lost a footprint".to_string()
        ]
    );
}

#[test]
fn warn_get_forwards_into_timer() {
    let mut timer = Timer::new();
    let w = Warn::warn(3, "oops".to_string());
    let value = w.get(&mut timer);
    assert_eq!(value, 3);
    assert_eq!(timer.warnings, vec!["oops".to_string()]);
    assert!(timer.notes.is_empty());
}

#[test]
fn warn_with_context_prefixes_each_line() {
    let mut timer = Timer::new();
    let w = Warn::warnings((), vec!["a".to_string(), "b".to_string()]);
    w.with_context(&mut timer, "phase".to_string());
    assert_eq!(
        timer.warnings,
        vec!["phase: a".to_string(), "phase: b".to_string()]
    );
}

#[test]
fn warn_map_keeps_warnings() {
    let w = Warn::warn(2, "kept".to_string());
    let mapped = w.map(|x: i64| x + 1);
    let (value, lines) = mapped.extract_lines();
    assert_eq!(value, 3);
    assert_eq!(lines, vec!["1 warnings:".to_string(), "kept".to_string()]);
}

#[test]
fn warn_empty_warnings_carries_lines() {
    let w = Warn::empty_warnings(vec!["x".to_string()]);
    let mut timer = Timer::new();
    w.get(&mut timer);
    assert_eq!(timer.warnings, vec!["x".to_string()]);
}
