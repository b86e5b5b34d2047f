use bjobs::datetime::{log_line, stamp_line, Timestamp};

fn sample() -> Timestamp {
    Timestamp { year: 2024, month: 1, day: 5, hour: 9, minute: 3, second: 7, nanosecond: 42, unix: 1704445387 }
}

#[test]
fn timestamp_text_is_zero_padded() {
    assert_eq!(sample().to_text(), "2024-01-05 09:03:07.000000042");
}

#[test]
fn log_line_has_dated_prefix() {
    let line = log_line(&sample(), "hi");
    assert_eq!(line, "[2024-01-05 09:03:07.000000042] hi");
    let b = line.as_bytes();
    assert_eq!(b[0], b'[');
    assert!(b[1..5].iter().all(|c| c.is_ascii_digit()));
    assert_eq!(b[5], b'-');
    assert!(b[6..8].iter().all(|c| c.is_ascii_digit()));
    assert_eq!(b[8], b'-');
    assert!(b[9..11].iter().all(|c| c.is_ascii_digit()));
    assert!(line[11..].contains("] "));
}

#[test]
fn early_years_keep_four_digits() {
    let t = Timestamp { year: 7, month: 12, day: 31, hour: 23, minute: 59, second: 59, nanosecond: 999_999_999, unix: 0 };
    assert_eq!(log_line(&t, ""), "[0007-12-31 23:59:59.999999999] ");
}

#[test]
fn negative_years_are_signed() {
    let t = Timestamp { year: -44, month: 3, day: 15, hour: 0, minute: 0, second: 0, nanosecond: 0, unix: 0 };
    assert_eq!(t.to_text(), "-0044-03-15 00:00:00.000000000");
}

#[test]
fn stamped_line_keeps_the_text() {
    let line = stamp_line("hello world");
    let b = line.as_bytes();
    assert_eq!(b[0], b'[');
    assert!(b[1..5].iter().all(|c| c.is_ascii_digit()));
    assert_eq!(b[5], b'-');
    assert!(b[6..8].iter().all(|c| c.is_ascii_digit()));
    assert_eq!(b[8], b'-');
    assert!(b[9..11].iter().all(|c| c.is_ascii_digit()));
    assert!(line.ends_with("] hello world"));
    assert_eq!(line.len(), "[2024-01-05 09:03:07.000000042] hello world".len());
}
