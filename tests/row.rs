use chrome_history::browser_hist_error::BrowserHistError;
use chrome_history::chrome_time::{from_date, Date, MAX_TIMESTAMP};
use chrome_history::row::{format_row, Row};

#[test]
fn row_new_keeps_fields() {
    let row = Row::new("https://a.example".to_string(), "A".to_string(), 7, 42);
    assert_eq!(row.url, "https://a.example");
    assert_eq!(row.title, "A");
    assert_eq!(row.visit_count, 7);
    assert_eq!(row.last_visit_time, 42);
}

#[test]
fn row_renders_time_title_count_and_url() {
    let row = Row::new(
        "https://bank.example.com/login".to_string(),
        "Bank Login".to_string(),
        3,
        13_349_784_600_000_000,
    );
    assert_eq!(
        row.to_string(),
        "[2024-01-15 09:30:00] Bank Login (3 visits)\n    https://bank.example.com/login"
    );
}

#[test]
fn row_at_origin_renders_origin() {
    let row = Row::new("u".to_string(), "t".to_string(), 0, 0);
    assert_eq!(row.to_string(), "[1601-01-01 00:00:00] t (0 visits)\n    u");
}

#[test]
fn format_row_writes_negative_counts() {
    assert_eq!(format_row("S", "T", -12, "U"), "[S] T (-12 visits)\n    U");
}

#[test]
fn io_error_converts() {
    let e = BrowserHistError::from(std::io::Error::new(std::io::ErrorKind::NotFound, "gone"));
    assert!(matches!(e, BrowserHistError::Io(_)));
}

#[test]
fn sqlite_error_converts() {
    let e = BrowserHistError::from(rusqlite::Error::InvalidQuery);
    assert!(matches!(e, BrowserHistError::Rus(_)));
}

#[test]
fn row_with_five_digit_year_has_sign() {
    let row = Row::new("u".to_string(), "t".to_string(), 1, MAX_TIMESTAMP);
    assert_eq!(row.to_string(), "[+262142-12-31 23:59:59] t (1 visits)\n    u");
}

#[test]
fn row_with_negative_year_is_padded() {
    let ts = from_date(Date { year: -5, month: 3, day: 1 });
    let row = Row::new("u".to_string(), "t".to_string(), 1, ts);
    assert_eq!(row.to_string(), "[-0005-03-01 00:00:00] t (1 visits)\n    u");
}

#[test]
fn row_with_early_year_has_four_digits() {
    let ts = from_date(Date { year: 987, month: 6, day: 5 });
    let row = Row::new("u".to_string(), "t".to_string(), 2, ts);
    assert_eq!(row.to_string(), "[0987-06-05 00:00:00] t (2 visits)\n    u");
}
