use aims_backend::date::classify_date;
use aims_backend::models::QuizRecord;

fn record(state: &str, start_time: Option<&str>, date_formatted: Option<&str>) -> QuizRecord {
    QuizRecord {
        state: String::from(state),
        start_time: start_time.map(String::from),
        date_formatted: date_formatted.map(String::from),
    }
}

#[test]
fn parseable_start_time_buckets_to_its_date() {
    let today = String::from("2099-12-31");
    let r = record("Present", Some("2024-03-01T10:00:00Z"), None);
    assert_eq!(classify_date(&r, &today), "2024-03-01");
}

#[test]
fn start_time_with_offset_keeps_its_local_date() {
    let today = String::from("2099-12-31");
    let r = record("Present", Some("2024-03-01T23:30:00+05:30"), None);
    assert_eq!(classify_date(&r, &today), "2024-03-01");
}

#[test]
fn formatted_date_trailing_token_is_the_bucket() {
    let today = String::from("2099-12-31");
    let r = record("Present", None, Some("Fri 2024-03-02"));
    assert_eq!(classify_date(&r, &today), "2024-03-02");
}

#[test]
fn missing_both_fields_buckets_to_today() {
    let today = String::from("2099-12-31");
    let r = record("Present", None, None);
    assert_eq!(classify_date(&r, &today), "2099-12-31");
}

#[test]
fn unparseable_start_time_without_formatted_date_buckets_to_today() {
    let today = String::from("2099-12-31");
    let r = record("Present", Some("yesterday at noon"), None);
    assert_eq!(classify_date(&r, &today), "2099-12-31");
}

#[test]
fn unparseable_start_time_falls_back_to_the_formatted_date() {
    let today = String::from("2099-12-31");
    let r = record("Present", Some("yesterday at noon"), Some("Sat 2024-03-02"));
    assert_eq!(classify_date(&r, &today), "2024-03-02");
}

#[test]
fn start_time_takes_precedence_over_formatted_date() {
    let today = String::from("2099-12-31");
    let r = record("Present", Some("2024-03-01T10:00:00Z"), Some("Sat 2024-03-02"));
    assert_eq!(classify_date(&r, &today), "2024-03-01");
}

#[test]
fn whitespace_only_formatted_date_buckets_to_today() {
    let today = String::from("2099-12-31");
    let r = record("Present", None, Some("   \t "));
    assert_eq!(classify_date(&r, &today), "2099-12-31");
}
