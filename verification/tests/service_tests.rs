use aims_backend::api::{extract_attendance_records, extract_cards_payload,
    extract_subjects_payload, subjects_of};
use aims_backend::errors::{error_for_status, AppError};
use aims_backend::keys::make_cache_key;
use aims_backend::login::build_login_form;
use aims_backend::models::{ApiResponseData, AttendanceRecord, AttendanceSummary, Config,
    CourseData, ExternalApiResponse, QuizRecord};
use aims_backend::reshape::reshape_attendance;

fn row(name: &str, code: &str, present: i32, total: i32, percent: f64, id: &str)
    -> AttendanceRecord<f64> {
    AttendanceRecord {
        cdata: CourseData { course_name: String::from(name), course_code: String::from(code) },
        attendance_summary: AttendanceSummary { present, total, percent },
        batch: String::from("2024"),
        section: String::from("A"),
        dept: String::from("CSE"),
        student_id: String::from("S42"),
        id: String::from(id),
    }
}

fn envelope<T>(data: Option<T>) -> ExternalApiResponse<T> {
    ExternalApiResponse {
        response: data.map(|d| ApiResponseData { data: d }),
        success: Some(true),
        message: None,
    }
}

#[test]
fn error_variants_map_to_their_status_codes() {
    assert_eq!(AppError::ExternalApiError(String::from("x")).status_code(), 502);
    assert_eq!(AppError::AuthenticationError(String::from("x")).status_code(), 401);
    assert_eq!(AppError::ValidationError(String::from("x")).status_code(), 400);
    assert_eq!(AppError::CacheError(String::from("x")).status_code(), 500);
    assert_eq!(AppError::TimeoutError(String::from("x")).status_code(), 408);
    assert_eq!(AppError::RateLimitError.status_code(), 429);
    assert_eq!(AppError::InternalError(String::from("x")).status_code(), 500);
}

#[test]
fn error_messages_carry_their_headline() {
    assert_eq!(
        AppError::ExternalApiError(String::from("bad gateway")).message(),
        "External API error: bad gateway"
    );
    assert_eq!(AppError::RateLimitError.message(), "Rate limit exceeded");
    assert_eq!(
        AppError::ValidationError(String::from("Missing token in request body")).message(),
        "Invalid request: Missing token in request body"
    );
}

#[test]
fn gateway_statuses_map_to_errors() {
    assert!(matches!(error_for_status(400), Some(AppError::ValidationError(_))));
    assert!(matches!(error_for_status(401), Some(AppError::AuthenticationError(_))));
    assert!(matches!(error_for_status(403), Some(AppError::AuthenticationError(_))));
    assert!(matches!(error_for_status(404), Some(AppError::ValidationError(_))));
    assert!(matches!(error_for_status(429), Some(AppError::RateLimitError)));
    assert!(matches!(error_for_status(500), Some(AppError::InternalError(_))));
    assert!(error_for_status(418).is_none());
}

#[test]
fn config_defaults_apply_when_environment_is_empty() {
    let cfg = Config::from_values(None, None, None, None, None, None, None);
    assert_eq!(cfg.host, "127.0.0.1");
    assert_eq!(cfg.port, 3001);
    assert_eq!(cfg.external_api_base, "https://abes.platform.simplifii.com/api/v1");
    assert_eq!(cfg.cors_origin, "http://localhost:3000");
    assert_eq!(cfg.rate_limit_per_minute, 100);
    assert_eq!(cfg.request_timeout_seconds, 10);
    assert_eq!(cfg.max_concurrent_requests, 100);
}

#[test]
fn config_parses_values_and_falls_back_on_junk() {
    let cfg = Config::from_values(
        Some(String::from("0.0.0.0")),
        Some(String::from("8080")),
        Some(String::from("http://upstream.test/api")),
        Some(String::from("http://front.test")),
        Some(String::from("not-a-number")),
        Some(String::from("30")),
        Some(String::from("256")),
    );
    assert_eq!(cfg.host, "0.0.0.0");
    assert_eq!(cfg.port, 8080);
    assert_eq!(cfg.external_api_base, "http://upstream.test/api");
    assert_eq!(cfg.cors_origin, "http://front.test");
    assert_eq!(cfg.rate_limit_per_minute, 100);
    assert_eq!(cfg.request_timeout_seconds, 30);
    assert_eq!(cfg.max_concurrent_requests, 256);
}

#[test]
fn cache_keys_truncate_the_token_to_ten_characters() {
    assert_eq!(
        make_cache_key("attendance_", "abcdefghijKLMNOP"),
        "attendance_abcdefghij"
    );
    assert_eq!(make_cache_key("quiz_", "short"), "quiz_short");
    assert_eq!(make_cache_key("quiz_", ""), "quiz_");
}

#[test]
fn login_form_percent_encodes_credentials() {
    assert_eq!(
        build_login_form("john doe", "p@ss&word"),
        "username=john%20doe&password=p%40ss%26word"
    );
    assert_eq!(build_login_form("plain", "safe-._~"), "username=plain&password=safe-._~");
}

#[test]
fn attendance_extraction_demands_a_nonempty_payload() {
    let ok = extract_attendance_records(envelope(Some(vec![row("M", "M1", 1, 2, 50.0, "id1")])));
    assert_eq!(ok.expect("payload present").len(), 1);

    let empty = extract_attendance_records(envelope::<Vec<AttendanceRecord<f64>>>(Some(vec![])));
    match empty {
        Err(AppError::ExternalApiError(m)) => assert_eq!(m, "No attendance records returned"),
        _ => panic!("empty record list must be an upstream error"),
    }

    let missing = extract_attendance_records(envelope::<Vec<AttendanceRecord<f64>>>(None));
    match missing {
        Err(AppError::ExternalApiError(m)) => assert_eq!(m, "Invalid API response structure"),
        _ => panic!("missing payload must be an upstream error"),
    }
}

#[test]
fn subjects_extraction_allows_an_empty_payload() {
    let ok = extract_subjects_payload(envelope::<Vec<AttendanceRecord<f64>>>(Some(vec![])));
    assert!(ok.expect("empty subject payload is handed on").is_empty());
    assert!(extract_subjects_payload(envelope::<Vec<AttendanceRecord<f64>>>(None)).is_err());
}

#[test]
fn cards_extraction_treats_missing_payload_as_no_events() {
    let ev = QuizRecord { state: String::from("Present"), start_time: None, date_formatted: None };
    let some = extract_cards_payload(envelope(Some(vec![ev])));
    assert_eq!(some.len(), 1);
    let none = extract_cards_payload(envelope::<Vec<QuizRecord>>(None));
    assert!(none.is_empty());
}

#[test]
fn subjects_of_trims_names_and_keeps_codes() {
    let records = vec![row("  Maths ", "M101", 1, 2, 50.0, "cf1"), row("Physics", "P101", 3, 4, 75.0, "cf2")];
    let subjects = subjects_of(&records);
    assert_eq!(subjects.len(), 2);
    assert_eq!(subjects[0].name, "Maths");
    assert_eq!(subjects[0].code, "M101");
    assert_eq!(subjects[0].cf_id, "cf1");
    assert_eq!(subjects[1].name, "Physics");
}

#[test]
fn reshape_splits_course_rows_from_the_totals_row() {
    let records = vec![
        row(" Maths ", "M101", 10, 12, 83.3, "cf1"),
        row("Physics", "P101", 8, 10, 80.0, "cf2"),
        row("Total", "T", 18, 22, 81.8, "cfT"),
    ];
    let a = reshape_attendance(&records).expect("two course rows and a totals row");
    assert_eq!(a.daily_attendance.len(), 2);
    assert_eq!(a.daily_attendance[0].course, "Maths");
    assert_eq!(a.daily_attendance[0].present, 10);
    assert_eq!(a.daily_attendance[0].total, 12);
    assert_eq!(a.daily_attendance[1].course, "Physics");
    assert_eq!(a.total_present, 18);
    assert_eq!(a.total_classes, 22);
    assert_eq!(a.overall_percentage, 81.8);
    assert_eq!(a.batch, "2024");
    assert_eq!(a.section, "A");
    assert_eq!(a.branch, "CSE");
    assert_eq!(a.student_id, "S42");
}

#[test]
fn reshape_rejects_an_empty_listing() {
    let records: Vec<AttendanceRecord<f64>> = vec![];
    match reshape_attendance(&records) {
        Err(AppError::ExternalApiError(m)) => assert_eq!(m, "No attendance records returned"),
        _ => panic!("an empty listing must be an upstream error"),
    }
}
