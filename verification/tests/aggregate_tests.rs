use aims_backend::aggregate::{aggregate_all_attendance, build_course_code_map, summarize_subject};
use aims_backend::errors::AppError;
use aims_backend::models::{QuizRecord, Subject};

fn subject(name: &str, code: &str, cf_id: &str) -> Subject {
    Subject { name: String::from(name), code: String::from(code), cf_id: String::from(cf_id) }
}

fn event(state: &str, start_time: Option<&str>, date_formatted: Option<&str>) -> QuizRecord {
    QuizRecord {
        state: String::from(state),
        start_time: start_time.map(String::from),
        date_formatted: date_formatted.map(String::from),
    }
}

fn lookup<'a, T>(pairs: &'a [(String, T)], key: &str) -> Option<&'a T> {
    pairs.iter().find(|(k, _)| k == key).map(|(_, v)| v)
}

#[test]
fn partial_failure_keeps_other_subjects_and_their_totals() {
    let subjects = vec![
        subject("Maths", "M101", "cf1"),
        subject("Physics", "P101", "cf2"),
        subject("Chemistry", "C101", "cf3"),
    ];
    let results: Vec<Result<Vec<QuizRecord>, AppError>> = vec![
        Ok(vec![
            event("Present", Some("2024-03-01T10:00:00Z"), None),
            event("Present", Some("2024-03-01T12:00:00Z"), None),
            event("Absent", Some("2024-03-02T10:00:00Z"), None),
        ]),
        Err(AppError::ExternalApiError(String::from("HTTP 502"))),
        Ok(vec![
            event("Present", Some("2024-03-02T09:00:00Z"), None),
            event("Absent", Some("2024-03-03T09:00:00Z"), None),
        ]),
    ];
    let today = String::from("2024-03-09");
    let out = aggregate_all_attendance(String::from("S42"), &subjects, &results, &today, 777)
        .expect("aggregation tolerates one failed subject");

    assert_eq!(out.student_id, "S42");
    assert_eq!(out.cached_at, 777);
    // Summaries exist for the successful subjects only.
    assert_eq!(out.subjects.len(), 2);
    assert!(lookup(&out.subjects, "Maths").is_some());
    assert!(lookup(&out.subjects, "Physics").is_none());
    assert!(lookup(&out.subjects, "Chemistry").is_some());
    // Grand totals are the sums over the successful subjects.
    assert_eq!(out.total_present_all_subjects, 3);
    assert_eq!(out.total_absent_all_subjects, 2);
    // The course-code map covers every subject, fetched or not.
    assert_eq!(out.course_code_map.len(), 3);
    assert_eq!(lookup(&out.course_code_map, "P101"), Some(&String::from("Physics")));
}

#[test]
fn empty_subject_list_fails_with_no_subjects_found() {
    let subjects: Vec<Subject> = vec![];
    let results: Vec<Result<Vec<QuizRecord>, AppError>> = vec![];
    let today = String::from("2024-03-09");
    let out = aggregate_all_attendance(String::from("S42"), &subjects, &results, &today, 1);
    match out {
        Err(AppError::ExternalApiError(m)) => assert_eq!(m, "No subjects found"),
        _ => panic!("empty subject list must fail"),
    }
}

#[test]
fn summarize_buckets_by_date_and_excludes_other_states() {
    let today = String::from("2024-03-09");
    let events = vec![
        event("Present", Some("2024-03-01T10:00:00Z"), None),
        event("Absent", Some("2024-03-01T11:00:00Z"), None),
        event("Present", Some("2024-03-02T10:00:00Z"), None),
        event("Leave", Some("2024-03-01T12:00:00Z"), None),
    ];
    let s = summarize_subject(&events, &today);
    assert_eq!(s.total_present, 2);
    assert_eq!(s.total_absent, 1);
    assert_eq!(s.daily.len(), 2);
    assert_eq!(s.daily[0].date, "2024-03-01");
    assert_eq!(s.daily[0].present, 1);
    assert_eq!(s.daily[0].absent, 1);
    assert_eq!(s.daily[1].date, "2024-03-02");
    assert_eq!(s.daily[1].present, 1);
    assert_eq!(s.daily[1].absent, 0);
}

#[test]
fn summarize_empty_events_gives_empty_summary() {
    let today = String::from("2024-03-09");
    let s = summarize_subject(&vec![], &today);
    assert_eq!(s.total_present, 0);
    assert_eq!(s.total_absent, 0);
    assert!(s.daily.is_empty());
}

#[test]
fn repeated_subject_name_keeps_the_later_summary() {
    let subjects = vec![subject("Maths", "M101", "cf1"), subject("Maths", "M102", "cf2")];
    let results: Vec<Result<Vec<QuizRecord>, AppError>> = vec![
        Ok(vec![event("Present", Some("2024-03-01T10:00:00Z"), None)]),
        Ok(vec![
            event("Absent", Some("2024-03-01T10:00:00Z"), None),
            event("Absent", Some("2024-03-02T10:00:00Z"), None),
        ]),
    ];
    let today = String::from("2024-03-09");
    let out = aggregate_all_attendance(String::from("S1"), &subjects, &results, &today, 0)
        .expect("aggregation succeeds");
    assert_eq!(out.subjects.len(), 1);
    let summary = lookup(&out.subjects, "Maths").expect("one summary under the shared name");
    assert_eq!(summary.total_present, 0);
    assert_eq!(summary.total_absent, 2);
    // Grand totals still count both fetches.
    assert_eq!(out.total_present_all_subjects, 1);
    assert_eq!(out.total_absent_all_subjects, 2);
}

#[test]
fn course_code_map_keeps_later_name_for_repeated_code() {
    let subjects = vec![subject("Old Name", "X1", "a"), subject("New Name", "X1", "b")];
    let map = build_course_code_map(&subjects);
    assert_eq!(map.len(), 1);
    assert_eq!(lookup(&map, "X1"), Some(&String::from("New Name")));
}
