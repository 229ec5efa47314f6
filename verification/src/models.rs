//! Plain data carried through the service: requests, upstream record
//! shapes, per-subject summaries and the aggregate response.
//!
//! Values that the upstream reports as floating point (attendance
//! percentages) are carried opaquely through the type parameter `P`, which
//! the unverified edge instantiates; the core never reads them.

use vstd::prelude::*;

verus! {

/// A login request body.
#[derive(Debug, Clone)]
pub struct LoginRequest {
    pub username: String,
    pub password: String,
}

/// A login response body.
#[derive(Debug, Clone)]
pub struct LoginResponse {
    pub success: bool,
    pub token: Option<String>,
    pub message: Option<String>,
}

/// An attendance request body: the opaque auth token.
#[derive(Debug, Clone)]
pub struct AttendanceRequest {
    pub token: String,
}

/// Runtime configuration, with every value already parsed.
#[derive(Debug, Clone)]
pub struct Config {
    pub host: String,
    pub port: u16,
    pub external_api_base: String,
    pub cors_origin: String,
    pub rate_limit_per_minute: u32,
    pub request_timeout_seconds: u64,
    pub max_concurrent_requests: usize,
}

/// One academic course as the upstream reports it.
#[derive(Debug, Clone)]
pub struct Subject {
    pub name: String,
    pub code: String,
    pub cf_id: String,
}

/// Present/absent totals of one calendar date.
#[derive(Debug, Clone)]
pub struct DailyAttendanceRecord {
    pub date: String,
    pub present: i32,
    pub absent: i32,
}

/// The merged attendance of one subject.
#[derive(Debug, Clone)]
pub struct SubjectSummary {
    pub total_present: i32,
    pub total_absent: i32,
    pub daily: Vec<DailyAttendanceRecord>,
}

/// One attendance event of one subject: its state and its two optional
/// date representations.
#[derive(Debug, Clone)]
pub struct QuizRecord {
    pub state: String,
    pub start_time: Option<String>,
    pub date_formatted: Option<String>,
}

/// The name and code of a course, nested in an upstream record.
#[derive(Debug, Clone)]
pub struct CourseData {
    pub course_name: String,
    pub course_code: String,
}

/// The per-course attendance totals of an upstream record; the percentage
/// is opaque payload.
#[derive(Debug, Clone)]
pub struct AttendanceSummary<P> {
    pub present: i32,
    pub total: i32,
    pub percent: P,
}

/// One row of the upstream per-student course listing.
#[derive(Debug, Clone)]
pub struct AttendanceRecord<P> {
    pub cdata: CourseData,
    pub attendance_summary: AttendanceSummary<P>,
    pub batch: String,
    pub section: String,
    pub dept: String,
    pub student_id: String,
    pub id: String,
}

/// The envelope every upstream endpoint answers with.
#[derive(Debug, Clone)]
pub struct ExternalApiResponse<T> {
    pub response: Option<ApiResponseData<T>>,
    pub success: Option<bool>,
    pub message: Option<String>,
}

/// The payload inside an upstream envelope.
#[derive(Debug, Clone)]
pub struct ApiResponseData<T> {
    pub data: T,
}

/// One reshaped per-course attendance line of the attendance endpoint.
#[derive(Debug, Clone)]
pub struct DailyAttendance<P> {
    pub course: String,
    pub present: i32,
    pub total: i32,
    pub percent: P,
}

/// The reshaped body of the attendance endpoint.
#[derive(Debug, Clone)]
pub struct AttendanceResponse<P> {
    pub daily_attendance: Vec<DailyAttendance<P>>,
    pub total_present: i32,
    pub total_classes: i32,
    pub overall_percentage: P,
    pub batch: String,
    pub section: String,
    pub branch: String,
    pub student_id: String,
}

/// The merged body of the all-attendance endpoint. Subject summaries and
/// the course-code map are association lists with unique keys, kept in
/// first-insertion order; a repeated key overwrites in place of the old
/// entry and moves to the back.
#[derive(Debug, Clone)]
pub struct AllAttendanceResponse {
    pub student_id: String,
    pub total_present_all_subjects: i32,
    pub total_absent_all_subjects: i32,
    pub subjects: Vec<(String, SubjectSummary)>,
    pub course_code_map: Vec<(String, String)>,
    pub cached_at: u64,
}

} // verus!
