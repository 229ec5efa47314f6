//! Reshaping of the per-student attendance listing: the upstream's last
//! row carries the overall totals, every earlier row one course.
//! Percentages are opaque payload (`P`).

use vstd::prelude::*;

use crate::errors::AppError;
use crate::models::{AttendanceRecord, AttendanceResponse, DailyAttendance};
use crate::text::{trim_str, trim_spec};

verus! {

/// Builds the attendance response from the upstream rows: one line per
/// course row, totals from the final summary row, and the student's
/// cohort fields from the first course row. A single-row listing has no
/// course rows and is left out.
pub fn reshape_attendance<P: Copy>(records: &Vec<AttendanceRecord<P>>) -> (r: Result<
    AttendanceResponse<P>,
    AppError,
>)
    requires
        records@.len() != 1,
    ensures
        records@.len() == 0 ==> (r matches Err(e) && e matches AppError::ExternalApiError(m) && m@
            == "No attendance records returned"@),
        records@.len() >= 2 ==> (r matches Ok(a) && a.daily_attendance@.len() == records@.len()
            - 1),
        records@.len() >= 2 ==> (r matches Ok(a) && forall|i: int|
            0 <= i < records@.len() - 1 ==> (#[trigger] a.daily_attendance@[i]).course@
                == trim_spec(records@[i].cdata.course_name@) && a.daily_attendance@[i].present
                == records@[i].attendance_summary.present && a.daily_attendance@[i].total
                == records@[i].attendance_summary.total && a.daily_attendance@[i].percent
                == records@[i].attendance_summary.percent),
        records@.len() >= 2 ==> (r matches Ok(a) && a.total_present == records@.last(
        ).attendance_summary.present && a.total_classes == records@.last(
        ).attendance_summary.total && a.overall_percentage == records@.last(
        ).attendance_summary.percent),
        records@.len() >= 2 ==> (r matches Ok(a) && a.batch == records@[0].batch && a.section
            == records@[0].section && a.branch == records@[0].dept && a.student_id
            == records@[0].student_id),
{
    let n = records.len();
    if n == 0 {
        return Err(
            AppError::ExternalApiError(String::from_str("No attendance records returned")),
        );
    }
    let mut daily: Vec<DailyAttendance<P>> = Vec::new();
    let mut i: usize = 0;
    loop
        invariant
            0 <= i <= n - 1,
            n == records@.len(),
            n >= 2,
            daily@.len() == i,
            forall|j: int|
                0 <= j < i ==> (#[trigger] daily@[j]).course@ == trim_spec(
                    records@[j].cdata.course_name@,
                ) && daily@[j].present == records@[j].attendance_summary.present && daily@[j].total
                    == records@[j].attendance_summary.total && daily@[j].percent
                    == records@[j].attendance_summary.percent,
        ensures
            i == n - 1,
            daily@.len() == i,
            forall|j: int|
                0 <= j < i ==> (#[trigger] daily@[j]).course@ == trim_spec(
                    records@[j].cdata.course_name@,
                ) && daily@[j].present == records@[j].attendance_summary.present && daily@[j].total
                    == records@[j].attendance_summary.total && daily@[j].percent
                    == records@[j].attendance_summary.percent,
        decreases n - 1 - i,
    {
        if i == n - 1 {
            break;
        }
        let rec = &records[i];
        daily.push(
            DailyAttendance {
                course: trim_str(rec.cdata.course_name.as_str()),
                present: rec.attendance_summary.present,
                total: rec.attendance_summary.total,
                percent: rec.attendance_summary.percent,
            },
        );
        i = i + 1;
    }
    let total = &records[n - 1];
    let first = &records[0];
    Ok(
        AttendanceResponse {
            daily_attendance: daily,
            total_present: total.attendance_summary.present,
            total_classes: total.attendance_summary.total,
            overall_percentage: total.attendance_summary.percent,
            batch: first.batch.clone(),
            section: first.section.clone(),
            branch: first.dept.clone(),
            student_id: first.student_id.clone(),
        },
    )
}

} // verus!
