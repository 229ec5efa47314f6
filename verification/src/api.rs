//! What the core makes of upstream response envelopes once the transport
//! has decoded them: payload extraction and the subject list.

use vstd::prelude::*;

use crate::errors::AppError;
use crate::models::{
    AttendanceRecord, ExternalApiResponse, QuizRecord, Subject,
};
use crate::text::{trim_str, trim_spec};

verus! {

/// Unwraps the per-student attendance listing: a missing payload or an
/// empty record list is an upstream error.
pub fn extract_attendance_records<P>(r: ExternalApiResponse<Vec<AttendanceRecord<P>>>) -> (out:
    Result<Vec<AttendanceRecord<P>>, AppError>)
    ensures
        match r.response {
            Some(d) => if d.data@.len() == 0 {
                out matches Err(e) && e matches AppError::ExternalApiError(m) && m@
                    == "No attendance records returned"@
            } else {
                out matches Ok(v) && v == d.data
            },
            None => out matches Err(e) && e matches AppError::ExternalApiError(m) && m@
                == "Invalid API response structure"@,
        },
{
    match r.response {
        Some(d) => {
            if d.data.is_empty() {
                Err(AppError::ExternalApiError(String::from_str("No attendance records returned")))
            } else {
                Ok(d.data)
            }
        },
        None => Err(
            AppError::ExternalApiError(String::from_str("Invalid API response structure")),
        ),
    }
}

/// Unwraps the subject listing: a missing payload is an upstream error;
/// an empty list is handed on (the aggregator rejects it).
pub fn extract_subjects_payload<P>(r: ExternalApiResponse<Vec<AttendanceRecord<P>>>) -> (out:
    Result<Vec<AttendanceRecord<P>>, AppError>)
    ensures
        match r.response {
            Some(d) => out matches Ok(v) && v == d.data,
            None => out matches Err(e) && e matches AppError::ExternalApiError(m) && m@
                == "Invalid API response structure"@,
        },
{
    match r.response {
        Some(d) => Ok(d.data),
        None => Err(
            AppError::ExternalApiError(String::from_str("Invalid API response structure")),
        ),
    }
}

/// Unwraps one subject's attendance cards: a missing payload means no
/// events.
pub fn extract_cards_payload(r: ExternalApiResponse<Vec<QuizRecord>>) -> (out: Vec<QuizRecord>)
    ensures
        match r.response {
            Some(d) => out == d.data,
            None => out@ == Seq::<QuizRecord>::empty(),
        },
{
    match r.response {
        Some(d) => d.data,
        None => {
            let v = Vec::new();
            proof {
                assert(v@ =~= Seq::<QuizRecord>::empty());
            }
            v
        },
    }
}

/// The subject each upstream row names: trimmed course name, course code
/// and cross-field id.
pub fn subjects_of<P>(records: &Vec<AttendanceRecord<P>>) -> (out: Vec<Subject>)
    ensures
        out@.len() == records@.len(),
        forall|i: int|
            0 <= i < records@.len() ==> (#[trigger] out@[i]).name@ == trim_spec(
                records@[i].cdata.course_name@,
            ) && out@[i].code == records@[i].cdata.course_code && out@[i].cf_id == records@[i].id,
{
    let n = records.len();
    let mut out: Vec<Subject> = Vec::new();
    let mut i: usize = 0;
    loop
        invariant
            0 <= i <= n,
            n == records@.len(),
            out@.len() == i,
            forall|j: int|
                0 <= j < i ==> (#[trigger] out@[j]).name@ == trim_spec(
                    records@[j].cdata.course_name@,
                ) && out@[j].code == records@[j].cdata.course_code && out@[j].cf_id
                    == records@[j].id,
        ensures
            i == n,
            out@.len() == n,
            forall|j: int|
                0 <= j < i ==> (#[trigger] out@[j]).name@ == trim_spec(
                    records@[j].cdata.course_name@,
                ) && out@[j].code == records@[j].cdata.course_code && out@[j].cf_id
                    == records@[j].id,
        decreases n - i,
    {
        if i == n {
            break;
        }
        let rec = &records[i];
        let s = Subject {
            name: trim_str(rec.cdata.course_name.as_str()),
            code: rec.cdata.course_code.clone(),
            cf_id: rec.id.clone(),
        };
        out.push(s);
        i = i + 1;
    }
    out
}

} // verus!
