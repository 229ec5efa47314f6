//! The fan-out aggregator's merge: per-subject attendance events become
//! per-date summaries, per-subject totals and grand totals, tolerating
//! per-subject fetch failure. The transport performs the concurrent
//! fetches; this module merges their settled outcomes.

use vstd::prelude::*;

use crate::assoc::{
    assoc_has, assoc_get, assoc_unique, assoc_set, assoc_remove, lemma_assoc_at_unique,
    lemma_assoc_remove, lemma_push_unique,
};
use crate::date::{bucket_of, classify_date};
use crate::errors::AppError;
use crate::models::{
    AllAttendanceResponse, DailyAttendanceRecord, QuizRecord, Subject, SubjectSummary,
};

verus! {

/// Whether an event counts as a presence.
pub open spec fn is_present_rec(r: QuizRecord) -> bool {
    r.state@ == "Present"@
}

/// Whether an event counts as an absence.
pub open spec fn is_absent_rec(r: QuizRecord) -> bool {
    r.state@ == "Absent"@
}

/// How many events of `s` are presences.
pub open spec fn count_present(s: Seq<QuizRecord>) -> int
    decreases s.len(),
{
    if s.len() == 0 {
        0
    } else {
        count_present(s.drop_last()) + if is_present_rec(s.last()) {
            1int
        } else {
            0int
        }
    }
}

/// How many events of `s` are absences.
pub open spec fn count_absent(s: Seq<QuizRecord>) -> int
    decreases s.len(),
{
    if s.len() == 0 {
        0
    } else {
        count_absent(s.drop_last()) + if is_absent_rec(s.last()) {
            1int
        } else {
            0int
        }
    }
}

/// Per-date counts `m` once one event on day `d` is added.
pub open spec fn bump(m: Seq<(Seq<char>, (int, int))>, d: Seq<char>, present: bool) -> Seq<
    (Seq<char>, (int, int)),
> {
    if assoc_has(m, d) {
        let c = assoc_get(m, d);
        m.update(
            crate::assoc::assoc_at(m, d),
            (
                d,
                if present {
                    (c.0 + 1, c.1)
                } else {
                    (c.0, c.1 + 1)
                },
            ),
        )
    } else {
        m.push(
            (
                d,
                if present {
                    (1int, 0int)
                } else {
                    (0int, 1int)
                },
            ),
        )
    }
}

/// The per-date present/absent counts of `s`, dates in order of first
/// occurrence; events that are neither presences nor absences count in
/// no bucket.
pub open spec fn bucket_counts(s: Seq<QuizRecord>, today: Seq<char>) -> Seq<
    (Seq<char>, (int, int)),
>
    decreases s.len(),
{
    if s.len() == 0 {
        Seq::empty()
    } else {
        let prev = bucket_counts(s.drop_last(), today);
        let r = s.last();
        if is_present_rec(r) {
            bump(prev, bucket_of(r, today), true)
        } else if is_absent_rec(r) {
            bump(prev, bucket_of(r, today), false)
        } else {
            prev
        }
    }
}

/// The association list a daily vector represents.
pub open spec fn daily_view(v: Seq<DailyAttendanceRecord>) -> Seq<(Seq<char>, (int, int))> {
    v.map_values(|d: DailyAttendanceRecord| (d.date@, (d.present as int, d.absent as int)))
}

/// The totals and per-date counts a summary carries.
pub open spec fn summary_rep(s: SubjectSummary) -> (int, int, Seq<(Seq<char>, (int, int))>) {
    (s.total_present as int, s.total_absent as int, daily_view(s.daily@))
}

/// The totals and per-date counts the events of one subject merge to.
pub open spec fn summary_model(events: Seq<QuizRecord>, today: Seq<char>) -> (
    int,
    int,
    Seq<(Seq<char>, (int, int))>,
) {
    (count_present(events), count_absent(events), bucket_counts(events, today))
}

/// The association list a subject-summary vector represents.
pub open spec fn subjects_map_view(s: Seq<(String, SubjectSummary)>) -> Seq<
    (Seq<char>, (int, int, Seq<(Seq<char>, (int, int))>)),
> {
    s.map_values(|e: (String, SubjectSummary)| (e.0@, summary_rep(e.1)))
}

/// The association list a course-code map represents.
pub open spec fn course_map_view(s: Seq<(String, String)>) -> Seq<(Seq<char>, Seq<char>)> {
    s.map_values(|e: (String, String)| (e.0@, e.1@))
}

/// The summaries of the subjects whose fetch succeeded, a later subject
/// of the same name overwriting an earlier one.
pub open spec fn summaries_model(
    subjects: Seq<Subject>,
    results: Seq<Result<Vec<QuizRecord>, AppError>>,
    today: Seq<char>,
) -> Seq<(Seq<char>, (int, int, Seq<(Seq<char>, (int, int))>))>
    recommends
        subjects.len() == results.len(),
    decreases results.len(),
{
    if results.len() == 0 {
        Seq::empty()
    } else {
        let prev = summaries_model(subjects.drop_last(), results.drop_last(), today);
        match results.last() {
            Ok(v) => assoc_set(prev, subjects.last().name@, summary_model(v@, today)),
            Err(_) => prev,
        }
    }
}

/// Every subject's code mapped to its name, independent of fetch
/// success; a repeated code keeps the later name.
pub open spec fn course_map_model(subjects: Seq<Subject>) -> Seq<(Seq<char>, Seq<char>)>
    decreases subjects.len(),
{
    if subjects.len() == 0 {
        Seq::empty()
    } else {
        assoc_set(
            course_map_model(subjects.drop_last()),
            subjects.last().code@,
            subjects.last().name@,
        )
    }
}

/// The presences of all subjects whose fetch succeeded.
pub open spec fn grand_present(results: Seq<Result<Vec<QuizRecord>, AppError>>) -> int
    decreases results.len(),
{
    if results.len() == 0 {
        0
    } else {
        grand_present(results.drop_last()) + match results.last() {
            Ok(v) => count_present(v@),
            Err(_) => 0,
        }
    }
}

/// The absences of all subjects whose fetch succeeded.
pub open spec fn grand_absent(results: Seq<Result<Vec<QuizRecord>, AppError>>) -> int
    decreases results.len(),
{
    if results.len() == 0 {
        0
    } else {
        grand_absent(results.drop_last()) + match results.last() {
            Ok(v) => count_absent(v@),
            Err(_) => 0,
        }
    }
}

/// How many events all successful fetches carry together.
pub open spec fn total_ok_events(results: Seq<Result<Vec<QuizRecord>, AppError>>) -> int
    decreases results.len(),
{
    if results.len() == 0 {
        0
    } else {
        total_ok_events(results.drop_last()) + match results.last() {
            Ok(v) => v@.len() as int,
            Err(_) => 0,
        }
    }
}

/// The summaries carry pairwise-distinct subject names.
pub proof fn lemma_summaries_unique(
    subjects: Seq<Subject>,
    results: Seq<Result<Vec<QuizRecord>, AppError>>,
    today: Seq<char>,
)
    requires
        subjects.len() == results.len(),
    ensures
        assoc_unique(summaries_model(subjects, results, today)),
    decreases results.len(),
{
    if results.len() > 0 {
        lemma_summaries_unique(subjects.drop_last(), results.drop_last(), today);
        let prev = summaries_model(subjects.drop_last(), results.drop_last(), today);
        match results.last() {
            Ok(v) => {
                let name = subjects.last().name@;
                lemma_assoc_remove(prev, name);
                lemma_push_unique(assoc_remove(prev, name), name, summary_model(v@, today));
            },
            Err(_) => (),
        }
    }
}

/// Partial-failure law: a name appears among the summaries exactly when
/// some subject of that name had a successful fetch; a failed fetch
/// leaves its subject out without affecting the others.
pub proof fn lemma_partial_failure(
    subjects: Seq<Subject>,
    results: Seq<Result<Vec<QuizRecord>, AppError>>,
    today: Seq<char>,
    k: Seq<char>,
)
    requires
        subjects.len() == results.len(),
    ensures
        assoc_has(summaries_model(subjects, results, today), k) <==> (exists|i: int|
            0 <= i < results.len() && (#[trigger] results[i]) is Ok && subjects[i].name@ == k),
    decreases results.len(),
{
    let m = summaries_model(subjects, results, today);
    if results.len() == 0 {
        assert(!assoc_has(m, k));
    } else {
        let n = results.len() as int;
        lemma_partial_failure(subjects.drop_last(), results.drop_last(), today, k);
        lemma_summaries_unique(subjects.drop_last(), results.drop_last(), today);
        let prev = summaries_model(subjects.drop_last(), results.drop_last(), today);
        match results.last() {
            Ok(v) => {
                let name = subjects.last().name@;
                lemma_assoc_remove(prev, name);
                let trimmed = assoc_remove(prev, name);
                if k == name {
                    assert(m[m.len() - 1] == (k, summary_model(v@, today)));
                    assert(assoc_has(m, k));
                    assert(results[n - 1] is Ok && subjects[n - 1].name@ == k);
                } else {
                    assert forall|p: int|
                        0 <= p < m.len() && (#[trigger] m[p]).0 == k implies assoc_has(
                        trimmed,
                        k,
                    ) by {
                        if p < trimmed.len() {
                            assert(m[p] == trimmed[p]);
                        } else {
                            assert(m[p] == (name, summary_model(v@, today)));
                        }
                    }
                    assert forall|p: int|
                        0 <= p < trimmed.len() && (#[trigger] trimmed[p]).0
                            == k implies assoc_has(m, k) by {
                        assert(m[p] == trimmed[p]);
                    }
                    assert(assoc_has(trimmed, k) == assoc_has(prev, k));
                    assert(assoc_has(m, k) == assoc_has(prev, k));
                    assert forall|i: int|
                        0 <= i < n && (#[trigger] results[i]) is Ok && subjects[i].name@
                            == k implies i < n - 1 by {
                        if i == n - 1 {
                            assert(subjects[i].name@ == name);
                        }
                    }
                    assert forall|i: int|
                        0 <= i < n - 1 && (#[trigger] results.drop_last()[i]) is Ok
                            && subjects.drop_last()[i].name@ == k implies results[i] is Ok
                        && subjects[i].name@ == k by {
                        assert(results.drop_last()[i] == results[i]);
                        assert(subjects.drop_last()[i] == subjects[i]);
                    }
                    assert forall|i: int|
                        0 <= i < n - 1 && (#[trigger] results[i]) is Ok && subjects[i].name@
                            == k implies results.drop_last()[i] is Ok
                        && subjects.drop_last()[i].name@ == k by {
                        assert(results.drop_last()[i] == results[i]);
                        assert(subjects.drop_last()[i] == subjects[i]);
                    }
                }
            },
            Err(_) => {
                assert forall|i: int|
                    0 <= i < n && (#[trigger] results[i]) is Ok && subjects[i].name@
                        == k implies i < n - 1 && results.drop_last()[i] is Ok
                    && subjects.drop_last()[i].name@ == k by {
                    assert(i != n - 1);
                    assert(results.drop_last()[i] == results[i]);
                    assert(subjects.drop_last()[i] == subjects[i]);
                }
                assert forall|i: int|
                    0 <= i < n - 1 && (#[trigger] results.drop_last()[i]) is Ok
                        && subjects.drop_last()[i].name@ == k implies results[i] is Ok
                    && subjects[i].name@ == k by {
                    assert(results.drop_last()[i] == results[i]);
                    assert(subjects.drop_last()[i] == subjects[i]);
                }
            },
        }
    }
}

/// Counts lie between zero and the number of events, and one event is
/// never both a presence and an absence.
proof fn lemma_count_bounds(s: Seq<QuizRecord>)
    ensures
        0 <= count_present(s),
        0 <= count_absent(s),
        count_present(s) + count_absent(s) <= s.len(),
    decreases s.len(),
{
    if s.len() > 0 {
        lemma_count_bounds(s.drop_last());
        reveal_strlit("Present");
        reveal_strlit("Absent");
        assert("Present"@.len() == 7);
        assert("Absent"@.len() == 6);
    }
}

/// Grand totals lie between zero and the total number of fetched events.
proof fn lemma_grand_bounds(results: Seq<Result<Vec<QuizRecord>, AppError>>)
    ensures
        0 <= grand_present(results),
        0 <= grand_absent(results),
        grand_present(results) + grand_absent(results) <= total_ok_events(results),
    decreases results.len(),
{
    if results.len() > 0 {
        lemma_grand_bounds(results.drop_last());
        match results.last() {
            Ok(v) => lemma_count_bounds(v@),
            Err(_) => (),
        }
    }
}

/// A prefix fetches at most as many events as the whole.
proof fn lemma_total_ok_prefix(results: Seq<Result<Vec<QuizRecord>, AppError>>, m: int)
    requires
        0 <= m <= results.len(),
    ensures
        total_ok_events(results.take(m)) <= total_ok_events(results),
    decreases results.len() - m,
{
    if m < results.len() {
        lemma_total_ok_prefix(results, m + 1);
        let t = results.take(m + 1);
        assert(t.drop_last() =~= results.take(m));
        assert(t.last() == results[m]);
        match results[m] {
            Ok(v) => (),
            Err(_) => (),
        }
    } else {
        assert(results.take(m) =~= results);
    }
}

/// Merges one subject's events: its totals and its per-date counts.
pub fn summarize_subject(events: &Vec<QuizRecord>, today: &String) -> (r: SubjectSummary)
    requires
        events@.len() <= i32::MAX as int,
    ensures
        summary_rep(r) == summary_model(events@, today@),
        assoc_unique(daily_view(r.daily@)),
{
    let mut present_total: i32 = 0;
    let mut absent_total: i32 = 0;
    let mut daily: Vec<DailyAttendanceRecord> = Vec::new();
    let present_lit = String::from_str("Present");
    let absent_lit = String::from_str("Absent");
    let n = events.len();
    let mut idx: usize = 0;
    proof {
        assert(daily_view(daily@) =~= Seq::<(Seq<char>, (int, int))>::empty());
        assert(events@.take(0) =~= Seq::<QuizRecord>::empty());
    }
    loop
        invariant
            0 <= idx <= n,
            n == events@.len(),
            n <= i32::MAX,
            present_lit@ == "Present"@,
            absent_lit@ == "Absent"@,
            present_total as int == count_present(events@.take(idx as int)),
            absent_total as int == count_absent(events@.take(idx as int)),
            daily_view(daily@) == bucket_counts(events@.take(idx as int), today@),
            assoc_unique(daily_view(daily@)),
            forall|j: int|
                0 <= j < daily@.len() ==> (#[trigger] daily_view(daily@)[j]).1.0 >= 0
                    && daily_view(daily@)[j].1.1 >= 0 && daily_view(daily@)[j].1.0 + daily_view(
                    daily@,
                )[j].1.1 <= idx,
        ensures
            idx == n,
            present_total as int == count_present(events@.take(idx as int)),
            absent_total as int == count_absent(events@.take(idx as int)),
            daily_view(daily@) == bucket_counts(events@.take(idx as int), today@),
            assoc_unique(daily_view(daily@)),
        decreases n - idx,
    {
        if idx == n {
            break;
        }
        proof {
            lemma_count_bounds(events@.take(idx as int));
            let t = events@.take(idx as int + 1);
            assert(t.drop_last() =~= events@.take(idx as int));
            assert(t.last() == events@[idx as int]);
            reveal_strlit("Present");
            reveal_strlit("Absent");
            assert("Present"@.len() == 7);
            assert("Absent"@.len() == 6);
        }
        let ev = &events[idx];
        let is_p = ev.state.eq(&present_lit);
        let is_a = if is_p {
            false
        } else {
            ev.state.eq(&absent_lit)
        };
        if is_p || is_a {
            let ghost dv0 = daily_view(daily@);
            let date = classify_date(ev, today);
            match find_daily(&daily, &date) {
                Some(j) => {
                    proof {
                        lemma_assoc_at_unique(dv0, date@, j as int);
                    }
                    let rec = &mut daily[j];
                    if is_p {
                        rec.present = rec.present + 1;
                    } else {
                        rec.absent = rec.absent + 1;
                    }
                    proof {
                        assert(daily_view(daily@) =~= bump(dv0, date@, is_p));
                        assert forall|p: int, q: int|
                            0 <= p < q < daily_view(daily@).len() implies (
                        #[trigger] daily_view(daily@)[p]).0 != (#[trigger] daily_view(daily@)[q]).0
                            by {
                            assert(daily_view(daily@)[p].0 == dv0[p].0);
                            assert(daily_view(daily@)[q].0 == dv0[q].0);
                        }
                    }
                },
                None => {
                    daily.push(
                        DailyAttendanceRecord {
                            date,
                            present: if is_p {
                                1
                            } else {
                                0
                            },
                            absent: if is_p {
                                0
                            } else {
                                1
                            },
                        },
                    );
                    proof {
                        assert(daily_view(daily@) =~= bump(dv0, date@, is_p));
                        lemma_push_unique(
                            dv0,
                            date@,
                            if is_p {
                                (1int, 0int)
                            } else {
                                (0int, 1int)
                            },
                        );
                    }
                },
            }
            if is_p {
                present_total = present_total + 1;
            } else {
                absent_total = absent_total + 1;
            }
        }
        idx = idx + 1;
    }
    proof {
        assert(events@.take(n as int) =~= events@);
    }
    SubjectSummary { total_present: present_total, total_absent: absent_total, daily }
}

/// The index of the daily record for `date`, scanning from the front.
fn find_daily(daily: &Vec<DailyAttendanceRecord>, date: &String) -> (r: Option<usize>)
    ensures
        match r {
            Some(j) => 0 <= j < daily@.len() && daily@[j as int].date@ == date@,
            None => !assoc_has(daily_view(daily@), date@),
        },
{
    let n = daily.len();
    let mut i: usize = 0;
    loop
        invariant
            0 <= i <= n,
            n == daily@.len(),
            forall|j: int| 0 <= j < i ==> (#[trigger] daily_view(daily@)[j]).0 != date@,
        ensures
            (i < n && daily@[i as int].date@ == date@) || (i == n && !assoc_has(
                daily_view(daily@),
                date@,
            )),
        decreases n - i,
    {
        if i == n {
            break;
        }
        if daily[i].date.eq(date) {
            break;
        }
        i = i + 1;
    }
    if i < n {
        Some(i)
    } else {
        None
    }
}

/// Binds `name` to `summary`, dropping any earlier summary of that name.
fn insert_summary(
    summaries: &mut Vec<(String, SubjectSummary)>,
    name: &String,
    summary: SubjectSummary,
)
    requires
        assoc_unique(subjects_map_view(old(summaries)@)),
    ensures
        assoc_unique(subjects_map_view(final(summaries)@)),
        subjects_map_view(final(summaries)@) == assoc_set(
            subjects_map_view(old(summaries)@),
            name@,
            summary_rep(summary),
        ),
{
    let ghost v0 = subjects_map_view(summaries@);
    proof {
        lemma_assoc_remove(v0, name@);
    }
    let n = summaries.len();
    let mut i: usize = 0;
    loop
        invariant
            0 <= i <= n,
            n == summaries@.len(),
            subjects_map_view(summaries@) == v0,
            forall|j: int| 0 <= j < i ==> (#[trigger] v0[j]).0 != name@,
        ensures
            subjects_map_view(summaries@) == v0,
            (i < n && v0[i as int].0 == name@) || (i == n && !assoc_has(v0, name@)),
        decreases n - i,
    {
        if i == n {
            break;
        }
        if summaries[i].0.eq(name) {
            break;
        }
        i = i + 1;
    }
    if i < n {
        proof {
            lemma_assoc_at_unique(v0, name@, i as int);
        }
        let _ = summaries.remove(i);
        proof {
            assert(subjects_map_view(summaries@) =~= assoc_remove(v0, name@));
        }
    } else {
        proof {
            assert(subjects_map_view(summaries@) == assoc_remove(v0, name@));
        }
    }
    let ghost v1 = subjects_map_view(summaries@);
    proof {
        lemma_push_unique(v1, name@, summary_rep(summary));
    }
    summaries.push((name.clone(), summary));
    proof {
        assert(subjects_map_view(summaries@) =~= v1.push((name@, summary_rep(summary))));
    }
}

/// Binds `code` to `name`, dropping any earlier binding of that code.
fn insert_course(map: &mut Vec<(String, String)>, code: &String, name: &String)
    requires
        assoc_unique(course_map_view(old(map)@)),
    ensures
        assoc_unique(course_map_view(final(map)@)),
        course_map_view(final(map)@) == assoc_set(course_map_view(old(map)@), code@, name@),
{
    let ghost v0 = course_map_view(map@);
    proof {
        lemma_assoc_remove(v0, code@);
    }
    let n = map.len();
    let mut i: usize = 0;
    loop
        invariant
            0 <= i <= n,
            n == map@.len(),
            course_map_view(map@) == v0,
            forall|j: int| 0 <= j < i ==> (#[trigger] v0[j]).0 != code@,
        ensures
            course_map_view(map@) == v0,
            (i < n && v0[i as int].0 == code@) || (i == n && !assoc_has(v0, code@)),
        decreases n - i,
    {
        if i == n {
            break;
        }
        if map[i].0.eq(code) {
            break;
        }
        i = i + 1;
    }
    if i < n {
        proof {
            lemma_assoc_at_unique(v0, code@, i as int);
        }
        let _ = map.remove(i);
        proof {
            assert(course_map_view(map@) =~= assoc_remove(v0, code@));
        }
    } else {
        proof {
            assert(course_map_view(map@) == assoc_remove(v0, code@));
        }
    }
    let ghost v1 = course_map_view(map@);
    proof {
        lemma_push_unique(v1, code@, name@);
    }
    map.push((code.clone(), name.clone()));
    proof {
        assert(course_map_view(map@) =~= v1.push((code@, name@)));
    }
}

/// Builds the course-code map of a subject list.
pub fn build_course_code_map(subjects: &Vec<Subject>) -> (map: Vec<(String, String)>)
    ensures
        assoc_unique(course_map_view(map@)),
        course_map_view(map@) == course_map_model(subjects@),
{
    let n = subjects.len();
    let mut map: Vec<(String, String)> = Vec::new();
    let mut i: usize = 0;
    proof {
        assert(course_map_view(map@) =~= Seq::<(Seq<char>, Seq<char>)>::empty());
        assert(subjects@.take(0) =~= Seq::<Subject>::empty());
    }
    loop
        invariant
            0 <= i <= n,
            n == subjects@.len(),
            assoc_unique(course_map_view(map@)),
            course_map_view(map@) == course_map_model(subjects@.take(i as int)),
        ensures
            i == n,
            assoc_unique(course_map_view(map@)),
            course_map_view(map@) == course_map_model(subjects@.take(i as int)),
        decreases n - i,
    {
        if i == n {
            break;
        }
        let s = &subjects[i];
        insert_course(&mut map, &s.code, &s.name);
        proof {
            let t = subjects@.take(i as int + 1);
            assert(t.drop_last() =~= subjects@.take(i as int));
            assert(t.last() == subjects@[i as int]);
        }
        i = i + 1;
    }
    proof {
        assert(subjects@.take(n as int) =~= subjects@);
    }
    map
}

/// Merges the settled per-subject fetch outcomes into the aggregate
/// response. A failed fetch omits its subject and contributes nothing to
/// the grand totals; an empty subject list fails before anything is
/// merged.
pub fn aggregate_all_attendance(
    student_id: String,
    subjects: &Vec<Subject>,
    results: &Vec<Result<Vec<QuizRecord>, AppError>>,
    today: &String,
    now: u64,
) -> (r: Result<AllAttendanceResponse, AppError>)
    requires
        results@.len() == subjects@.len(),
        total_ok_events(results@) <= i32::MAX as int,
    ensures
        subjects@.len() == 0 ==> (r matches Err(e) && e matches AppError::ExternalApiError(m) && m@
            == "No subjects found"@),
        subjects@.len() > 0 ==> (r matches Ok(a) && a.student_id == student_id && a.cached_at
            == now),
        subjects@.len() > 0 ==> (r matches Ok(a) && a.total_present_all_subjects as int
            == grand_present(results@) && a.total_absent_all_subjects as int == grand_absent(
            results@,
        )),
        subjects@.len() > 0 ==> (r matches Ok(a) && assoc_unique(subjects_map_view(a.subjects@))
            && subjects_map_view(a.subjects@) == summaries_model(subjects@, results@, today@)),
        subjects@.len() > 0 ==> (r matches Ok(a) && assoc_unique(course_map_view(a.course_code_map@))
            && course_map_view(a.course_code_map@) == course_map_model(subjects@)),
{
    if subjects.is_empty() {
        return Err(AppError::ExternalApiError(String::from_str("No subjects found")));
    }
    let course_code_map = build_course_code_map(subjects);
    let n = subjects.len();
    let mut grand_p: i32 = 0;
    let mut grand_a: i32 = 0;
    let mut summaries: Vec<(String, SubjectSummary)> = Vec::new();
    let mut i: usize = 0;
    proof {
        assert(subjects_map_view(summaries@) =~= Seq::<
            (Seq<char>, (int, int, Seq<(Seq<char>, (int, int))>)),
        >::empty());
        assert(subjects@.take(0) =~= Seq::<Subject>::empty());
        assert(results@.take(0) =~= Seq::<Result<Vec<QuizRecord>, AppError>>::empty());
    }
    loop
        invariant
            0 <= i <= n,
            n == subjects@.len(),
            n == results@.len(),
            total_ok_events(results@) <= i32::MAX as int,
            grand_p as int == grand_present(results@.take(i as int)),
            grand_a as int == grand_absent(results@.take(i as int)),
            assoc_unique(subjects_map_view(summaries@)),
            subjects_map_view(summaries@) == summaries_model(
                subjects@.take(i as int),
                results@.take(i as int),
                today@,
            ),
        ensures
            i == n,
            grand_p as int == grand_present(results@.take(i as int)),
            grand_a as int == grand_absent(results@.take(i as int)),
            assoc_unique(subjects_map_view(summaries@)),
            subjects_map_view(summaries@) == summaries_model(
                subjects@.take(i as int),
                results@.take(i as int),
                today@,
            ),
        decreases n - i,
    {
        if i == n {
            break;
        }
        proof {
            let ts = subjects@.take(i as int + 1);
            let tr = results@.take(i as int + 1);
            assert(ts.drop_last() =~= subjects@.take(i as int));
            assert(tr.drop_last() =~= results@.take(i as int));
            assert(ts.last() == subjects@[i as int]);
            assert(tr.last() == results@[i as int]);
            lemma_grand_bounds(results@.take(i as int));
            lemma_grand_bounds(results@.take(i as int + 1));
            lemma_total_ok_prefix(results@, i as int + 1);
        }
        match &results[i] {
            Ok(events) => {
                proof {
                    lemma_count_bounds(events@);
                    lemma_total_ok_prefix(results@, i as int);
                    assert(total_ok_events(results@.take(i as int + 1)) == total_ok_events(
                        results@.take(i as int),
                    ) + events@.len());
                }
                let subject = &subjects[i];
                let summary = summarize_subject(events, today);
                grand_p = grand_p + summary.total_present;
                grand_a = grand_a + summary.total_absent;
                insert_summary(&mut summaries, &subject.name, summary);
            },
            Err(_) => {},
        }
        i = i + 1;
    }
    proof {
        assert(subjects@.take(n as int) =~= subjects@);
        assert(results@.take(n as int) =~= results@);
    }
    Ok(
        AllAttendanceResponse {
            student_id,
            total_present_all_subjects: grand_p,
            total_absent_all_subjects: grand_a,
            subjects: summaries,
            course_code_map,
            cached_at: now,
        },
    )
}

} // verus!
