//! Session reconstruction and time summaries over the stored event log.
//!
//! A report reads the log and never changes it. The events of one user within
//! a half-open range of instants are selected, split into partitions by a
//! grouping key, put into time order, and the gaps between neighbours are
//! credited against the idle timeout.

pub mod calendar;
pub mod categories;
pub mod laws;
pub mod selection;
pub mod sessions;
pub mod timeline;

use vstd::prelude::*;
use crate::clock::now_millis;
use crate::models::event::Event;
use crate::models::report::{
    session_views, HourlyActivity, ReportRequest, ReportRequestView, Session, Summary,
    SummaryView,
};
use crate::report::calendar::{day_summaries, days, hour_summaries, hours};
use crate::report::categories::{categories, category_summaries, Field};
use crate::report::selection::{
    idle_millis, partition_millis, partition_time, Facet, FacetView, Query, QueryView,
};
use crate::report::sessions::{reconstruct_sessions, sessions};

verus! {

/// The range of a report without bounds: the last seven days.
pub const DEFAULT_RANGE_MILLIS: i64 = 604_800_000;

/// The instant seven days before `now`, or the earliest instant there is.
pub open spec fn week_before(now: i64) -> i64 {
    if now - 604_800_000 < i64::MIN {
        i64::MIN
    } else {
        (now - 604_800_000) as i64
    }
}

/// The query that a request stands for at the instant `now`: an absent start
/// is seven days before `now`, an absent end is `now`.
pub open spec fn resolve(user_id: u128, req: ReportRequestView, now: i64) -> QueryView {
    QueryView {
        user_id,
        from: match req.from {
            Some(from) => from,
            None => week_before(now),
        },
        to: match req.to {
            Some(to) => to,
            None => now,
        },
        project: req.project,
    }
}

pub fn resolve_query(user_id: u128, req: &ReportRequest, now: i64) -> (q: Query)
    ensures
        q@ == resolve(user_id, req@, now),
{
    let from: i64 = match req.from {
        Some(from) => from,
        None => if now < i64::MIN + DEFAULT_RANGE_MILLIS {
            i64::MIN
        } else {
            now - DEFAULT_RANGE_MILLIS
        },
    };
    let to: i64 = match req.to {
        Some(to) => to,
        None => now,
    };
    Query { user_id, from, to, project: req.project.clone() }
}

/// The active time of everything the query looks at.
pub open spec fn total_time(events: Seq<Event>, q: QueryView, idle_ms: int) -> int {
    partition_time(events, q, FacetView::All, idle_ms)
}

/// The summary that a query has over a log.
pub open spec fn summary_of(events: Seq<Event>, q: QueryView, idle_ms: int) -> SummaryView {
    SummaryView {
        total_millis: total_time(events, q, idle_ms) as u64,
        from: q.from,
        to: q.to,
        projects: categories(events, q, Field::Project, idle_ms),
        languages: categories(events, q, Field::Language, idle_ms),
        days: days(events, q, idle_ms),
    }
}

/// Total active time of the events the query looks at, in milliseconds.
pub fn total_active_millis(events: &Vec<Event>, q: &Query, idle_timeout: u64) -> (total: u64)
    ensures
        total == total_time(events@, q@, idle_millis(idle_timeout)),
{
    partition_millis(events, q, &Facet::All, idle_timeout)
}

/// The summary of a user's activity as of the instant `now`: total active
/// time, time per project, per language and per day.
pub fn get_summary_at(
    events: &Vec<Event>,
    user_id: u128,
    req: &ReportRequest,
    idle_timeout: u64,
    now: i64,
) -> (summary: Summary)
    ensures
        summary@ == summary_of(events@, resolve(user_id, req@, now), idle_millis(idle_timeout)),
{
    let q = resolve_query(user_id, req, now);
    let total: u64 = total_active_millis(events, &q, idle_timeout);
    let projects = category_summaries(events, &q, Field::Project, idle_timeout);
    let languages = category_summaries(events, &q, Field::Language, idle_timeout);
    let days = day_summaries(events, &q, idle_timeout);
    Summary { total_millis: total, from: q.from, to: q.to, projects, languages, days }
}

/// The summary of a user's activity as of now.
///
/// The clock only decides the bounds that the request leaves open: with both
/// bounds given the summary is that of the request alone, and the clock is
/// not read.
pub fn get_summary(events: &Vec<Event>, user_id: u128, req: &ReportRequest, idle_timeout: u64) -> (summary:
    Summary)
    ensures
        exists|now: i64|
            summary@ == summary_of(
                events@,
                #[trigger] resolve(user_id, req@, now),
                idle_millis(idle_timeout),
            ),
        req.from is Some && req.to is Some ==> summary@ == summary_of(
            events@,
            resolve(user_id, req@, 0),
            idle_millis(idle_timeout),
        ),
{
    let now: i64 = if req.from.is_some() && req.to.is_some() {
        0
    } else {
        now_millis()
    };
    get_summary_at(events, user_id, req, idle_timeout, now)
}

/// The sessions of a user as of the instant `now`, in time order.
pub fn get_sessions_at(
    events: &Vec<Event>,
    user_id: u128,
    req: &ReportRequest,
    idle_timeout: u64,
    now: i64,
) -> (out: Vec<Session>)
    ensures
        session_views(out@) == sessions(
            events@,
            resolve(user_id, req@, now),
            idle_millis(idle_timeout),
        ),
{
    let q = resolve_query(user_id, req, now);
    reconstruct_sessions(events, &q, idle_timeout)
}

/// The sessions of a user as of now, in time order.
pub fn get_sessions(events: &Vec<Event>, user_id: u128, req: &ReportRequest, idle_timeout: u64) -> (out:
    Vec<Session>)
    ensures
        exists|now: i64|
            session_views(out@) == sessions(
                events@,
                #[trigger] resolve(user_id, req@, now),
                idle_millis(idle_timeout),
            ),
        req.from is Some && req.to is Some ==> session_views(out@) == sessions(
            events@,
            resolve(user_id, req@, 0),
            idle_millis(idle_timeout),
        ),
{
    let now: i64 = if req.from.is_some() && req.to.is_some() {
        0
    } else {
        now_millis()
    };
    get_sessions_at(events, user_id, req, idle_timeout, now)
}

/// The activity of a user per hour of the day as of the instant `now`.
pub fn get_hourly_activity_at(
    events: &Vec<Event>,
    user_id: u128,
    req: &ReportRequest,
    idle_timeout: u64,
    now: i64,
) -> (out: Vec<HourlyActivity>)
    ensures
        out@ == hours(events@, resolve(user_id, req@, now), idle_millis(idle_timeout)),
{
    let q = resolve_query(user_id, req, now);
    hour_summaries(events, &q, idle_timeout)
}

/// The activity of a user per hour of the day as of now.
pub fn get_hourly_activity(
    events: &Vec<Event>,
    user_id: u128,
    req: &ReportRequest,
    idle_timeout: u64,
) -> (out: Vec<HourlyActivity>)
    ensures
        exists|now: i64|
            out@ == hours(
                events@,
                #[trigger] resolve(user_id, req@, now),
                idle_millis(idle_timeout),
            ),
        req.from is Some && req.to is Some ==> out@ == hours(
            events@,
            resolve(user_id, req@, 0),
            idle_millis(idle_timeout),
        ),
{
    let now: i64 = if req.from.is_some() && req.to.is_some() {
        0
    } else {
        now_millis()
    };
    get_hourly_activity_at(events, user_id, req, idle_timeout, now)
}

} // verus!
