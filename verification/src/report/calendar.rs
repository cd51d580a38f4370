//! Time per calendar day and per hour of the day.

use vstd::prelude::*;
use crate::models::event::Event;
use crate::models::report::{DaySummary, HourlyActivity};
use crate::report::selection::{
    calendar_day, collect_times, day_of, idle_millis, idle_threshold, partition_millis,
    partition_time, times_in, Facet, FacetView, Query, QueryView,
};
use crate::report::timeline::{active_millis, ascending, ordered, sort_times};

verus! {

/// The calendar days of ordered instants: each day once, ascending.
pub open spec fn day_list(times: Seq<i64>) -> Seq<int>
    decreases times.len(),
{
    if times.len() == 0 {
        Seq::empty()
    } else {
        let before = day_list(times.drop_last());
        let day = day_of(times.last());
        if before.len() > 0 && before.last() == day {
            before
        } else {
            before.push(day)
        }
    }
}

/// The days on which the query finds events.
pub open spec fn active_days(events: Seq<Event>, q: QueryView) -> Seq<int> {
    day_list(ascending(times_in(events, q, FacetView::All)))
}

/// The entry of one day.
pub open spec fn day_entry(events: Seq<Event>, q: QueryView, idle_ms: int, day: int) -> DaySummary {
    DaySummary {
        date: day as i64,
        total_millis: partition_time(events, q, FacetView::Day(day), idle_ms) as u64,
    }
}

/// The day summary of a report: one entry per day with events, in calendar
/// order.
pub open spec fn days(events: Seq<Event>, q: QueryView, idle_ms: int) -> Seq<DaySummary> {
    let list = active_days(events, q);
    Seq::new(list.len(), |k: int| day_entry(events, q, idle_ms, list[k]))
}

/// Time per calendar day over the events the query looks at.
pub fn day_summaries(events: &Vec<Event>, q: &Query, idle_timeout: u64) -> (out: Vec<DaySummary>)
    ensures
        out@ == days(events@, q@, idle_millis(idle_timeout)),
{
    let ghost idle = idle_millis(idle_timeout);
    let all = collect_times(events, q, &Facet::All);
    let times = sort_times(&all);
    let mut out: Vec<DaySummary> = Vec::new();
    let ghost mut list: Seq<int> = Seq::empty();
    let mut i: usize = 0;
    while i < times.len()
        invariant
            i <= times.len(),
            idle == idle_millis(idle_timeout),
            list == day_list(times@.take(i as int)),
            out@.len() == list.len(),
            forall|k: int| 0 <= k < list.len() ==> out@[k] == day_entry(events@, q@, idle, list[k]),
        decreases times.len() - i,
    {
        assert(times@.take(i + 1).drop_last() =~= times@.take(i as int));
        let day: i64 = calendar_day(times[i]);
        let fresh: bool = out.len() == 0 || out[out.len() - 1].date != day;
        if fresh {
            let total: u64 = partition_millis(events, q, &Facet::Day(day), idle_timeout);
            out.push(DaySummary { date: day, total_millis: total });
            proof {
                list = list.push(day as int);
            }
        }
        i = i + 1;
    }
    assert(times@.take(times.len() as int) =~= times@);
    assert(out@ =~= days(events@, q@, idle));
    out
}

/// The entries of the hours below `upto` in which the query finds events.
pub open spec fn hours_below(events: Seq<Event>, q: QueryView, idle_ms: int, upto: int) -> Seq<
    HourlyActivity,
>
    decreases upto,
{
    if upto <= 0 {
        Seq::empty()
    } else {
        let before = hours_below(events, q, idle_ms, upto - 1);
        let hour = upto - 1;
        let found = times_in(events, q, FacetView::Hour(hour)).len();
        if found > 0 {
            before.push(
                HourlyActivity {
                    hour: hour as u8,
                    total_millis: partition_time(events, q, FacetView::Hour(hour), idle_ms) as u64,
                    event_count: found as u64,
                },
            )
        } else {
            before
        }
    }
}

/// The hourly activity of a report: one entry per hour of the day in which
/// there are events, from midnight on.
pub open spec fn hours(events: Seq<Event>, q: QueryView, idle_ms: int) -> Seq<HourlyActivity> {
    hours_below(events, q, idle_ms, 24)
}

/// Time and number of events per hour of the day over the events the query
/// looks at.
pub fn hour_summaries(events: &Vec<Event>, q: &Query, idle_timeout: u64) -> (out: Vec<
    HourlyActivity,
>)
    ensures
        out@ == hours(events@, q@, idle_millis(idle_timeout)),
{
    let mut out: Vec<HourlyActivity> = Vec::new();
    let mut hour: u8 = 0;
    while hour < 24
        invariant
            hour <= 24,
            out@ == hours_below(events@, q@, idle_millis(idle_timeout), hour as int),
        decreases 24 - hour,
    {
        let times = collect_times(events, q, &Facet::Hour(hour));
        if times.len() > 0 {
            let sorted = sort_times(&times);
            let total: u64 = active_millis(&sorted, idle_threshold(idle_timeout));
            out.push(HourlyActivity { hour, total_millis: total, event_count: times.len() as u64 });
        }
        hour = hour + 1;
    }
    out
}

} // verus!
