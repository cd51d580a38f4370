//! Which events a report looks at, and how they are split into partitions.

use vstd::prelude::*;
use crate::models::event::{Event, EventView};
use crate::report::timeline::{active_millis, active_time, ascending, sort_times};

verus! {

pub const MILLIS_PER_HOUR: i64 = 3_600_000;

pub const MILLIS_PER_DAY: i64 = 86_400_000;

/// The events of one user within `[from, to)`, optionally of one project.
#[derive(Debug, Clone)]
pub struct Query {
    pub user_id: u128,
    pub from: i64,
    pub to: i64,
    pub project: Option<String>,
}

/// The mathematical content of a [`Query`].
pub struct QueryView {
    pub user_id: u128,
    pub from: i64,
    pub to: i64,
    pub project: Option<Seq<char>>,
}

impl View for Query {
    type V = QueryView;

    open spec fn view(&self) -> QueryView {
        QueryView {
            user_id: self.user_id,
            from: self.from,
            to: self.to,
            project: crate::text::opt_text(self.project),
        }
    }
}

/// The grouping key of a partition.
pub enum Facet<'a> {
    /// Every event: the partition of the overall total.
    All,
    /// The events of one project.
    Project(&'a String),
    /// The events of one language.
    Language(&'a String),
    /// The events of one calendar day.
    Day(i64),
    /// The events of one hour of the day.
    Hour(u8),
}

/// The mathematical content of a [`Facet`].
pub enum FacetView {
    All,
    Project(Seq<char>),
    Language(Seq<char>),
    Day(int),
    Hour(int),
}

impl<'a> View for Facet<'a> {
    type V = FacetView;

    open spec fn view(&self) -> FacetView {
        match *self {
            Facet::All => FacetView::All,
            Facet::Project(name) => FacetView::Project(name@),
            Facet::Language(name) => FacetView::Language(name@),
            Facet::Day(day) => FacetView::Day(day as int),
            Facet::Hour(hour) => FacetView::Hour(hour as int),
        }
    }
}

/// The calendar day of an instant: whole days since the epoch, rounded down.
pub open spec fn day_of(at: i64) -> int {
    at as int / 86_400_000
}

/// The hour of the day of an instant, 0 to 23.
pub open spec fn hour_of(at: i64) -> int {
    (at as int / 3_600_000) % 24
}

/// `at / unit`, rounded towards minus infinity.
fn floor_div(at: i64, unit: i64) -> (q: i64)
    requires
        unit > 0,
    ensures
        q == at as int / unit as int,
{
    if at >= 0 {
        let q: i64 = at / unit;
        q
    } else {
        let below: i64 = -(at + 1);
        let steps: i64 = below / unit;
        assert(at as int / unit as int == -(below as int / unit as int) - 1) by (nonlinear_arith)
            requires
                unit > 0,
                at < 0,
                below == -(at + 1),
        ;
        -steps - 1
    }
}

pub fn calendar_day(at: i64) -> (day: i64)
    ensures
        day == day_of(at),
{
    floor_div(at, MILLIS_PER_DAY)
}

pub fn hour_of_day(at: i64) -> (hour: u8)
    ensures
        hour == hour_of(at),
        hour < 24,
{
    let hours: i64 = floor_div(at, MILLIS_PER_HOUR);
    let day_start: i64 = floor_div(hours, 24);
    assert(hours as int % 24 == hours - 24 * (hours as int / 24)) by (nonlinear_arith);
    assert(0 <= hours as int % 24 < 24);
    let hour: i64 = hours - 24 * day_start;
    hour as u8
}

/// Whether the query looks at the event at all.
pub open spec fn in_scope(e: EventView, q: QueryView) -> bool {
    &&& e.user_id == q.user_id
    &&& q.from <= e.timestamp < q.to
    &&& (q.project is Some ==> e.project == q.project)
}

/// Whether the event belongs to the partition of a grouping key.
pub open spec fn in_facet(e: EventView, f: FacetView) -> bool {
    match f {
        FacetView::All => true,
        FacetView::Project(name) => e.project == Some(name),
        FacetView::Language(name) => e.language == Some(name),
        FacetView::Day(day) => day_of(e.timestamp) == day,
        FacetView::Hour(hour) => hour_of(e.timestamp) == hour,
    }
}

/// Whether an optional text is present and equal to `name`.
pub fn holds_name(field: &Option<String>, name: &String) -> (yes: bool)
    ensures
        yes == (crate::text::opt_text(*field) == Some(name@)),
{
    match field {
        Some(text) => *text == *name,
        None => false,
    }
}

pub fn event_in_scope(e: &Event, q: &Query) -> (yes: bool)
    ensures
        yes == in_scope(e@, q@),
{
    if e.user_id != q.user_id || e.timestamp < q.from || e.timestamp >= q.to {
        return false;
    }
    match &q.project {
        Some(p) => holds_name(&e.project, p),
        None => true,
    }
}

pub fn event_in_facet(e: &Event, f: &Facet) -> (yes: bool)
    ensures
        yes == in_facet(e@, f@),
{
    match f {
        Facet::All => true,
        Facet::Project(name) => holds_name(&e.project, name),
        Facet::Language(name) => holds_name(&e.language, name),
        Facet::Day(day) => calendar_day(e.timestamp) == *day,
        Facet::Hour(hour) => hour_of_day(e.timestamp) == *hour,
    }
}

/// The instants of the events that the query looks at and that fall into the
/// partition, in the order of the log.
pub open spec fn times_in(events: Seq<Event>, q: QueryView, f: FacetView) -> Seq<i64>
    decreases events.len(),
{
    if events.len() == 0 {
        Seq::empty()
    } else {
        let before = times_in(events.drop_last(), q, f);
        let e = events.last()@;
        if in_scope(e, q) && in_facet(e, f) {
            before.push(e.timestamp)
        } else {
            before
        }
    }
}

/// Active time of one partition: its instants in time order, their gaps
/// credited against the idle threshold.
pub open spec fn partition_time(events: Seq<Event>, q: QueryView, f: FacetView, idle_ms: int) -> int {
    active_time(ascending(times_in(events, q, f)), idle_ms)
}

pub fn collect_times(events: &Vec<Event>, q: &Query, f: &Facet) -> (out: Vec<i64>)
    ensures
        out@ == times_in(events@, q@, f@),
{
    let mut out: Vec<i64> = Vec::new();
    let mut i: usize = 0;
    while i < events.len()
        invariant
            i <= events.len(),
            out@ == times_in(events@.take(i as int), q@, f@),
        decreases events.len() - i,
    {
        assert(events@.take(i + 1).drop_last() =~= events@.take(i as int));
        let e = &events[i];
        if event_in_scope(e, q) && event_in_facet(e, f) {
            out.push(e.timestamp);
        }
        i = i + 1;
    }
    assert(events@.take(events.len() as int) =~= events@);
    out
}

/// The idle threshold in milliseconds.
pub open spec fn idle_millis(idle_timeout: u64) -> int {
    idle_timeout * 1_000
}

pub fn idle_threshold(idle_timeout: u64) -> (idle_ms: u128)
    ensures
        idle_ms == idle_millis(idle_timeout),
{
    (idle_timeout as u128) * 1_000
}

pub fn partition_millis(events: &Vec<Event>, q: &Query, f: &Facet, idle_timeout: u64) -> (total: u64)
    ensures
        total == partition_time(events@, q@, f@, idle_millis(idle_timeout)),
{
    let times = collect_times(events, q, f);
    let sorted = sort_times(&times);
    active_millis(&sorted, idle_threshold(idle_timeout))
}

} // verus!
