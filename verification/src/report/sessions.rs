//! Work sessions: maximal runs of events without an idle gap.

use vstd::prelude::*;
use crate::models::event::Event;
use crate::models::report::{session_views, Session, SessionView};
use crate::report::selection::{
    collect_times, event_in_scope, idle_millis, idle_threshold, in_scope, times_in, Facet,
    FacetView, Query, QueryView,
};
use crate::report::timeline::{
    ascending, lemma_stretches, run_views, sort_times, split_runs, stretches, Run, Stretch,
};
use crate::text::opt_text;

verus! {

/// The position in the log of the first event that the query looks at and
/// that was recorded at `at`.
pub open spec fn first_at(events: Seq<Event>, q: QueryView, at: i64) -> Option<int>
    decreases events.len(),
{
    if events.len() == 0 {
        None
    } else {
        match first_at(events.drop_last(), q, at) {
            Some(i) => Some(i),
            None => if in_scope(events.last()@, q) && events.last().timestamp == at {
                Some(events.len() - 1)
            } else {
                None
            },
        }
    }
}

/// The project of a session that starts at `at`: that of the first event in
/// the log recorded at this instant.
pub open spec fn project_at(events: Seq<Event>, q: QueryView, at: i64) -> Option<Seq<char>> {
    match first_at(events, q, at) {
        Some(i) => events[i]@.project,
        None => None,
    }
}

/// The session that a stretch of the selected instants stands for.
pub open spec fn session_of(events: Seq<Event>, q: QueryView, s: Stretch) -> SessionView {
    SessionView {
        start: s.start,
        end: s.end,
        duration_millis: (s.end - s.start) as u64,
        project: project_at(events, q, s.start),
        event_count: s.events as u64,
    }
}

/// The stretches of the events the query looks at.
pub open spec fn session_stretches(events: Seq<Event>, q: QueryView, idle_ms: int) -> Seq<Stretch> {
    stretches(ascending(times_in(events, q, FacetView::All)), idle_ms)
}

/// The sessions of a report, in time order.
pub open spec fn sessions(events: Seq<Event>, q: QueryView, idle_ms: int) -> Seq<SessionView> {
    let runs = session_stretches(events, q, idle_ms);
    Seq::new(runs.len(), |k: int| session_of(events, q, runs[k]))
}

/// A match found in a prefix of the log is the match in the whole log.
proof fn lemma_first_at_stays(events: Seq<Event>, q: QueryView, at: i64, upto: int)
    requires
        0 <= upto <= events.len(),
        first_at(events.take(upto), q, at) is Some,
    ensures
        first_at(events, q, at) == first_at(events.take(upto), q, at),
    decreases events.len() - upto,
{
    if upto < events.len() {
        assert(events.take(upto + 1).drop_last() =~= events.take(upto));
        lemma_first_at_stays(events, q, at, upto + 1);
    } else {
        assert(events.take(upto) =~= events);
    }
}

fn project_of_start(events: &Vec<Event>, q: &Query, at: i64) -> (project: Option<String>)
    ensures
        opt_text(project) == project_at(events@, q@, at),
{
    let mut i: usize = 0;
    while i < events.len()
        invariant
            i <= events.len(),
            first_at(events@.take(i as int), q@, at) is None,
        decreases events.len() - i,
    {
        assert(events@.take(i + 1).drop_last() =~= events@.take(i as int));
        let e = &events[i];
        if e.timestamp == at && event_in_scope(e, q) {
            proof {
                lemma_first_at_stays(events@, q@, at, i + 1);
            }
            return e.project.clone();
        }
        i = i + 1;
    }
    assert(events@.take(events.len() as int) =~= events@);
    None
}

/// Reconstructs the sessions of the events the query looks at: a session
/// begins at the first event and wherever the gap to the event before
/// reaches the idle timeout.
pub fn reconstruct_sessions(events: &Vec<Event>, q: &Query, idle_timeout: u64) -> (out: Vec<
    Session,
>)
    ensures
        session_views(out@) == sessions(events@, q@, idle_millis(idle_timeout)),
{
    let ghost idle = idle_millis(idle_timeout);
    let all = collect_times(events, q, &Facet::All);
    let times = sort_times(&all);
    let runs: Vec<Run> = split_runs(&times, idle_threshold(idle_timeout));
    proof {
        lemma_stretches(times@, idle);
    }
    let mut out: Vec<Session> = Vec::new();
    let mut i: usize = 0;
    while i < runs.len()
        invariant
            i <= runs.len(),
            idle == idle_millis(idle_timeout),
            run_views(runs@) == session_stretches(events@, q@, idle),
            forall|k: int|
                0 <= k < runs.len() ==> (#[trigger] run_views(runs@)[k]).start <= run_views(
                    runs@,
                )[k].end,
            out.len() == i,
            forall|k: int|
                0 <= k < i ==> (#[trigger] out[k])@ == session_of(
                    events@,
                    q@,
                    run_views(runs@)[k],
                ),
        decreases runs.len() - i,
    {
        let run: Run = runs[i];
        assert(run@ == run_views(runs@)[i as int]);
        let project = project_of_start(events, q, run.start);
        let duration: u64 = (run.end as i128 - run.start as i128) as u64;
        out.push(
            Session {
                start: run.start,
                end: run.end,
                duration_millis: duration,
                project,
                event_count: run.events,
            },
        );
        i = i + 1;
    }
    assert(session_views(out@) =~= sessions(events@, q@, idle));
    out
}

} // verus!
