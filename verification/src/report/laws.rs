//! What holds of every report.

use vstd::prelude::*;
use crate::models::event::Event;
use crate::report::categories::{
    categories, grand_total, lemma_categories, share, sum_millis, sum_shares, Field,
};
use crate::models::report::SessionView;
use crate::report::selection::{idle_millis, partition_time, times_in, FacetView, QueryView};
use crate::report::sessions::{session_of, session_stretches, sessions};
use crate::report::timeline::{
    active_time, ascending, lemma_ascending, lemma_stretches, stretches, Stretch,
};
use crate::report::total_time;

verus! {

/// A longer idle threshold never credits less time to a run of instants.
pub proof fn lemma_active_time_monotone(times: Seq<i64>, shorter: int, longer: int)
    requires
        0 <= shorter <= longer,
    ensures
        active_time(times, shorter) <= active_time(times, longer),
    decreases times.len(),
{
    if times.len() >= 2 {
        lemma_active_time_monotone(times.drop_last(), shorter, longer);
    }
}

/// A longer idle timeout never lowers the active time of a partition.
pub proof fn lemma_partition_time_monotone(
    events: Seq<Event>,
    q: QueryView,
    f: FacetView,
    shorter: u64,
    longer: u64,
)
    requires
        shorter <= longer,
    ensures
        partition_time(events, q, f, idle_millis(shorter)) <= partition_time(
            events,
            q,
            f,
            idle_millis(longer),
        ),
{
    lemma_active_time_monotone(
        crate::report::timeline::ascending(crate::report::selection::times_in(events, q, f)),
        idle_millis(shorter),
        idle_millis(longer),
    );
}

/// Idle-gap monotonicity: over a fixed log and query, raising the idle
/// timeout never lowers the total active time.
pub proof fn lemma_total_time_monotone(events: Seq<Event>, q: QueryView, shorter: u64, longer: u64)
    requires
        shorter <= longer,
    ensures
        total_time(events, q, idle_millis(shorter)) <= total_time(events, q, idle_millis(longer)),
{
    lemma_partition_time_monotone(events, q, FacetView::All, shorter, longer);
}

/// Percentage closure: where the categories of a summary have any time at
/// all, their shares add up to exactly one whole, and their times to the
/// whole that the shares are taken of. Every share but the first is the
/// exact share rounded down; the first takes what the rounding leaves over,
/// which is less than a thousandth of a percent per category.
pub proof fn lemma_percentage_closure(events: Seq<Event>, q: QueryView, field: Field, idle_ms: int)
    requires
        grand_total(events, q, field, idle_ms) > 0,
    ensures
        sum_millis(categories(events, q, field, idle_ms)) == grand_total(events, q, field, idle_ms),
        sum_shares(categories(events, q, field, idle_ms)) == 100_000,
        categories(events, q, field, idle_ms).len() > 0,
        forall|k: int|
            0 <= k < categories(events, q, field, idle_ms).len() ==> {
                let entry = #[trigger] categories(events, q, field, idle_ms)[k];
                let floor = share(
                    entry.total_millis as int,
                    grand_total(events, q, field, idle_ms),
                );
                &&& floor <= entry.percent_millis < floor + categories(
                    events,
                    q,
                    field,
                    idle_ms,
                ).len()
                &&& k > 0 ==> entry.percent_millis == floor
            },
{
    lemma_categories(events, q, field, idle_ms);
}

/// The summed lengths of a list of stretches.
pub open spec fn sum_lengths(s: Seq<Stretch>) -> int
    decreases s.len(),
{
    if s.len() == 0 {
        0
    } else {
        sum_lengths(s.drop_last()) + (s.last().end - s.last().start)
    }
}

/// The summed numbers of instants of a list of stretches.
pub open spec fn sum_events(s: Seq<Stretch>) -> int
    decreases s.len(),
{
    if s.len() == 0 {
        0
    } else {
        sum_events(s.drop_last()) + s.last().events
    }
}

/// The stretches of a run of instants share out its instants and its active
/// time: every instant lies in one stretch, and the lengths of the stretches
/// add up to the active time.
pub proof fn lemma_stretches_cover(times: Seq<i64>, idle_ms: int)
    ensures
        sum_lengths(stretches(times, idle_ms)) == active_time(times, idle_ms),
        sum_events(stretches(times, idle_ms)) == times.len(),
        times.len() > 0 ==> stretches(times, idle_ms).len() > 0 && stretches(
            times,
            idle_ms,
        ).last().end == times.last(),
    decreases times.len(),
{
    if times.len() > 0 {
        let head = times.drop_last();
        lemma_stretches_cover(head, idle_ms);
        let before = stretches(head, idle_ms);
        let at = times.last();
        if times.len() == 1 || at - times[times.len() - 2] >= idle_ms {
            assert(before.push(Stretch { start: at, end: at, events: 1 }).drop_last() =~= before);
        } else {
            let grown = Stretch {
                start: before.last().start,
                end: at,
                events: before.last().events + 1,
            };
            assert(before.drop_last().push(grown).drop_last() =~= before.drop_last());
            assert(head.last() == times[times.len() - 2]);
        }
    }
}

/// The summed durations of a list of sessions, in milliseconds.
pub open spec fn sum_durations(s: Seq<SessionView>) -> int
    decreases s.len(),
{
    if s.len() == 0 {
        0
    } else {
        sum_durations(s.drop_last()) + s.last().duration_millis
    }
}

/// The summed event counts of a list of sessions.
pub open spec fn sum_counts(s: Seq<SessionView>) -> int
    decreases s.len(),
{
    if s.len() == 0 {
        0
    } else {
        sum_counts(s.drop_last()) + s.last().event_count
    }
}

proof fn lemma_session_sums(events: Seq<Event>, q: QueryView, runs: Seq<Stretch>)
    requires
        forall|k: int|
            0 <= k < runs.len() ==> (#[trigger] runs[k]).start <= runs[k].end && runs[k].events
                <= u64::MAX,
    ensures
        sum_durations(Seq::new(runs.len(), |k: int| session_of(events, q, runs[k])))
            == sum_lengths(runs),
        sum_counts(Seq::new(runs.len(), |k: int| session_of(events, q, runs[k]))) == sum_events(
            runs,
        ),
    decreases runs.len(),
{
    let list = Seq::new(runs.len(), |k: int| session_of(events, q, runs[k]));
    if runs.len() > 0 {
        let head = runs.drop_last();
        assert forall|k: int| 0 <= k < head.len() implies (#[trigger] head[k]).start <= head[k].end
            && head[k].events <= u64::MAX by {
            assert(head[k] == runs[k]);
        }
        lemma_session_sums(events, q, head);
        assert(list.drop_last() =~= Seq::new(head.len(), |k: int| session_of(events, q, head[k])));
        assert(runs.last() == runs[runs.len() - 1]);
    }
}

/// The sessions of a report account for all of it: their durations add up
/// to the total active time, and their event counts to the number of events
/// that the query looks at.
pub proof fn lemma_sessions_cover(events: Seq<Event>, q: QueryView, idle_ms: int)
    requires
        times_in(events, q, FacetView::All).len() <= u64::MAX,
    ensures
        sum_durations(sessions(events, q, idle_ms)) == total_time(events, q, idle_ms),
        sum_counts(sessions(events, q, idle_ms)) == times_in(events, q, FacetView::All).len(),
{
    let times = ascending(times_in(events, q, FacetView::All));
    lemma_ascending(times_in(events, q, FacetView::All));
    lemma_stretches(times, idle_ms);
    lemma_stretches_cover(times, idle_ms);
    let runs = session_stretches(events, q, idle_ms);
    assert forall|k: int| 0 <= k < runs.len() implies (#[trigger] runs[k]).start <= runs[k].end
        && runs[k].events <= u64::MAX by {}
    lemma_session_sums(events, q, runs);
}

} // verus!
