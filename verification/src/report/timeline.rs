//! Idle-gap arithmetic on plain timestamps (milliseconds).
//!
//! Everything here works on a bare sequence of instants; which events the
//! instants come from is decided by the callers.

use vstd::prelude::*;

verus! {

/// `s` is in non-decreasing order.
pub open spec fn ordered(s: Seq<i64>) -> bool {
    forall|i: int, j: int| 0 <= i <= j < s.len() ==> s[i] <= s[j]
}

/// `s` with `x` placed behind the last element that does not exceed it.
pub open spec fn insert_ordered(s: Seq<i64>, x: i64) -> Seq<i64>
    decreases s.len(),
{
    if s.len() == 0 || s.last() <= x {
        s.push(x)
    } else {
        insert_ordered(s.drop_last(), x).push(s.last())
    }
}

/// The elements of `s` rearranged into non-decreasing order.
pub open spec fn ascending(s: Seq<i64>) -> Seq<i64>
    decreases s.len(),
{
    if s.len() == 0 {
        s
    } else {
        insert_ordered(ascending(s.drop_last()), s.last())
    }
}

/// Inserting keeps the length, the order and the contents.
pub proof fn lemma_insert_ordered(s: Seq<i64>, x: i64)
    ensures
        insert_ordered(s, x).len() == s.len() + 1,
        insert_ordered(s, x).to_multiset() =~= s.to_multiset().insert(x),
        ordered(s) ==> ordered(insert_ordered(s, x)),
    decreases s.len(),
{
    broadcast use vstd::seq_lib::group_to_multiset_ensures;

    if s.len() == 0 || s.last() <= x {
    } else {
        let head = s.drop_last();
        lemma_insert_ordered(head, x);
        let r = insert_ordered(head, x);
        assert(s =~= head.push(s.last()));
        assert(s.to_multiset() =~= head.to_multiset().insert(s.last()));
        if ordered(s) {
            assert(ordered(head));
            assert forall|i: int| 0 <= i < r.len() implies r[i] <= s.last() by {
                assert(r.to_multiset().count(r[i]) > 0);
                if r[i] != x {
                    assert(head.to_multiset().count(r[i]) > 0);
                    let k = choose|k: int| 0 <= k < head.len() && head[k] == r[i];
                    assert(s[k] <= s[s.len() - 1]);
                }
            }
        }
    }
}

/// `ascending(s)` is the ordered rearrangement of `s`.
pub proof fn lemma_ascending(s: Seq<i64>)
    ensures
        ascending(s).len() == s.len(),
        ascending(s).to_multiset() =~= s.to_multiset(),
        ordered(ascending(s)),
    decreases s.len(),
{
    broadcast use vstd::seq_lib::group_to_multiset_ensures;

    if s.len() > 0 {
        lemma_ascending(s.drop_last());
        lemma_insert_ordered(ascending(s.drop_last()), s.last());
        assert(s =~= s.drop_last().push(s.last()));
    }
}

/// Where `insert_ordered` puts `x`: at `at`, when everything from `at` on
/// exceeds `x` and the element before `at` does not.
proof fn lemma_insert_position(s: Seq<i64>, x: i64, at: int)
    requires
        0 <= at <= s.len(),
        forall|k: int| at <= k < s.len() ==> s[k] > x,
        at == 0 || s[at - 1] <= x,
    ensures
        insert_ordered(s, x) == s.insert(at, x),
    decreases s.len() - at,
{
    if at == s.len() {
        assert(s.push(x) =~= s.insert(at, x));
    } else {
        lemma_insert_position(s.drop_last(), x, at);
        assert(s.drop_last().insert(at, x).push(s.last()) =~= s.insert(at, x));
    }
}

fn insert_time(out: &mut Vec<i64>, x: i64)
    ensures
        final(out)@ == insert_ordered(old(out)@, x),
{
    let mut at: usize = out.len();
    while at > 0 && out[at - 1] > x
        invariant
            at <= out.len(),
            out@ == old(out)@,
            forall|k: int| at <= k < out.len() ==> out[k] > x,
        decreases at,
    {
        at = at - 1;
    }
    proof {
        lemma_insert_position(out@, x, at as int);
    }
    out.insert(at, x);
}

/// Sorts instants into non-decreasing order.
///
/// Insertion from the back: a log that is already nearly in time order, as an
/// append-only store hands it over, is sorted in a single pass.
pub fn sort_times(times: &Vec<i64>) -> (out: Vec<i64>)
    ensures
        out@ == ascending(times@),
        ordered(out@),
        out@.len() == times@.len(),
{
    let mut out: Vec<i64> = Vec::new();
    let mut i: usize = 0;
    while i < times.len()
        invariant
            i <= times.len(),
            out@ == ascending(times@.take(i as int)),
        decreases times.len() - i,
    {
        assert(times@.take(i + 1).drop_last() =~= times@.take(i as int));
        insert_time(&mut out, times[i]);
        i = i + 1;
    }
    proof {
        assert(times@.take(times.len() as int) =~= times@);
        lemma_ascending(times@);
    }
    out
}

/// What one gap between consecutive instants adds to the active time: the
/// whole gap when it is shorter than the idle threshold, nothing otherwise.
pub open spec fn credit(prev: i64, next: i64, idle_ms: int) -> int {
    if next - prev < idle_ms {
        next - prev
    } else {
        0
    }
}

/// Active time of a run of instants: the sum of the credited gaps between
/// neighbours.
pub open spec fn active_time(times: Seq<i64>, idle_ms: int) -> int
    decreases times.len(),
{
    if times.len() < 2 {
        0
    } else {
        active_time(times.drop_last(), idle_ms) + credit(
            times[times.len() - 2],
            times.last(),
            idle_ms,
        )
    }
}

/// On ordered instants the active time lies between zero and the distance
/// from the first instant to the last.
pub proof fn lemma_active_time_bounds(times: Seq<i64>, idle_ms: int)
    requires
        ordered(times),
    ensures
        0 <= active_time(times, idle_ms),
        times.len() > 0 ==> active_time(times, idle_ms) <= times.last() - times[0],
    decreases times.len(),
{
    if times.len() >= 2 {
        let head = times.drop_last();
        assert(ordered(head)) by {
            assert forall|i: int, j: int| 0 <= i <= j < head.len() implies head[i] <= head[j] by {
                assert(times[i] <= times[j]);
            }
        }
        lemma_active_time_bounds(head, idle_ms);
        assert(times[times.len() - 2] <= times[times.len() - 1]);
    }
}

/// Sum of the credited gaps of ordered instants.
pub fn active_millis(times: &Vec<i64>, idle_ms: u128) -> (total: u64)
    requires
        ordered(times@),
    ensures
        total == active_time(times@, idle_ms as int),
{
    let mut total: u64 = 0;
    if times.len() < 2 {
        return total;
    }
    let mut i: usize = 1;
    assert(active_time(times@.take(1), idle_ms as int) == 0);
    while i < times.len()
        invariant
            1 <= i <= times.len(),
            ordered(times@),
            total == active_time(times@.take(i as int), idle_ms as int),
            total <= times[i - 1] - times[0],
        decreases times.len() - i,
    {
        let prev: i64 = times[i - 1];
        let next: i64 = times[i];
        assert(times@.take(i + 1).drop_last() =~= times@.take(i as int));
        assert(prev <= next);
        let gap: u64 = (next as i128 - prev as i128) as u64;
        if (gap as u128) < idle_ms {
            total = total + gap;
        }
        i = i + 1;
    }
    assert(times@.take(times.len() as int) =~= times@);
    total
}

/// A maximal run of instants whose neighbouring gaps all stay below the idle
/// threshold.
pub struct Stretch {
    pub start: i64,
    pub end: i64,
    pub events: nat,
}

/// The stretches of ordered instants. A new stretch begins at the first
/// instant and wherever the gap to the instant before reaches the threshold.
pub open spec fn stretches(times: Seq<i64>, idle_ms: int) -> Seq<Stretch>
    decreases times.len(),
{
    if times.len() == 0 {
        Seq::empty()
    } else {
        let before = stretches(times.drop_last(), idle_ms);
        let at = times.last();
        if times.len() == 1 || at - times[times.len() - 2] >= idle_ms {
            before.push(Stretch { start: at, end: at, events: 1 })
        } else {
            before.drop_last().push(
                Stretch { start: before.last().start, end: at, events: before.last().events + 1 },
            )
        }
    }
}

/// Every stretch of ordered instants starts and ends at one of them, start
/// before end; the last stretch ends at the last instant; and the stretches
/// share out the instants among them.
pub proof fn lemma_stretches(times: Seq<i64>, idle_ms: int)
    requires
        ordered(times),
    ensures
        times.len() > 0 ==> stretches(times, idle_ms).len() > 0 && stretches(
            times,
            idle_ms,
        ).last().end == times.last(),
        stretches(times, idle_ms).len() <= times.len(),
        forall|k: int|
            0 <= k < stretches(times, idle_ms).len() ==> {
                let s = #[trigger] stretches(times, idle_ms)[k];
                &&& times[0] <= s.start <= s.end <= times.last()
                &&& 1 <= s.events <= times.len()
                &&& times.contains(s.start)
                &&& times.contains(s.end)
            },
    decreases times.len(),
{
    if times.len() > 0 {
        let head = times.drop_last();
        assert(ordered(head)) by {
            assert forall|i: int, j: int| 0 <= i <= j < head.len() implies head[i] <= head[j] by {
                assert(times[i] <= times[j]);
            }
        }
        lemma_stretches(head, idle_ms);
        let before = stretches(head, idle_ms);
        let now = stretches(times, idle_ms);
        assert(times[0] <= times[times.len() - 1]);
        assert forall|k: int| 0 <= k < now.len() implies {
            let s = #[trigger] now[k];
            &&& times[0] <= s.start <= s.end <= times.last()
            &&& 1 <= s.events <= times.len()
            &&& times.contains(s.start)
            &&& times.contains(s.end)
        } by {
            let last = times.len() - 1;
            assert(times[last] == times.last());
            if times.len() == 1 {
                assert(now[k].start == times[0]);
            } else {
                assert(head[0] == times[0]);
                assert(head.last() == times[last - 1]);
                assert(times[last - 1] <= times[last]);
                if k < now.len() - 1 {
                    assert(now[k] == before[k]);
                    let w = choose|w: int| 0 <= w < head.len() && head[w] == before[k].start;
                    assert(times[w] == now[k].start);
                    let v = choose|v: int| 0 <= v < head.len() && head[v] == before[k].end;
                    assert(times[v] == now[k].end);
                } else if times[last] - times[last - 1] >= idle_ms {
                } else {
                    let b = before.last();
                    assert(b == before[before.len() - 1]);
                    let w = choose|w: int| 0 <= w < head.len() && head[w] == b.start;
                    assert(times[w] == now[k].start);
                }
            }
        }
    }
}

/// A stretch as the reports carry it.
#[derive(Debug, Clone, Copy, PartialEq, Eq, Structural)]
pub struct Run {
    pub start: i64,
    pub end: i64,
    pub events: u64,
}

impl View for Run {
    type V = Stretch;

    open spec fn view(&self) -> Stretch {
        Stretch { start: self.start, end: self.end, events: self.events as nat }
    }
}

/// The stretches that a list of runs stands for.
pub open spec fn run_views(runs: Seq<Run>) -> Seq<Stretch> {
    Seq::new(runs.len(), |k: int| runs[k]@)
}

/// Splits ordered instants into their stretches.
pub fn split_runs(times: &Vec<i64>, idle_ms: u128) -> (runs: Vec<Run>)
    requires
        ordered(times@),
    ensures
        run_views(runs@) == stretches(times@, idle_ms as int),
{
    let mut runs: Vec<Run> = Vec::new();
    let mut i: usize = 0;
    while i < times.len()
        invariant
            i <= times.len(),
            ordered(times@),
            run_views(runs@) =~= stretches(times@.take(i as int), idle_ms as int),
            forall|k: int| 0 <= k < runs.len() ==> (#[trigger] runs[k]).events <= i,
            i > 0 ==> runs.len() > 0,
        decreases times.len() - i,
    {
        let at: i64 = times[i];
        proof {
            assert(times@.take(i + 1).drop_last() =~= times@.take(i as int));
            assert(times@.take(i + 1).last() == at);
        }
        let mut opens: bool = i == 0;
        if !opens {
            assert(times@[i - 1] <= times@[i as int]);
            assert(times@.take(i + 1)[i - 1] == times@[i - 1]);
            let gap: u64 = (at as i128 - times[i - 1] as i128) as u64;
            opens = gap as u128 >= idle_ms;
        }
        if opens {
            runs.push(Run { start: at, end: at, events: 1 });
        } else {
            let last: usize = runs.len() - 1;
            let open: Run = runs[last];
            let ghost before = runs@;
            assert(run_views(before).last() == open@);
            runs.set(last, Run { start: open.start, end: at, events: open.events + 1 });
            assert(run_views(runs@) =~= run_views(before).drop_last().push(
                Stretch { start: open.start, end: at, events: open@.events + 1 },
            ));
        }
        i = i + 1;
    }
    assert(times@.take(times.len() as int) =~= times@);
    runs
}

} // verus!
