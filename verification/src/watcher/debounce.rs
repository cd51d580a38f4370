//! Per-path suppression of repeated change notifications.

use vstd::prelude::*;
use crate::clock::{nanos_since, start_clock};
use crate::text_map::TextMap;

verus! {

pub const NANOS_PER_SECOND: u128 = 1_000_000_000;

/// Lets a notification through when its path has none on record or the last
/// one let through lies at least the debounce window back. Every path has
/// its own clock: two different files changing at once both pass.
///
/// Instants are nanoseconds on the debouncer's own monotonic clock. The
/// clock does not run backwards: a reading that is earlier than the latest
/// one before it counts as that latest one.
pub struct Debouncer {
    last_seen: TextMap<u128>,
    window_secs: u64,
    latest: u128,
    clock: std::time::Instant,
}

/// What a debouncer remembers: the last accepted instant per path, the
/// window in seconds, and the latest reading of the clock that it has seen.
pub struct DebouncerView {
    pub last_seen: Map<Seq<char>, u128>,
    pub window_secs: u64,
    pub latest: u128,
}

/// Time from `then` to `now` on a clock that does not run backwards: zero
/// where `then` is the later one.
pub open spec fn elapsed(then: u128, now: u128) -> int {
    if now >= then {
        now - then
    } else {
        0
    }
}

impl DebouncerView {
    /// The debounce window in nanoseconds.
    pub open spec fn window(self) -> int {
        self.window_secs * 1_000_000_000
    }

    /// No instant on record is later than the latest reading.
    pub open spec fn valid(self) -> bool {
        forall|p: Seq<char>|
            self.last_seen.dom().contains(p) ==> (#[trigger] self.last_seen[p]) <= self.latest
    }

    /// The instant that the reading `now` counts as: the reading itself, or
    /// the latest one before it where that is later.
    pub open spec fn at(self, now: u128) -> u128 {
        if now >= self.latest {
            now
        } else {
            self.latest
        }
    }

    /// Whether a notification of `path` at the reading `now` is let through.
    pub open spec fn emits(self, path: Seq<char>, now: u128) -> bool {
        self.last_seen.dom().contains(path) ==> elapsed(self.last_seen[path], self.at(now))
            >= self.window()
    }

    /// The memory after a notification of `path` at the reading `now`: the
    /// instant is recorded where the notification passes; suppression
    /// leaves the record as it is.
    pub open spec fn after(self, path: Seq<char>, now: u128) -> DebouncerView {
        DebouncerView {
            last_seen: if self.emits(path, now) {
                self.last_seen.insert(path, self.at(now))
            } else {
                self.last_seen
            },
            latest: self.at(now),
            ..self
        }
    }

    /// Whether an entry of the instant `then` is stale at `now`: older than
    /// three windows.
    pub open spec fn stale(self, then: u128, now: u128) -> bool {
        elapsed(then, now) > 3 * self.window()
    }

    /// The paths whose entries survive a clean-up at the reading `now`.
    pub open spec fn fresh_paths(self, now: u128) -> Set<Seq<char>> {
        Set::new(
            |p: Seq<char>|
                self.last_seen.dom().contains(p) && !self.stale(self.last_seen[p], self.at(now)),
        )
    }

    /// The memory after a clean-up at the reading `now`: the stale entries
    /// are gone.
    pub open spec fn cleaned(self, now: u128) -> DebouncerView {
        DebouncerView {
            last_seen: self.last_seen.restrict(self.fresh_paths(now)),
            latest: self.at(now),
            ..self
        }
    }
}

/// The debounce property. Take two notifications of one path at two
/// readings of the clock, the second no earlier than the first. If the
/// first passed and less than a window lies between the two, the second is
/// suppressed. If a whole window lies between the two, the second passes,
/// whatever became of the first.
pub proof fn lemma_debounce(d: DebouncerView, path: Seq<char>, first: u128, second: u128)
    requires
        d.valid(),
        d.latest <= first <= second,
    ensures
        d.after(path, first).valid(),
        d.emits(path, first) && second - first < d.window() ==> !d.after(path, first).emits(
            path,
            second,
        ),
        second - first >= d.window() ==> d.after(path, first).emits(path, second),
{
}

/// Whatever is done at a reading leaves a memory that is valid and has seen
/// that reading: the next reading counts as no earlier.
pub proof fn lemma_readings_go_on(d: DebouncerView, path: Seq<char>, now: u128)
    requires
        d.valid(),
    ensures
        d.after(path, now).valid(),
        d.cleaned(now).valid(),
        d.after(path, now).latest == d.at(now),
        d.cleaned(now).latest == d.at(now),
        d.at(now) >= now,
        d.at(now) >= d.latest,
{
}

/// Notifications of one path do not touch what is on record for another.
pub proof fn lemma_paths_independent(d: DebouncerView, path: Seq<char>, other: Seq<char>, now: u128)
    requires
        path != other,
    ensures
        d.after(path, now).emits(other, now) == d.emits(other, now),
{
}

impl Debouncer {
    /// The invariant of the type: at most one entry per path, and none later
    /// than the latest reading.
    pub closed spec fn wf(&self) -> bool {
        self.last_seen.wf() && self@.valid()
    }

    pub closed spec fn view(&self) -> DebouncerView {
        DebouncerView {
            last_seen: self.last_seen@,
            window_secs: self.window_secs,
            latest: self.latest,
        }
    }

    /// A debouncer with nothing on record.
    pub fn new(debounce_secs: u64) -> (d: Debouncer)
        ensures
            d.wf(),
            d@.valid(),
            d@.last_seen == Map::<Seq<char>, u128>::empty(),
            d@.window_secs == debounce_secs,
            d@.latest == 0,
    {
        Debouncer {
            last_seen: TextMap::new(),
            window_secs: debounce_secs,
            latest: 0,
            clock: start_clock(),
        }
    }

    /// The number of paths on record.
    pub fn len(&self) -> (n: usize)
        requires
            self.wf(),
        ensures
            n == self@.last_seen.dom().len(),
    {
        proof {
            self.last_seen.lemma_size();
        }
        self.last_seen.len()
    }

    /// What the reading `now` counts as, which becomes the latest reading.
    fn read(&mut self, now: u128) -> (at: u128)
        requires
            old(self).wf(),
        ensures
            final(self).wf(),
            at == old(self)@.at(now),
            final(self)@ == (DebouncerView { latest: at, ..old(self)@ }),
    {
        if now > self.latest {
            self.latest = now;
        }
        self.latest
    }

    /// Decides on a notification of `path` that arrives at the reading `now`
    /// of the debouncer's clock.
    pub fn should_emit_at(&mut self, path: &str, now: u128) -> (emit: bool)
        requires
            old(self).wf(),
        ensures
            final(self).wf(),
            final(self)@.valid(),
            emit == old(self)@.emits(path@, now),
            final(self)@ == old(self)@.after(path@, now),
    {
        let at: u128 = self.read(now);
        let window: u128 = (self.window_secs as u128) * NANOS_PER_SECOND;
        match self.last_seen.find(path) {
            Some(i) => {
                let then: u128 = *self.last_seen.value_at(i);
                let gone: u128 = if at >= then {
                    at - then
                } else {
                    0
                };
                if gone < window {
                    return false;
                }
                self.last_seen.set_at(i, at);
                true
            },
            None => {
                self.last_seen.push(path, at);
                true
            },
        }
    }

    /// Decides on a notification of `path` that arrives now.
    ///
    /// The instant is read from the debouncer's own monotonic clock and
    /// counts as no earlier than the latest reading before it; what is
    /// decided at an instant is stated by [`Debouncer::should_emit_at`].
    pub fn should_emit(&mut self, path: &str) -> (emit: bool)
        requires
            old(self).wf(),
        ensures
            final(self).wf(),
            final(self)@.valid(),
            exists|now: u128|
                now >= old(self)@.latest && emit == #[trigger] old(self)@.emits(path@, now)
                    && final(self)@ == old(self)@.after(path@, now),
    {
        let reading: u128 = nanos_since(&self.clock);
        let ghost now = old(self)@.at(reading);
        let emit = self.should_emit_at(path, reading);
        assert(emit == old(self)@.emits(path@, now));
        assert(self@ == old(self)@.after(path@, now));
        emit
    }

    /// Drops the entries that are stale at the reading `now`.
    pub fn cleanup_at(&mut self, now: u128)
        requires
            old(self).wf(),
        ensures
            final(self).wf(),
            final(self)@.valid(),
            final(self)@ == old(self)@.cleaned(now),
    {
        let ghost start = self@;
        let at: u128 = self.read(now);
        let limit: u128 = 3 * ((self.window_secs as u128) * NANOS_PER_SECOND);
        let mut i: usize = 0;
        while i < self.last_seen.len()
            invariant
                self.last_seen.wf(),
                start.valid(),
                at == start.at(now),
                self.latest == at,
                self.window_secs == start.window_secs,
                limit == 3 * start.window(),
                i <= self.last_seen.keys().len(),
                forall|k: int|
                    0 <= k < i ==> !start.stale(#[trigger] self.last_seen.values()[k], at),
                forall|p: Seq<char>|
                    #![trigger self.last_seen@.dom().contains(p)]
                    self.last_seen@.dom().contains(p) ==> start.last_seen.dom().contains(p)
                        && start.last_seen[p] == self.last_seen@[p],
                forall|p: Seq<char>|
                    #![trigger self.last_seen@.dom().contains(p)]
                    start.fresh_paths(now).contains(p) ==> self.last_seen@.dom().contains(p),
            decreases self.last_seen.keys().len() - i,
        {
            let then: u128 = *self.last_seen.value_at(i);
            let gone: u128 = if at >= then {
                at - then
            } else {
                0
            };
            let ghost held = self.last_seen@;
            let ghost key = self.last_seen.keys()[i as int];
            assert(held.dom().contains(key) && held[key] == then);
            if gone > limit {
                self.last_seen.remove_at(i);
                assert(self.last_seen@ == held.remove(key));
                assert(start.stale(start.last_seen[key], at));
            } else {
                i = i + 1;
            }
        }
        proof {
            let held = self.last_seen@;
            assert(i == self.last_seen.keys().len());
            assert forall|p: Seq<char>| held.dom().contains(p) implies start.fresh_paths(
                now,
            ).contains(p) by {
                self.last_seen.lemma_held(p);
                let k = choose|k: int|
                    0 <= k < self.last_seen.keys().len() && #[trigger] self.last_seen.keys()[k]
                        == p && self.last_seen.values()[k] == held[p];
                assert(!start.stale(self.last_seen.values()[k], at));
                assert(start.last_seen[p] == held[p]);
            }
            assert(held =~= start.last_seen.restrict(start.fresh_paths(now)));
        }
    }

    /// Drops the entries that are stale now, which bounds the memory under
    /// long bursts of changes on many files.
    pub fn cleanup(&mut self)
        requires
            old(self).wf(),
        ensures
            final(self).wf(),
            final(self)@.valid(),
            exists|now: u128|
                now >= old(self)@.latest && final(self)@ == #[trigger] old(self)@.cleaned(now),
    {
        let reading: u128 = nanos_since(&self.clock);
        let ghost now = old(self)@.at(reading);
        self.cleanup_at(reading);
        assert(self@ == old(self)@.cleaned(now));
    }
}

} // verus!
