//! Remembered git branches, one per project directory, each good for a
//! limited time.
//!
//! The cache decides; looking the branch up is the caller's work. A miss
//! tells the caller to run the lookup and to store what came of it, a
//! failure included, so that a directory without a branch is not asked
//! about again before the entry has expired.

use vstd::prelude::*;
use crate::clock::{nanos_since, start_clock};
use crate::text::{opt_text, trim, trimmed};
use crate::text_map::TextMap;
use crate::watcher::debounce::{elapsed, NANOS_PER_SECOND};

verus! {

/// How long an entry is good for, in seconds.
pub const BRANCH_TTL_SECS: u64 = 60;

/// What was found for one directory, and when.
pub struct CachedBranch {
    pub branch: Option<String>,
    pub cached_at: u128,
}

/// The cache of branch names by directory. Instants are nanoseconds on the
/// cache's own monotonic clock.
pub struct GitBranchCache {
    cache: TextMap<CachedBranch>,
    ttl_secs: u64,
    clock: std::time::Instant,
}

/// What a cache holds.
pub struct BranchCacheView {
    pub cache: Map<Seq<char>, CachedBranch>,
    pub ttl_secs: u64,
}

impl BranchCacheView {
    /// The lifetime of an entry in nanoseconds.
    pub open spec fn ttl(self) -> int {
        self.ttl_secs * 1_000_000_000
    }

    /// Whether the cache can answer for `dir` at `now`: it holds an entry
    /// that is younger than the lifetime.
    pub open spec fn fresh(self, dir: Seq<char>, now: u128) -> bool {
        self.cache.dom().contains(dir) && elapsed(self.cache[dir].cached_at, now) < self.ttl()
    }

    /// The answer of the cache for `dir` at `now`: the remembered outcome of
    /// the last lookup, or nothing where the lookup has to be made.
    pub open spec fn answer(self, dir: Seq<char>, now: u128) -> Option<Option<Seq<char>>> {
        if self.fresh(dir, now) {
            Some(opt_text(self.cache[dir].branch))
        } else {
            None
        }
    }

    /// The cache after the outcome `branch` of a lookup for `dir` was stored
    /// at `now`.
    pub open spec fn stored(self, dir: Seq<char>, branch: Option<String>, now: u128) -> BranchCacheView {
        BranchCacheView {
            cache: self.cache.insert(dir, CachedBranch { branch, cached_at: now }),
            ..self
        }
    }
}

/// What was stored is the answer until the lifetime is over, and no longer.
pub proof fn lemma_stored_answer(
    c: BranchCacheView,
    dir: Seq<char>,
    branch: Option<String>,
    at: u128,
    now: u128,
)
    requires
        at <= now,
    ensures
        now - at < c.ttl() ==> c.stored(dir, branch, at).answer(dir, now) == Some(opt_text(branch)),
        now - at >= c.ttl() ==> c.stored(dir, branch, at).answer(dir, now) is None,
{
}

/// The branch in the outcome of a lookup: what git printed, without the
/// white space around it, where git succeeded; none where it failed.
pub fn branch_of_output(succeeded: bool, output: &str) -> (branch: Option<String>)
    ensures
        opt_text(branch) == if succeeded {
            Some(trim(output@))
        } else {
            None
        },
{
    if succeeded {
        Some(trimmed(output))
    } else {
        None
    }
}

impl GitBranchCache {
    /// The invariant of the type: at most one entry per directory.
    pub closed spec fn wf(&self) -> bool {
        self.cache.wf()
    }

    pub closed spec fn view(&self) -> BranchCacheView {
        BranchCacheView { cache: self.cache@, ttl_secs: self.ttl_secs }
    }

    /// An empty cache whose entries are good for a minute.
    pub fn new() -> (c: GitBranchCache)
        ensures
            c.wf(),
            c@.cache == Map::<Seq<char>, CachedBranch>::empty(),
            c@.ttl_secs == BRANCH_TTL_SECS,
    {
        GitBranchCache { cache: TextMap::new(), ttl_secs: BRANCH_TTL_SECS, clock: start_clock() }
    }

    /// Answers for `dir` at the instant `now`. `Some` is a hit and holds the
    /// remembered outcome, a branch or none; `None` is a miss.
    pub fn lookup_at(&self, dir: &str, now: u128) -> (hit: Option<Option<String>>)
        requires
            self.wf(),
        ensures
            hit is Some == self@.fresh(dir@, now),
            hit matches Some(branch) ==> Some(opt_text(branch)) == self@.answer(dir@, now),
    {
        match self.cache.get(dir) {
            Some(entry) => {
                let gone: u128 = if now >= entry.cached_at {
                    now - entry.cached_at
                } else {
                    0
                };
                if gone < (self.ttl_secs as u128) * NANOS_PER_SECOND {
                    Some(entry.branch.clone())
                } else {
                    None
                }
            },
            None => None,
        }
    }

    /// Stores the outcome of a lookup for `dir` made at the instant `now`.
    pub fn store_at(&mut self, dir: &str, branch: Option<String>, now: u128)
        requires
            old(self).wf(),
        ensures
            final(self).wf(),
            final(self)@ == old(self)@.stored(dir@, branch, now),
    {
        self.cache.put(dir, CachedBranch { branch, cached_at: now });
    }

    /// Answers for `dir` now, by the cache's own clock.
    pub fn lookup(&self, dir: &str) -> (hit: Option<Option<String>>)
        requires
            self.wf(),
        ensures
            exists|now: u128|
                hit is Some == #[trigger] self@.fresh(dir@, now) && (hit matches Some(branch)
                    ==> Some(opt_text(branch)) == self@.answer(dir@, now)),
            hit is Some ==> self@.cache.dom().contains(dir@) && opt_text(hit->0) == opt_text(
                self@.cache[dir@].branch,
            ),
    {
        let now: u128 = nanos_since(&self.clock);
        let hit = self.lookup_at(dir, now);
        assert(hit is Some == self@.fresh(dir@, now));
        hit
    }

    /// Stores the outcome of a lookup for `dir` made now, by the cache's own
    /// clock.
    pub fn store(&mut self, dir: &str, branch: Option<String>)
        requires
            old(self).wf(),
        ensures
            final(self).wf(),
            exists|now: u128| final(self)@ == #[trigger] old(self)@.stored(dir@, branch, now),
    {
        let now: u128 = nanos_since(&self.clock);
        self.store_at(dir, branch, now);
        assert(self@ == old(self)@.stored(dir@, branch, now));
    }
}

} // verus!
