//! The table engine behind [`crate::RateLimiter`] and
//! [`crate::RevocationCache`].
//!
//! Both need a map that holds a small value under a small key, with an
//! optional expiry and an active purge of what has expired, not just a lazy
//! check on read. [`TableState`] says what such a table does; each structure
//! owns a table of its own, [`WindowTable`] or [`VersionTable`].

use crate::clock::Span;
use crate::metrics::{Counters, Metrics, MetricsSnapshot};
use crate::store::{
    count_versions, count_windows, get_version, is_live, new_versions, new_windows, put_version,
    put_window, remove_version, remove_window, retain_live_windows, VersionRow, WindowRow,
};
use dashmap::DashMap;
use std::collections::VecDeque;
use vstd::prelude::*;

verus! {

/// What a table holds and has counted. A row is a value and the moment at
/// which it expires; one without such a moment never expires on its own.
#[verifier::reject_recursive_types(K)]
pub struct TableState<K, V> {
    pub rows: Map<K, (V, Option<u128>)>,
    pub counters: Counters,
}

impl<K, V> TableState<K, V> {
    /// A new table.
    pub open spec fn empty() -> Self {
        TableState { rows: Map::empty(), counters: Counters::zero() }
    }

    /// The value that a reader finds under `key` at `now`: an expired row that
    /// has not been purged yet counts as absent.
    pub open spec fn lookup(self, key: K, now: u128) -> Option<V> {
        if self.rows.contains_key(key) && crate::store::live(self.rows[key].1, now) {
            Some(self.rows[key].0)
        } else {
            None
        }
    }

    /// The table after a lookup, which is counted as a hit or as a miss.
    pub open spec fn looked_up(self, key: K, now: u128) -> Self {
        TableState {
            counters: if self.lookup(key, now) is Some {
                self.counters.hit()
            } else {
                self.counters.miss()
            },
            ..self
        }
    }

    /// The table after a write, which is counted.
    pub open spec fn written(self, key: K, value: V, expires_at: Option<u128>) -> Self {
        TableState {
            rows: self.rows.insert(key, (value, expires_at)),
            counters: self.counters.wrote(1),
        }
    }

    /// The table without the row under `key`.
    pub open spec fn without(self, key: K) -> Self {
        TableState { rows: self.rows.remove(key), ..self }
    }

    /// The keys whose rows are live at `now`.
    pub open spec fn live_keys(self, now: u128) -> Set<K> {
        Set::new(|key: K| self.rows.contains_key(key) && crate::store::live(self.rows[key].1, now))
    }

    /// The keys whose rows have expired at `now`.
    pub open spec fn expired_keys(self, now: u128) -> Set<K> {
        self.rows.dom().difference(self.live_keys(now))
    }

    /// The table after a purge at `now`: the expired rows are gone and counted.
    pub open spec fn purged(self, now: u128) -> Self {
        TableState {
            rows: self.rows.restrict(self.live_keys(now)),
            counters: self.counters.purge(self.expired_keys(now).len()),
        }
    }

    /// The counters and the size, as a snapshot shows them.
    pub open spec fn snapshot(self) -> MetricsSnapshot {
        MetricsSnapshot {
            hits: self.counters.hits,
            misses: self.counters.misses,
            writes: self.counters.writes,
            purged: self.counters.purged,
            len: self.rows.len() as usize,
        }
    }
}

/// The table of a rate limiter: under each key its sliding-window log, with
/// the longest window and the largest limit asked for on the key.
pub struct WindowTable {
    inner: DashMap<String, WindowRow>,
    metrics: Metrics,
}

impl View for WindowTable {
    type V = TableState<Seq<char>, (Seq<u128>, nat, u32)>;

    closed spec fn view(&self) -> TableState<Seq<char>, (Seq<u128>, nat, u32)> {
        TableState { rows: crate::store::window_rows(self.inner), counters: self.metrics@ }
    }
}

impl WindowTable {
    /// A new empty table.
    pub fn new() -> (table: WindowTable)
        ensures
            table@ == TableState::<Seq<char>, (Seq<u128>, nat, u32)>::empty(),
    {
        let table = WindowTable { inner: new_windows(), metrics: Metrics::default() };
        assert(table@.rows =~= Map::empty());
        table
    }

    /// Takes the row of `key` out of the table, to be put back with
    /// [`WindowTable::put_back`]; where there is none, a row with no hits, no
    /// window, no limit and an expiry at the clock's origin.
    pub fn take(&mut self, key: &str) -> (row: WindowRow)
        ensures
            crate::store::row_view(row) == if old(self)@.rows.contains_key(key@) {
                old(self)@.rows[key@]
            } else {
                ((Seq::<u128>::empty(), 0nat, 0u32), Some(0u128))
            },
            final(self)@ == old(self)@.without(key@),
    {
        match remove_window(&mut self.inner, key) {
            Some(row) => row,
            None => ((VecDeque::new(), 0, 0), Some(0)),
        }
    }

    /// Puts the log of `key`, with the longest window and the largest limit
    /// asked for on it, into the table, to expire at `expires_at`, and counts
    /// the write.
    pub fn put_back(
        &mut self,
        key: &str,
        hits: VecDeque<u128>,
        longest: u128,
        largest: u32,
        expires_at: Option<u128>,
    )
        ensures
            final(self)@ == old(self)@.written(
                key@,
                (hits@, longest as nat, largest),
                expires_at,
            ),
    {
        put_window(&mut self.inner, key.to_owned(), ((hits, longest, largest), expires_at));
        self.metrics.record_write();
    }

    /// The number of rows, those that have expired and are not yet purged
    /// among them.
    pub fn len(&self) -> (len: usize)
        ensures
            self@.rows.dom().finite(),
            len == self@.rows.len(),
    {
        count_windows(&self.inner)
    }

    /// Removes every row that has expired at `now`, and says how many went.
    pub fn purge_expired(&mut self, now: u128) -> (removed: usize)
        ensures
            old(self)@.rows.dom().finite(),
            old(self)@.expired_keys(now).finite(),
            removed == old(self)@.expired_keys(now).len(),
            final(self)@ == old(self)@.purged(now),
            forall|key: Seq<char>| #[trigger]
                final(self)@.rows.contains_key(key) <==> old(self)@.rows.contains_key(key) && (
                old(self)@.rows[key].1 matches Some(moment) ==> now < moment),
            forall|key: Seq<char>| #[trigger]
                final(self)@.rows.contains_key(key) ==> final(self)@.rows[key]
                    == old(self)@.rows[key],
            removed + final(self)@.rows.len() == old(self)@.rows.len(),
            final(self)@.counters.purged == (old(self)@.counters.purged + removed)
                % 0x1_0000_0000_0000_0000,
            final(self)@.counters.hits == old(self)@.counters.hits,
            final(self)@.counters.misses == old(self)@.counters.misses,
            final(self)@.counters.writes == old(self)@.counters.writes,
    {
        let before: usize = count_windows(&self.inner);
        retain_live_windows(&mut self.inner, now);
        let after: usize = count_windows(&self.inner);
        let removed: usize = before.saturating_sub(after);
        proof {
            let state = old(self)@;
            let kept = crate::store::window_rows(self.inner);
            assert(kept =~= state.rows.restrict(state.live_keys(now)));
            assert(kept.dom() =~= state.live_keys(now));
            lemma_split_size(state.rows.dom(), state.live_keys(now));
        }
        if removed > 0 {
            self.metrics.record_purged(removed as u64);
        }
        removed
    }

    /// Counts a check that was allowed.
    pub fn record_hit(&mut self)
        ensures
            final(self)@ == (TableState { counters: old(self)@.counters.hit(), ..old(self)@ }),
    {
        self.metrics.record_hit();
    }

    /// Counts a check that was denied.
    pub fn record_miss(&mut self)
        ensures
            final(self)@ == (TableState { counters: old(self)@.counters.miss(), ..old(self)@ }),
    {
        self.metrics.record_miss();
    }

    /// The counters and the size of the table.
    pub fn metrics(&self) -> (snapshot: MetricsSnapshot)
        ensures
            self@.rows.dom().finite(),
            snapshot == self@.snapshot(),
            snapshot.hits == self@.counters.hits,
            snapshot.misses == self@.counters.misses,
            snapshot.writes == self@.counters.writes,
            snapshot.purged == self@.counters.purged,
            snapshot.len == self@.rows.len(),
    {
        self.metrics.snapshot(count_windows(&self.inner))
    }
}

/// The table of a revocation cache: under each user the credential version.
pub struct VersionTable {
    inner: DashMap<u64, VersionRow>,
    metrics: Metrics,
}

impl View for VersionTable {
    type V = TableState<u64, u32>;

    closed spec fn view(&self) -> TableState<u64, u32> {
        TableState { rows: crate::store::version_rows(self.inner), counters: self.metrics@ }
    }
}

impl VersionTable {
    /// A new empty table.
    pub fn new() -> (table: VersionTable)
        ensures
            table@ == TableState::<u64, u32>::empty(),
    {
        let table = VersionTable { inner: new_versions(), metrics: Metrics::default() };
        assert(table@.rows =~= Map::empty());
        table
    }

    /// The version under `key`, if present and not expired at `now`. The
    /// lookup is counted as a hit or as a miss.
    pub fn get_cloned(&mut self, key: u64, now: u128) -> (hit: Option<u32>)
        ensures
            hit == old(self)@.lookup(key, now),
            final(self)@ == old(self)@.looked_up(key, now),
    {
        let hit = match get_version(&self.inner, key) {
            Some(row) => if is_live(row.1, now) {
                Some(row.0)
            } else {
                None
            },
            None => None,
        };
        if hit.is_some() {
            self.metrics.record_hit();
        } else {
            self.metrics.record_miss();
        }
        hit
    }

    /// Puts a version under `key`, whatever stood there, and counts the write.
    pub fn insert(&mut self, key: u64, value: u32, expires_at: Option<u128>)
        ensures
            final(self)@ == old(self)@.written(key, value, expires_at),
    {
        put_version(&mut self.inner, key, (value, expires_at));
        self.metrics.record_write();
    }

    /// Removes `key`, and hands out the version that stood there, expired or
    /// not.
    pub fn remove(&mut self, key: u64) -> (value: Option<u32>)
        ensures
            value == if old(self)@.rows.contains_key(key) {
                Some(old(self)@.rows[key].0)
            } else {
                None
            },
            final(self)@ == old(self)@.without(key),
    {
        match remove_version(&mut self.inner, key) {
            Some(row) => Some(row.0),
            None => None,
        }
    }

    /// The number of rows, those that have expired among them.
    pub fn len(&self) -> (len: usize)
        ensures
            self@.rows.dom().finite(),
            len == self@.rows.len(),
    {
        count_versions(&self.inner)
    }

    /// The counters and the size of the table.
    pub fn metrics(&self) -> (snapshot: MetricsSnapshot)
        ensures
            self@.rows.dom().finite(),
            snapshot == self@.snapshot(),
            snapshot.hits == self@.counters.hits,
            snapshot.misses == self@.counters.misses,
            snapshot.writes == self@.counters.writes,
            snapshot.purged == self@.counters.purged,
            snapshot.len == self@.rows.len(),
    {
        self.metrics.snapshot(count_versions(&self.inner))
    }
}

/// A finite set that contains `part` has as many elements as `part` and the
/// rest together.
proof fn lemma_split_size<A>(whole: Set<A>, part: Set<A>)
    requires
        whole.finite(),
        part.subset_of(whole),
    ensures
        part.finite(),
        whole.difference(part).finite(),
        whole.len() == part.len() + whole.difference(part).len(),
{
    vstd::set_lib::lemma_set_subset_finite(whole, part);
    vstd::set_lib::lemma_set_disjoint_lens(part, whole.difference(part));
    assert(part.union(whole.difference(part)) =~= whole);
}

/// What to do about the background purge of a new table.
#[derive(Debug, Clone, Copy, PartialEq, Eq, Structural)]
pub enum PurgePlan {
    /// No purge was asked for.
    Manual,
    /// Start a task that purges at this interval.
    Start(Span),
    /// A purge was asked for, but no runtime is there to run it: warn, and
    /// leave purging to the caller.
    Warn,
}

/// Plans the background purge of a new table. A task needs a running runtime;
/// without one, purging falls back to the caller.
pub fn plan_purge(purge_interval: Option<Span>, runtime_running: bool) -> (plan: PurgePlan)
    ensures
        plan == match purge_interval {
            None => PurgePlan::Manual,
            Some(interval) => if runtime_running {
                PurgePlan::Start(interval)
            } else {
                PurgePlan::Warn
            },
        },
{
    match purge_interval {
        None => PurgePlan::Manual,
        Some(interval) => if runtime_running {
            PurgePlan::Start(interval)
        } else {
            PurgePlan::Warn
        },
    }
}

/// What the purge task does at a tick of its timer.
#[derive(Debug, Clone, Copy, PartialEq, Eq, Structural)]
pub enum PurgeStep {
    /// Wait for the next tick.
    Wait,
    /// Purge the table, then wait for the next tick.
    Purge,
    /// End the task.
    Stop,
}

/// What the purge task does at a tick. The first tick comes at once and is
/// skipped, so that a brand-new table is not purged right away; at each later
/// one the task ends if its table was dropped, and purges otherwise.
pub fn purge_step(first_tick: bool, stopped: bool) -> (step: PurgeStep)
    ensures
        step == if first_tick {
            PurgeStep::Wait
        } else if stopped {
            PurgeStep::Stop
        } else {
            PurgeStep::Purge
        },
{
    if first_tick {
        PurgeStep::Wait
    } else if stopped {
        PurgeStep::Stop
    } else {
        PurgeStep::Purge
    }
}

/// A reader finds the value that stands under the key, up to the moment at
/// which it expires, and nothing where no row stands.
pub proof fn law_reader_finds_what_has_not_expired<K, V>(
    state: TableState<K, V>,
    key: K,
    value: V,
    now: u128,
)
    ensures
        state.lookup(key, now) == Some(value) <==> state.rows.contains_key(key)
            && state.rows[key].0 == value && (state.rows[key].1 matches Some(moment) ==> now
            < moment),
        state.lookup(key, now) is None <==> !state.rows.contains_key(key) || (
        state.rows[key].1 matches Some(moment) && moment <= now),
        state.looked_up(key, now).rows == state.rows,
        state.lookup(key, now) is Some ==> state.looked_up(key, now).counters
            == state.counters.hit(),
        state.lookup(key, now) is None ==> state.looked_up(key, now).counters
            == state.counters.miss(),
{
}

/// A write is found by every reader until it expires and is counted once; a
/// removal leaves nothing under the key and is not counted; and neither touches
/// what stands under another key.
pub proof fn law_writes_and_removals_touch_their_key<K, V>(
    state: TableState<K, V>,
    key: K,
    value: V,
    expires_at: Option<u128>,
    other: K,
)
    ensures
        state.written(key, value, expires_at).rows.contains_key(key),
        state.written(key, value, expires_at).rows[key] == (value, expires_at),
        state.written(key, value, expires_at).counters == state.counters.wrote(1),
        !state.without(key).rows.contains_key(key),
        state.without(key).counters == state.counters,
        other != key ==> {
            &&& state.written(key, value, expires_at).rows.contains_key(other)
                <==> state.rows.contains_key(other)
            &&& state.without(key).rows.contains_key(other) <==> state.rows.contains_key(other)
            &&& state.rows.contains_key(other) ==> state.written(key, value, expires_at).rows[other]
                == state.rows[other] && state.without(key).rows[other] == state.rows[other]
        },
        TableState::<K, V>::empty().rows == Map::<K, (V, Option<u128>)>::empty(),
        TableState::<K, V>::empty().counters == Counters::zero(),
{
}

/// A purge takes away the rows whose moment has come, and no other: what it
/// reports and counts is by how many rows the table has shrunk.
pub proof fn law_purge_counts_what_it_takes_away<K, V>(
    state: TableState<K, V>,
    key: K,
    now: u128,
)
    requires
        state.rows.dom().finite(),
    ensures
        state.expired_keys(now).contains(key) <==> state.rows.contains_key(key) && (
        state.rows[key].1 matches Some(moment) && moment <= now),
        state.purged(now).rows.contains_key(key) <==> state.rows.contains_key(key) && (
        state.rows[key].1 matches Some(moment) ==> now < moment),
        state.purged(now).rows.contains_key(key) ==> state.purged(now).rows[key]
            == state.rows[key],
        state.purged(now).rows.dom().finite(),
        state.purged(now).rows.len() + state.expired_keys(now).len() == state.rows.len(),
        state.purged(now).counters.purged == (state.counters.purged + (state.rows.len()
            - state.purged(now).rows.len())) % 0x1_0000_0000_0000_0000,
        state.purged(now).counters.hits == state.counters.hits,
        state.purged(now).counters.misses == state.counters.misses,
        state.purged(now).counters.writes == state.counters.writes,
{
    assert(state.purged(now).rows.dom() =~= state.live_keys(now));
    lemma_split_size(state.rows.dom(), state.live_keys(now));
}

/// A purge takes away exactly the rows that no reader finds any more: every
/// lookup, at the moment of the purge or later, gives what it gave before.
pub proof fn law_purge_is_invisible_to_readers<K, V>(
    state: TableState<K, V>,
    purged_at: u128,
    key: K,
    now: u128,
)
    requires
        purged_at <= now,
    ensures
        state.purged(purged_at).lookup(key, now) == state.lookup(key, now),
{
}

/// A purge leaves no expired row, and a second one at the same moment changes
/// no row and counts none.
pub proof fn law_purge_is_complete<K, V>(state: TableState<K, V>, now: u128)
    ensures
        state.purged(now).expired_keys(now) == Set::<K>::empty(),
        state.purged(now).purged(now) == state.purged(now),
{
    let once = state.purged(now);
    assert(once.live_keys(now) =~= once.rows.dom());
    assert(once.expired_keys(now) =~= Set::<K>::empty());
    assert(once.rows.restrict(once.live_keys(now)) =~= once.rows);
    assert(once.counters.purge(0) == once.counters);
}

/// A row without an expiry outlives every purge.
pub proof fn law_row_without_expiry_stays<K, V>(state: TableState<K, V>, key: K, now: u128)
    requires
        state.rows.contains_key(key),
        state.rows[key].1 is None,
    ensures
        state.purged(now).rows.contains_key(key),
        state.purged(now).rows[key] == state.rows[key],
{
}

} // verus!
