//! Sliding-window rate limiter.
//!
//! Counters are held only in memory and are never persisted: losing them on a
//! restart at worst ends a window a few seconds early.

use crate::clock::{Clock, Span};
use crate::metrics::MetricsSnapshot;
use crate::table::{TableState, WindowTable};
use crate::window::slide;
use tokio::time::Instant;
use vstd::prelude::*;

verus! {

/// Default interval, in seconds, at which a background task purges inactive
/// keys (keys with no attempt within the longest window asked for on them).
pub const DEFAULT_PURGE_INTERVAL_SECS: u64 = 30;

/// What a rate limiter holds and has counted: under each key its log, and the
/// longest window and the largest limit asked for on the key.
pub type LimiterState = TableState<Seq<char>, (Seq<u128>, nat, u32)>;

/// The hits recorded under `key`.
pub open spec fn log_of(state: LimiterState, key: Seq<char>) -> Seq<u128> {
    if state.rows.contains_key(key) {
        state.rows[key].0.0
    } else {
        Seq::empty()
    }
}

/// The longest window asked for on `key` since it was last purged.
pub open spec fn longest_of(state: LimiterState, key: Seq<char>) -> nat {
    if state.rows.contains_key(key) {
        state.rows[key].0.1
    } else {
        0
    }
}

/// The largest limit asked for on `key` since it was last purged.
pub open spec fn largest_of(state: LimiterState, key: Seq<char>) -> u32 {
    if state.rows.contains_key(key) {
        state.rows[key].0.2
    } else {
        0
    }
}

/// When the row of `key` expires, if it ever does; the clock's origin where
/// there is no row.
pub open spec fn expiry_of(state: LimiterState, key: Seq<char>) -> Option<u128> {
    if state.rows.contains_key(key) {
        state.rows[key].1
    } else {
        Some(0)
    }
}

/// The moment that lies `span` after `now`, if there is one.
pub open spec fn moment_after(now: u128, span: nat) -> Option<u128> {
    if now + span <= u128::MAX {
        Some((now + span) as u128)
    } else {
        None
    }
}

/// The later of two expiries, of which one that never comes is the latest.
pub open spec fn later(one: Option<u128>, other: Option<u128>) -> Option<u128> {
    match (one, other) {
        (Some(first), Some(second)) => Some(
            if first < second {
                second
            } else {
                first
            },
        ),
        _ => None,
    }
}

/// The later of two expiries, of which one that never comes is the latest.
fn later_of(one: Option<u128>, other: Option<u128>) -> (expiry: Option<u128>)
    ensures
        expiry == later(one, other),
{
    match (one, other) {
        (Some(first), Some(second)) => Some(
            if first < second {
                second
            } else {
                first
            },
        ),
        _ => None,
    }
}

/// Whether an attempt on `key` at `now` is allowed under `limit` per `window`
/// nanoseconds.
pub open spec fn allows(
    state: LimiterState,
    key: Seq<char>,
    limit: u32,
    window: nat,
    now: u128,
) -> bool {
    crate::window::admitted(log_of(state, key), limit, window, now)
}

/// The limiter after that attempt. The key's log has slid on, its row expires
/// no earlier than before and a full longest window later at least, whether the
/// attempt was allowed or denied, and the outcome and the write of the row are
/// counted. No other key is touched.
pub open spec fn attempted(
    state: LimiterState,
    key: Seq<char>,
    limit: u32,
    window: nat,
    now: u128,
) -> LimiterState {
    let longest = crate::window::longer(longest_of(state, key), window);
    let largest = crate::window::larger(largest_of(state, key), limit);
    TableState {
        rows: state.rows.insert(
            key,
            (
                (
                    crate::window::logged(
                        log_of(state, key),
                        limit,
                        window,
                        longest,
                        largest,
                        now,
                    ),
                    longest,
                    largest,
                ),
                later(expiry_of(state, key), moment_after(now, longest)),
            ),
        ),
        counters: if allows(state, key, limit, window, now) {
            state.counters.wrote(1).hit()
        } else {
            state.counters.wrote(1).miss()
        },
    }
}

/// What a limiter knows of a key is what stands in its row, and nothing where
/// there is none.
pub proof fn law_key_is_known_by_its_row(state: LimiterState, key: Seq<char>)
    ensures
        state.rows.contains_key(key) ==> {
            &&& log_of(state, key) == state.rows[key].0.0
            &&& longest_of(state, key) == state.rows[key].0.1
            &&& largest_of(state, key) == state.rows[key].0.2
            &&& expiry_of(state, key) == state.rows[key].1
        },
        !state.rows.contains_key(key) ==> {
            &&& log_of(state, key).len() == 0
            &&& longest_of(state, key) == 0
            &&& largest_of(state, key) == 0
            &&& expiry_of(state, key) == Some(0u128)
        },
{
}

/// An attempt is allowed if and only if the recorded hits of its key that are
/// younger than its window are fewer than its limit; and on a key that is not
/// tracked, under any limit but zero.
pub proof fn law_attempt_is_decided_by_its_window(
    state: LimiterState,
    key: Seq<char>,
    limit: u32,
    window: nat,
    now: u128,
)
    ensures
        state.rows.contains_key(key) ==> (allows(state, key, limit, window, now) <==> Set::new(
            |i: int|
                0 <= i < state.rows[key].0.0.len() && now < state.rows[key].0.0[i] + window,
        ).len() < limit),
        !state.rows.contains_key(key) ==> (allows(state, key, limit, window, now) <==> limit > 0),
{
    crate::window::law_hits_in_the_window_decide(log_of(state, key), limit, window, now, now);
}

/// An attempt is made on one key: it stays tracked with the longest window and
/// the largest limit asked for, no other row is touched, and it is counted as
/// one write and as one hit or one miss.
pub proof fn law_attempt_touches_its_key(
    state: LimiterState,
    key: Seq<char>,
    limit: u32,
    window: nat,
    now: u128,
    other: Seq<char>,
)
    ensures
        ({
            let after = attempted(state, key, limit, window, now);
            let longest = after.rows[key].0.1;
            let largest = after.rows[key].0.2;
            &&& after.rows.contains_key(key)
            &&& longest >= window && longest >= longest_of(state, key)
            &&& longest == window || longest == longest_of(state, key)
            &&& largest >= limit && largest >= largest_of(state, key)
            &&& largest == limit || largest == largest_of(state, key)
            &&& after.rows[key].0.0 == crate::window::logged(
                log_of(state, key),
                limit,
                window,
                longest,
                largest,
                now,
            )
            &&& other != key ==> (after.rows.contains_key(other) <==> state.rows.contains_key(
                other,
            ))
            &&& other != key && state.rows.contains_key(other) ==> after.rows[other]
                == state.rows[other]
            &&& after.counters.writes == (state.counters.writes + 1) % 0x1_0000_0000_0000_0000
            &&& after.counters.purged == state.counters.purged
            &&& allows(state, key, limit, window, now) ==> after.counters.misses
                == state.counters.misses && after.counters.hits == (state.counters.hits + 1)
                % 0x1_0000_0000_0000_0000
            &&& !allows(state, key, limit, window, now) ==> after.counters.hits
                == state.counters.hits && after.counters.misses == (state.counters.misses + 1)
                % 0x1_0000_0000_0000_0000
        }),
{
}

/// A row expires when its longest window has passed since the last attempt, or
/// at its earlier expiry if that is later; it never expires where no moment is
/// late enough.
pub proof fn law_row_expires_after_its_longest_window(
    state: LimiterState,
    key: Seq<char>,
    limit: u32,
    window: nat,
    now: u128,
)
    ensures
        ({
            let after = attempted(state, key, limit, window, now);
            let end = now + after.rows[key].0.1;
            match after.rows[key].1 {
                Some(moment) => {
                    &&& moment >= end
                    &&& moment == end || (state.rows.contains_key(key) && state.rows[key].1
                        == Some(moment))
                    &&& state.rows.contains_key(key) ==> (state.rows[key].1 matches Some(before)
                        && moment >= before)
                },
                None => end > u128::MAX || (state.rows.contains_key(key)
                    && state.rows[key].1 is None),
            }
        }),
{
}

/// An in-memory, sliding-window rate limiter.
///
/// Keys are arbitrary strings: callers decide the keying scheme (e.g.
/// `"login:{ip}"`, `"api:{user_id}"`). Each key tracks its own window
/// independently; `limit` and `window` are passed per call so that one limiter
/// can serve routes with different policies, on one key too.
///
/// The hits of a key are kept for the longest window asked for on it since it
/// was last purged, and as many of the latest as the largest limit asked for,
/// however old. So an attempt counts all that its window covers if it asks for
/// no longer a window, or for no larger a limit, than was asked for before. One
/// that asks for more than ever before of both counts the hits that are still
/// kept; from then on they are kept for it.
///
/// An attempt needs the limiter exclusively, so that the reading of the count,
/// the decision and the recording are one step; callers that share a limiter
/// between tasks keep it behind a lock.
pub struct RateLimiter {
    table: WindowTable,
    clock: Clock,
    purge_interval: Option<Span>,
}

impl View for RateLimiter {
    type V = LimiterState;

    closed spec fn view(&self) -> LimiterState {
        self.table@
    }
}

impl RateLimiter {
    /// The interval at which a background task is to purge this limiter, if
    /// one was asked for.
    pub closed spec fn interval(&self) -> Option<Span> {
        self.purge_interval
    }

    /// The moment at which the limiter last read its clock, the clock's origin
    /// if it has not read it yet.
    pub closed spec fn reached(&self) -> u128 {
        self.clock.reached()
    }

    /// The reading of Tokio's clock at which the limiter's clock was started.
    pub closed spec fn started(&self) -> Instant {
        self.clock.started()
    }

    /// Creates a rate limiter to be purged at the default interval (30 s).
    pub fn new() -> (limiter: Self)
        ensures
            limiter@ == LimiterState::empty(),
            limiter.reached() == 0,
            crate::clock::instant_read(limiter.started()),
            limiter.interval() == Some(
                Span { secs: DEFAULT_PURGE_INTERVAL_SECS, subsec_nanos: 0 },
            ),
    {
        Self::with_purge_interval(Span::from_secs(DEFAULT_PURGE_INTERVAL_SECS))
    }

    /// Creates a rate limiter to be purged every `interval`. A shorter interval
    /// reclaims memory from abandoned keys faster, at the cost of more frequent
    /// scans of the whole table.
    pub fn with_purge_interval(interval: Span) -> (limiter: Self)
        ensures
            limiter@ == LimiterState::empty(),
            limiter.reached() == 0,
            crate::clock::instant_read(limiter.started()),
            limiter.interval() == Some(interval),
    {
        RateLimiter {
            table: WindowTable::new(),
            clock: Clock::start(),
            purge_interval: Some(interval),
        }
    }

    /// Creates a rate limiter with no background purge. Inactive keys are only
    /// reclaimed when [`RateLimiter::purge_expired`] is called.
    pub fn without_purge_task() -> (limiter: Self)
        ensures
            limiter@ == LimiterState::empty(),
            limiter.reached() == 0,
            crate::clock::instant_read(limiter.started()),
            limiter.interval() is None,
    {
        RateLimiter { table: WindowTable::new(), clock: Clock::start(), purge_interval: None }
    }

    /// The interval at which a background task is to purge this limiter, if
    /// one was asked for.
    pub fn purge_interval(&self) -> (interval: Option<Span>)
        ensures
            interval == self.interval(),
    {
        self.purge_interval
    }

    /// Records one attempt against `key` at the moment `now` and reports
    /// whether it is allowed under a `limit`-per-`window` sliding window.
    pub fn incr_and_check_at(
        &mut self,
        key: &str,
        limit: u32,
        window: Span,
        now: u128,
    ) -> (allowed: bool)
        ensures
            allowed == allows(old(self)@, key@, limit, window.nanos(), now),
            allowed <==> Set::new(
                |i: int|
                    0 <= i < log_of(old(self)@, key@).len() && now < log_of(old(self)@, key@)[i]
                        + window.secs * 1_000_000_000 + window.subsec_nanos,
            ).len() < limit,
            final(self)@ == attempted(old(self)@, key@, limit, window.nanos(), now),
            final(self).reached() == old(self).reached(),
            final(self).started() == old(self).started(),
            final(self).interval() == old(self).interval(),
    {
        let nanos: u128 = window.as_nanos();
        let ((mut hits, longest_before, largest_before), expires_at) = self.table.take(key);
        let longest: u128 = if longest_before < nanos {
            nanos
        } else {
            longest_before
        };
        let largest: u32 = if largest_before < limit {
            limit
        } else {
            largest_before
        };
        let allowed = slide(&mut hits, limit, nanos, longest, largest, now);
        let expires_at = later_of(expires_at, now.checked_add(longest));
        self.table.put_back(key, hits, longest, largest, expires_at);
        if allowed {
            self.table.record_hit();
        } else {
            self.table.record_miss();
        }
        assert(self@.rows =~= attempted(old(self)@, key@, limit, window.nanos(), now).rows);
        proof {
            let log = log_of(old(self)@, key@);
            crate::window::law_hits_in_the_window_decide(log, limit, window.nanos(), now, now);
            assert(Set::new(
                |i: int|
                    0 <= i < log.len() && now < log[i] + window.secs * 1_000_000_000
                        + window.subsec_nanos,
            ) =~= Set::new(|i: int| 0 <= i < log.len() && now < log[i] + window.nanos()));
        }
        allowed
    }

    /// Records one attempt against `key` and reports whether it is allowed
    /// under a `limit`-per-`window` sliding window.
    ///
    /// Returns `true` and counts the attempt if fewer than `limit` counted
    /// attempts are known in the trailing `window`; returns `false` (without
    /// counting it) otherwise. [`RateLimiter`] says when all of them are known.
    /// The attempt is made at the moment that the limiter's clock reads, which
    /// is never earlier than one it has read before.
    pub fn incr_and_check(&mut self, key: &str, limit: u32, window: Span) -> (allowed: bool)
        ensures
            old(self).reached() <= final(self).reached() <= crate::clock::last_moment(),
            exists|read: u128|
                {
                    &&& #[trigger] crate::clock::elapsed_read(old(self).started(), read)
                    &&& final(self).reached() >= read
                    &&& final(self).reached() == read || final(self).reached()
                        == old(self).reached()
                },
            allowed == allows(
                old(self)@,
                key@,
                limit,
                window.nanos(),
                final(self).reached(),
            ),
            final(self)@ == attempted(
                old(self)@,
                key@,
                limit,
                window.nanos(),
                final(self).reached(),
            ),
            limit == 0 ==> !allowed,
            log_of(old(self)@, key@).len() < limit ==> allowed,
            final(self).started() == old(self).started(),
            final(self).interval() == old(self).interval(),
    {
        let now: u128 = self.clock.now();
        assert(self.started() == old(self).started());
        proof {
            crate::window::lemma_recent_at_most_len(
                log_of(old(self)@, key@),
                window.nanos(),
                now,
            );
        }
        self.incr_and_check_at(key, limit, window, now)
    }

    /// Purges at the moment `now` every key that is inactive by then, and says
    /// how many went.
    pub fn purge_expired_at(&mut self, now: u128) -> (removed: usize)
        ensures
            old(self)@.rows.dom().finite(),
            removed == old(self)@.expired_keys(now).len(),
            final(self)@ == old(self)@.purged(now),
            forall|key: Seq<char>| #[trigger]
                final(self)@.rows.contains_key(key) <==> old(self)@.rows.contains_key(key) && (
                old(self)@.rows[key].1 matches Some(moment) ==> now < moment),
            forall|key: Seq<char>| #[trigger]
                final(self)@.rows.contains_key(key) ==> final(self)@.rows[key]
                    == old(self)@.rows[key],
            removed + final(self)@.rows.len() == old(self)@.rows.len(),
            final(self)@.counters.purged == (old(self)@.counters.purged + removed)
                % 0x1_0000_0000_0000_0000,
            final(self)@.counters.hits == old(self)@.counters.hits,
            final(self)@.counters.misses == old(self)@.counters.misses,
            final(self)@.counters.writes == old(self)@.counters.writes,
            final(self).reached() == old(self).reached(),
            final(self).started() == old(self).started(),
            final(self).interval() == old(self).interval(),
    {
        self.table.purge_expired(now)
    }

    /// Purges every inactive key at once, and says how many went. A background
    /// task normally does this on a timer.
    pub fn purge_expired(&mut self) -> (removed: usize)
        ensures
            old(self).reached() <= final(self).reached() <= crate::clock::last_moment(),
            exists|read: u128|
                {
                    &&& #[trigger] crate::clock::elapsed_read(old(self).started(), read)
                    &&& final(self).reached() >= read
                    &&& final(self).reached() == read || final(self).reached()
                        == old(self).reached()
                },
            old(self)@.rows.dom().finite(),
            removed == old(self)@.expired_keys(final(self).reached()).len(),
            final(self)@ == old(self)@.purged(final(self).reached()),
            forall|key: Seq<char>| #[trigger]
                final(self)@.rows.contains_key(key) <==> old(self)@.rows.contains_key(key) && (
                old(self)@.rows[key].1 matches Some(moment) ==> final(self).reached() < moment),
            forall|key: Seq<char>| #[trigger]
                final(self)@.rows.contains_key(key) ==> final(self)@.rows[key]
                    == old(self)@.rows[key],
            removed + final(self)@.rows.len() == old(self)@.rows.len(),
            final(self)@.counters.purged == (old(self)@.counters.purged + removed)
                % 0x1_0000_0000_0000_0000,
            final(self)@.counters.hits == old(self)@.counters.hits,
            final(self)@.counters.misses == old(self)@.counters.misses,
            final(self)@.counters.writes == old(self)@.counters.writes,
            final(self).started() == old(self).started(),
            final(self).interval() == old(self).interval(),
    {
        let now: u128 = self.clock.now();
        assert(self.started() == old(self).started());
        self.purge_expired_at(now)
    }

    /// Number of keys currently tracked (including any not yet purged that
    /// have gone fully idle).
    pub fn len(&self) -> (len: usize)
        ensures
            self@.rows.dom().finite(),
            len == self@.rows.len(),
    {
        self.table.len()
    }

    /// Whether no keys are currently tracked.
    pub fn is_empty(&self) -> (empty: bool)
        ensures
            empty == (self@.rows =~= Map::empty()),
    {
        let len: usize = self.table.len();
        proof {
            if len == 0 {
                assert(self@.rows.dom() =~= Set::empty());
            }
        }
        len == 0
    }

    /// Current hit/miss/write/purge counters for this limiter.
    pub fn metrics(&self) -> (snapshot: MetricsSnapshot)
        ensures
            self@.rows.dom().finite(),
            snapshot == self@.snapshot(),
            snapshot.hits == self@.counters.hits,
            snapshot.misses == self@.counters.misses,
            snapshot.writes == self@.counters.writes,
            snapshot.purged == self@.counters.purged,
            snapshot.len == self@.rows.len(),
    {
        self.table.metrics()
    }
}

impl Default for RateLimiter {
    fn default() -> (limiter: Self)
        ensures
            limiter@ == LimiterState::empty(),
            limiter.reached() == 0,
            crate::clock::instant_read(limiter.started()),
            limiter.interval() == Some(
                Span { secs: DEFAULT_PURGE_INTERVAL_SECS, subsec_nanos: 0 },
            ),
    {
        Self::new()
    }
}

} // verus!
