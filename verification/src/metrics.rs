//! Hit, miss, write and purge counters of a table.

use vstd::prelude::*;

verus! {

/// Point-in-time counters for a table.
#[derive(Debug, Clone, Copy, PartialEq, Eq, Structural)]
pub struct MetricsSnapshot {
    /// Number of lookups that found a live (non-expired) entry.
    pub hits: u64,
    /// Number of lookups that found no entry, or a stale one.
    pub misses: u64,
    /// Number of write operations (insert/update) performed.
    pub writes: u64,
    /// Number of entries removed by a purge.
    pub purged: u64,
    /// Current number of entries held in the table.
    pub len: usize,
}

/// What a [`Metrics`] has counted, each number modulo two to the sixty-fourth.
pub struct Counters {
    pub hits: u64,
    pub misses: u64,
    pub writes: u64,
    pub purged: u64,
}

/// The value of a 64-bit counter that stood at `count` and has seen `more`
/// further events: a counter that overflows starts again from zero.
pub open spec fn counted(count: u64, more: nat) -> u64 {
    ((count + more) % 0x1_0000_0000_0000_0000) as u64
}

/// Counting `n` events from `count` on and then `more` is counting all of them.
pub proof fn lemma_counted_adds_up(count: u64, n: nat, more: nat)
    ensures
        counted(counted(count, n), more) == counted(count, n + more),
{
    let sum = count + n;
    assert((sum % 0x1_0000_0000_0000_0000 + more) % 0x1_0000_0000_0000_0000 == (sum + more)
        % 0x1_0000_0000_0000_0000) by (nonlinear_arith);
}

/// A counter counts: it shows the number of its events, and starts again from
/// zero after as many as 64 bits can tell apart.
pub proof fn law_counter_counts(count: u64, more: nat)
    ensures
        count + more <= u64::MAX ==> counted(count, more) == count + more,
        counted(count, more) as int == (count + more) % 0x1_0000_0000_0000_0000,
        counted(count, more + 0x1_0000_0000_0000_0000) == counted(count, more),
        counted(count, 0) == count,
{
    let sum = count + more;
    assert((sum + 0x1_0000_0000_0000_0000) % 0x1_0000_0000_0000_0000 == sum
        % 0x1_0000_0000_0000_0000) by (nonlinear_arith);
}

/// Each event moves its own counter, once per event, and no other.
pub proof fn law_events_are_counted_apart(counters: Counters, n: nat)
    ensures
        Counters::zero().hits == 0 && Counters::zero().misses == 0,
        Counters::zero().writes == 0 && Counters::zero().purged == 0,
        counters.hit().hits == (counters.hits + 1) % 0x1_0000_0000_0000_0000,
        counters.hit().misses == counters.misses,
        counters.hit().writes == counters.writes,
        counters.hit().purged == counters.purged,
        counters.miss().misses == (counters.misses + 1) % 0x1_0000_0000_0000_0000,
        counters.miss().hits == counters.hits,
        counters.miss().writes == counters.writes,
        counters.miss().purged == counters.purged,
        counters.wrote(n).writes == (counters.writes + n) % 0x1_0000_0000_0000_0000,
        counters.wrote(n).hits == counters.hits,
        counters.wrote(n).misses == counters.misses,
        counters.wrote(n).purged == counters.purged,
        counters.purge(n).purged == (counters.purged + n) % 0x1_0000_0000_0000_0000,
        counters.purge(n).hits == counters.hits,
        counters.purge(n).misses == counters.misses,
        counters.purge(n).writes == counters.writes,
{
}

impl Counters {
    /// The counters of a fresh table.
    pub open spec fn zero() -> Counters {
        Counters { hits: 0, misses: 0, writes: 0, purged: 0 }
    }

    /// After one more hit.
    pub open spec fn hit(self) -> Counters {
        Counters { hits: counted(self.hits, 1), ..self }
    }

    /// After one more miss.
    pub open spec fn miss(self) -> Counters {
        Counters { misses: counted(self.misses, 1), ..self }
    }

    /// After `n` more writes.
    pub open spec fn wrote(self, n: nat) -> Counters {
        Counters { writes: counted(self.writes, n), ..self }
    }

    /// After `n` more entries were purged.
    pub open spec fn purge(self, n: nat) -> Counters {
        Counters { purged: counted(self.purged, n), ..self }
    }
}

/// Hit/miss/write/purge counters, readable at any time via
/// [`Metrics::snapshot`].
///
/// A plain counter set rather than a metrics registry: exporting the numbers
/// is left to the embedding service.
#[derive(Debug)]
pub struct Metrics {
    hits: u64,
    misses: u64,
    writes: u64,
    purged: u64,
}

impl View for Metrics {
    type V = Counters;

    closed spec fn view(&self) -> Counters {
        Counters {
            hits: self.hits,
            misses: self.misses,
            writes: self.writes,
            purged: self.purged,
        }
    }
}

impl Default for Metrics {
    fn default() -> (metrics: Self)
        ensures
            metrics@ == Counters::zero(),
    {
        Metrics { hits: 0, misses: 0, writes: 0, purged: 0 }
    }
}

impl Metrics {
    /// Counts one hit.
    pub fn record_hit(&mut self)
        ensures
            final(self)@ == old(self)@.hit(),
    {
        self.hits = self.hits.wrapping_add(1);
    }

    /// Counts one miss.
    pub fn record_miss(&mut self)
        ensures
            final(self)@ == old(self)@.miss(),
    {
        self.misses = self.misses.wrapping_add(1);
    }

    /// Counts one write.
    pub fn record_write(&mut self)
        ensures
            final(self)@ == old(self)@.wrote(1),
    {
        self.writes = self.writes.wrapping_add(1);
    }

    /// Counts `count` purged entries.
    pub fn record_purged(&mut self, count: u64)
        ensures
            final(self)@ == old(self)@.purge(count as nat),
    {
        self.purged = self.purged.wrapping_add(count);
    }

    /// The counters, beside the `len` entries that the table holds now.
    pub fn snapshot(&self, len: usize) -> (snapshot: MetricsSnapshot)
        ensures
            snapshot == (MetricsSnapshot {
                hits: self@.hits,
                misses: self@.misses,
                writes: self@.writes,
                purged: self@.purged,
                len,
            }),
    {
        MetricsSnapshot {
            hits: self.hits,
            misses: self.misses,
            writes: self.writes,
            purged: self.purged,
            len,
        }
    }
}

} // verus!
