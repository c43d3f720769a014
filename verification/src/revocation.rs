//! `credential_version` revocation cache.
//!
//! Holds one small integer per user: the credential version currently
//! considered valid. The authentication service bumps it on a password change,
//! a disabled second factor or a ban, and rejects any token minted against an
//! older version.
//!
//! The application database remains the source of truth. This cache is purely
//! an accelerator for the hot read path; the `redb` file behind it exists only
//! so that a process restart can warm-load recent values. The cache says what
//! is to be written to the file and reads what was found in it; its caller
//! performs the reads and writes.

use crate::clock::{system_time_since_epoch, Clock, Span};
use crate::error::{joined, KvError};
use crate::metrics::MetricsSnapshot;
use crate::record::CvRecord;
use crate::table::{TableState, VersionTable};
use vstd::prelude::*;

verus! {

/// What a revocation cache holds and has counted.
pub type CacheState = TableState<u64, u32>;

/// A row found in the file: the user and the bytes of the record, or why the
/// row could not be read.
pub type StoredRow = Result<(u64, Vec<u8>), KvError>;

/// A change to be made to the file, in one transaction.
#[derive(Debug)]
pub enum DiskWrite {
    /// Put these bytes under the user, whatever stood there.
    Put { user_id: u64, bytes: Vec<u8> },
    /// Take away what stands under the user, if anything does.
    Delete { user_id: u64 },
}

/// Whether no row of the cache expires on its own: entries live until they are
/// overwritten or invalidated, not until a clock runs out.
pub open spec fn never_expire(state: CacheState) -> bool {
    forall|user_id: u64| #[trigger]
        state.rows.contains_key(user_id) ==> state.rows[user_id].1 is None
}

/// The version cached for `user_id`, if any.
pub open spec fn cached(state: CacheState, user_id: u64) -> Option<u32> {
    if state.rows.contains_key(user_id) {
        Some(state.rows[user_id].0)
    } else {
        None
    }
}

/// The cache after a read for `user_id`, which is counted as a hit or as a
/// miss.
pub open spec fn read(state: CacheState, user_id: u64) -> CacheState {
    TableState {
        counters: if cached(state, user_id) is Some {
            state.counters.hit()
        } else {
            state.counters.miss()
        },
        ..state
    }
}

/// Whether a row found in the file holds a record.
pub open spec fn readable(row: StoredRow) -> bool {
    row is Ok && crate::record::decoded(row->Ok_0.1@) is Ok
}

/// The cache after the `rows`, all of which hold records, are loaded in order.
pub open spec fn loaded(rows: Seq<StoredRow>) -> CacheState
    decreases rows.len(),
{
    if rows.len() == 0 {
        CacheState::empty()
    } else {
        loaded(rows.drop_last()).written(
            rows.last()->Ok_0.0,
            crate::record::decoded(rows.last()->Ok_0.1@)->Ok_0.version,
            None,
        )
    }
}

/// Whether `error` is what a row that holds no record is answered with: its
/// own error, or why its bytes are no record.
pub open spec fn row_error(row: StoredRow, error: KvError) -> bool {
    match row {
        Err(cause) => error == cause,
        Ok((_, bytes)) => crate::record::decoded(bytes@) matches Err(text)
            && error matches KvError::Serialization(cause) && cause@ == text,
    }
}

/// Whether `write` puts under `user_id` a record of `version`, stamped with the
/// time that lies `since_epoch`.
pub open spec fn puts_at(
    write: DiskWrite,
    user_id: u64,
    version: u32,
    since_epoch: Option<Span>,
) -> bool {
    write matches DiskWrite::Put { user_id: id, bytes } && id == user_id && bytes@
        == crate::record::encoded(
        CvRecord { version, updated_at_unix_ms: crate::clock::unix_ms(since_epoch) },
    )
}

/// Whether `write` puts under `user_id` a record of `version`, stamped with
/// some time.
pub open spec fn puts(write: DiskWrite, user_id: u64, version: u32) -> bool {
    exists|since_epoch: Option<Span>| #[trigger] puts_at(write, user_id, version, since_epoch)
}

/// A write on behalf of `set_cv` puts what reads back as the version that was
/// set and the time at which it was, under the user it was set for.
pub proof fn law_put_reads_back_as_what_was_set(
    write: DiskWrite,
    user_id: u64,
    version: u32,
    since_epoch: Option<Span>,
)
    requires
        puts_at(write, user_id, version, since_epoch),
    ensures
        write is Put,
        write->Put_user_id == user_id,
        crate::record::decoded(write->bytes@) is Ok,
        crate::record::decoded(write->bytes@)->Ok_0.version == version,
        crate::record::decoded(write->bytes@)->Ok_0.updated_at_unix_ms == crate::clock::unix_ms(
            since_epoch,
        ),
{
    crate::record::law_record_is_read_back(
        CvRecord { version, updated_at_unix_ms: crate::clock::unix_ms(since_epoch) },
        Seq::empty(),
    );
}

/// What a cache answers for a user is the version that stands in the user's
/// row, whatever it is, and nothing where there is no row. A read is counted
/// and changes no row.
pub proof fn law_cache_answers_what_it_holds(state: CacheState, user_id: u64, version: u32)
    ensures
        cached(state, user_id) == Some(version) <==> state.rows.contains_key(user_id)
            && state.rows[user_id].0 == version,
        cached(state, user_id) is None <==> !state.rows.contains_key(user_id),
        read(state, user_id).rows == state.rows,
        state.rows.contains_key(user_id) ==> read(state, user_id).counters
            == state.counters.hit(),
        !state.rows.contains_key(user_id) ==> read(state, user_id).counters
            == state.counters.miss(),
{
}

/// A row of the file is loaded if and only if it could be read and its bytes
/// are a record; else it is answered with its own error, or with why its bytes
/// are none.
pub proof fn law_row_is_loaded_or_answered(row: StoredRow, error: KvError)
    ensures
        readable(row) <==> (row matches Ok((_, bytes)) && crate::record::decoded(bytes@) is Ok),
        row matches Err(cause) ==> (row_error(row, error) <==> error == cause),
        row matches Ok((_, bytes)) ==> (row_error(row, error) <==> (crate::record::decoded(
            bytes@,
        ) is Err && error is Serialization && error->Serialization_0@ == crate::record::decoded(
            bytes@,
        )->Err_0)),
{
}

/// The cache that is loaded from rows answers for a user with the version of
/// the last row of that user, and with nothing for a user that has none; no
/// entry expires, and each row is counted as a write.
pub proof fn law_last_row_of_a_user_is_loaded(rows: Seq<StoredRow>, user_id: u64)
    requires
        forall|i: int| 0 <= i < rows.len() ==> readable(#[trigger] rows[i]),
    ensures
        forall|i: int|
            {
                &&& 0 <= i < rows.len()
                &&& (#[trigger] rows[i])->Ok_0.0 == user_id
                &&& forall|j: int| i < j < rows.len() ==> (#[trigger] rows[j])->Ok_0.0 != user_id
            } ==> loaded(rows).rows.contains_key(user_id) && loaded(rows).rows[user_id] == (
                crate::record::decoded(rows[i]->Ok_0.1@)->Ok_0.version,
                None::<u128>,
            ),
        loaded(rows).rows.contains_key(user_id) <==> exists|i: int|
            0 <= i < rows.len() && (#[trigger] rows[i])->Ok_0.0 == user_id,
        loaded(rows).counters.writes == rows.len() % 0x1_0000_0000_0000_0000,
    decreases rows.len(),
{
    if rows.len() > 0 {
        let earlier = rows.drop_last();
        let last = rows[rows.len() - 1];
        assert(last == rows.last());
        assert forall|i: int| 0 <= i < earlier.len() implies readable(#[trigger] earlier[i]) by {
            assert(earlier[i] == rows[i]);
        }
        law_last_row_of_a_user_is_loaded(earlier, user_id);
        crate::metrics::lemma_counted_adds_up(0, earlier.len(), 1);
        assert forall|i: int|
            {
                &&& 0 <= i < rows.len()
                &&& (#[trigger] rows[i])->Ok_0.0 == user_id
                &&& forall|j: int| i < j < rows.len() ==> (#[trigger] rows[j])->Ok_0.0 != user_id
            } implies loaded(rows).rows.contains_key(user_id) && loaded(rows).rows[user_id] == (
            crate::record::decoded(rows[i]->Ok_0.1@)->Ok_0.version,
            None::<u128>,
        ) by {
            if i < earlier.len() {
                assert(earlier[i] == rows[i]);
                assert(last->Ok_0.0 != user_id);
                assert forall|j: int| i < j < earlier.len() implies (
                #[trigger] earlier[j])->Ok_0.0 != user_id by {
                    assert(earlier[j] == rows[j]);
                }
            }
        }
        if loaded(rows).rows.contains_key(user_id) && last->Ok_0.0 != user_id {
            let i = choose|i: int|
                0 <= i < earlier.len() && (#[trigger] earlier[i])->Ok_0.0 == user_id;
            assert(rows[i]->Ok_0.0 == user_id);
        }
        if exists|i: int| 0 <= i < rows.len() && (#[trigger] rows[i])->Ok_0.0 == user_id {
            let i = choose|i: int| 0 <= i < rows.len() && (#[trigger] rows[i])->Ok_0.0 == user_id;
            if i < earlier.len() {
                assert(earlier[i]->Ok_0.0 == user_id);
            }
        }
    }
}

/// A `credential_version` cache, which can be warm-loaded from and persisted
/// to a local `redb` file.
///
/// A write needs the cache exclusively, so that a read that follows it finds
/// what was written; callers that share a cache between tasks keep it behind a
/// lock.
pub struct RevocationCache {
    table: VersionTable,
    clock: Clock,
    persistent: bool,
}

impl View for RevocationCache {
    type V = CacheState;

    closed spec fn view(&self) -> CacheState {
        self.table@
    }
}

impl RevocationCache {
    /// Whether a file stands behind the cache.
    pub closed spec fn persists(&self) -> bool {
        self.persistent
    }

    /// The cache's invariant.
    pub open spec fn wf(&self) -> bool {
        never_expire(self@)
    }

    /// Creates a cache with no backing file: everything is lost on drop.
    pub fn new_in_memory() -> (cache: Self)
        ensures
            cache.wf(),
            cache@ == CacheState::empty(),
            !cache.persists(),
    {
        RevocationCache { table: VersionTable::new(), clock: Clock::start(), persistent: false }
    }

    /// Warm-loads a cache from the `rows` of its file, in the order in which
    /// they were read.
    ///
    /// # Errors
    ///
    /// Returns [`KvError`] for the first row that could not be read or that
    /// holds no record.
    pub fn open(rows: Vec<StoredRow>) -> (opened: Result<Self, KvError>)
        ensures
            opened is Ok <==> forall|i: int| 0 <= i < rows.len() ==> readable(#[trigger] rows[i]),
            opened matches Ok(cache) ==> cache.wf() && cache@ == loaded(rows@)
                && cache.persists(),
            opened matches Err(error) ==> exists|i: int|
                0 <= i < rows.len() && !readable(#[trigger] rows[i]) && row_error(rows[i], error)
                    && forall|j: int| 0 <= j < i ==> readable(#[trigger] rows[j]),
    {
        let ghost all = rows@;
        let mut table = VersionTable::new();
        assert(all.take(0) =~= Seq::empty());
        for row in it: rows
            invariant
                it.seq() == all,
                table@ == loaded(all.take(it.index())),
                never_expire(table@),
                forall|j: int| 0 <= j < it.index() ==> readable(#[trigger] all[j]),
        {
            let ghost at = it.index();
            assert(row == all[at]);
            assert(all.take(at + 1).drop_last() =~= all.take(at));
            let (user_id, bytes) = match row {
                Ok(pair) => pair,
                Err(error) => {
                    return Err(error);
                },
            };
            let record = match CvRecord::decode(bytes.as_slice()) {
                Ok(record) => record,
                Err(error) => {
                    return Err(error);
                },
            };
            table.insert(user_id, record.version, None);
        }
        assert(all.take(all.len() as int) =~= all);
        Ok(RevocationCache { table, clock: Clock::start(), persistent: true })
    }

    /// Returns the cached credential version for `user_id`, if known.
    ///
    /// A `None` result means "not in cache": callers should treat that as
    /// "fetch from the database and call `set_cv`", not as "version 0" or "no
    /// restriction". This never touches disk.
    pub fn get_cv(&mut self, user_id: u64) -> (version: Option<u32>)
        requires
            old(self).wf(),
        ensures
            final(self).wf(),
            version == cached(old(self)@, user_id),
            final(self)@ == read(old(self)@, user_id),
            final(self).persists() == old(self).persists(),
    {
        let now: u128 = self.clock.now();
        self.table.get_cloned(user_id, now)
    }

    /// Sets (or overwrites) the credential version for `user_id`, at the time
    /// that lies `since_epoch`. If a file stands behind the cache, the result
    /// says what is to be written to it: a record stamped with that time.
    pub fn set_cv_at(
        &mut self,
        user_id: u64,
        version: u32,
        since_epoch: Option<Span>,
    ) -> (write: Result<Option<DiskWrite>, KvError>)
        requires
            old(self).wf(),
        ensures
            final(self).wf(),
            final(self)@ == old(self)@.written(user_id, version, None),
            write is Ok,
            write->Ok_0 is Some <==> old(self).persists(),
            write->Ok_0 matches Some(put) ==> puts_at(put, user_id, version, since_epoch),
            write->Ok_0 matches Some(put) ==> put matches DiskWrite::Put { user_id: id, bytes }
                && id == user_id && crate::record::decoded(bytes@) == Ok::<CvRecord, Seq<char>>(
                CvRecord { version, updated_at_unix_ms: crate::clock::unix_ms(since_epoch) },
            ),
            final(self).persists() == old(self).persists(),
    {
        self.table.insert(user_id, version, None);
        if self.persistent {
            let record = CvRecord::stamped_at(version, since_epoch);
            proof {
                crate::record::law_record_is_read_back(record, Seq::empty());
            }
            match persist(user_id, &record) {
                Ok(put) => Ok(Some(put)),
                Err(error) => Err(error),
            }
        } else {
            Ok(None)
        }
    }

    /// Sets (or overwrites) the credential version for `user_id`, at the time
    /// that the system clock reads.
    ///
    /// The table in memory is updated at once, so that a `get_cv` issued right
    /// after this finds the new value, whatever becomes of the file. If a file
    /// stands behind the cache, the result says what is to be written to it
    /// before the call counts as done; see [`set_cv_outcome`].
    pub fn set_cv(&mut self, user_id: u64, version: u32) -> (write: Result<
        Option<DiskWrite>,
        KvError,
    >)
        requires
            old(self).wf(),
        ensures
            final(self).wf(),
            final(self)@ == old(self)@.written(user_id, version, None),
            write is Ok,
            write->Ok_0 is Some <==> old(self).persists(),
            write->Ok_0 matches Some(put) ==> puts(put, user_id, version),
            write->Ok_0 matches Some(put) ==> exists|since_epoch: Option<Span>|
                {
                    &&& #[trigger] crate::clock::system_read(since_epoch)
                    &&& puts_at(put, user_id, version, since_epoch)
                    &&& put matches DiskWrite::Put { user_id: id, bytes }
                    &&& id == user_id
                    &&& crate::record::decoded(bytes@) == Ok::<CvRecord, Seq<char>>(
                        CvRecord {
                            version,
                            updated_at_unix_ms: crate::clock::unix_ms(since_epoch),
                        },
                    )
                },
            final(self).persists() == old(self).persists(),
    {
        let since_epoch = system_time_since_epoch();
        assert(crate::clock::system_read(since_epoch)) by {
            crate::clock::law_readings_come_from_the_system(since_epoch);
        }
        self.set_cv_at(user_id, version, since_epoch)
    }

    /// Removes `user_id` from the cache entirely. Intended for account
    /// deletion, not for routine credential rotation: a password, second
    /// factor or ban event should call [`RevocationCache::set_cv`] with the new
    /// version instead.
    ///
    /// If a file stands behind the cache, the result says what is to be taken
    /// away from it; see [`invalidate_outcome`].
    pub fn invalidate(&mut self, user_id: u64) -> (write: Option<DiskWrite>)
        requires
            old(self).wf(),
        ensures
            final(self).wf(),
            final(self)@ == old(self)@.without(user_id),
            write == if old(self).persists() {
                Some(DiskWrite::Delete { user_id })
            } else {
                None
            },
            final(self).persists() == old(self).persists(),
    {
        self.table.remove(user_id);
        if self.persistent {
            Some(remove(user_id))
        } else {
            None
        }
    }

    /// Number of users currently cached in memory.
    pub fn len(&self) -> (len: usize)
        ensures
            self@.rows.dom().finite(),
            len == self@.rows.len(),
    {
        self.table.len()
    }

    /// Whether the cache is currently empty.
    pub fn is_empty(&self) -> (empty: bool)
        ensures
            empty == (self@.rows =~= Map::empty()),
    {
        let len: usize = self.table.len();
        proof {
            if len == 0 {
                assert(self@.rows.dom() =~= Set::empty());
            }
        }
        len == 0
    }

    /// Whether this cache is backed by a file (`true` when warm-loaded via
    /// [`RevocationCache::open`], `false` for
    /// [`RevocationCache::new_in_memory`]).
    pub fn is_persistent(&self) -> (persistent: bool)
        ensures
            persistent == self.persists(),
    {
        self.persistent
    }

    /// Current hit/miss/write counters for this cache.
    pub fn metrics(&self) -> (snapshot: MetricsSnapshot)
        ensures
            self@.rows.dom().finite(),
            snapshot == self@.snapshot(),
            snapshot.hits == self@.counters.hits,
            snapshot.misses == self@.counters.misses,
            snapshot.writes == self@.counters.writes,
            snapshot.purged == self@.counters.purged,
            snapshot.len == self@.rows.len(),
    {
        self.table.metrics()
    }
}

/// What is to be written to the file for `record` to stand under `user_id`.
pub fn persist(user_id: u64, record: &CvRecord) -> (write: Result<DiskWrite, KvError>)
    ensures
        write matches Ok(DiskWrite::Put { user_id: id, bytes }) && id == user_id && bytes@
            == crate::record::encoded(*record),
{
    match record.encode() {
        Ok(bytes) => Ok(DiskWrite::Put { user_id, bytes }),
        Err(error) => Err(error),
    }
}

/// What is to be done to the file for nothing to stand under `user_id`.
pub fn remove(user_id: u64) -> (write: DiskWrite)
    ensures
        write == (DiskWrite::Delete { user_id }),
{
    DiskWrite::Delete { user_id }
}

/// What a `set_cv` answers, once the task that wrote to the file has ended:
/// what the task answered, or that it panicked. A failure degrades durability,
/// not the cache: the table in memory has been updated.
pub fn set_cv_outcome(task: Result<Result<(), KvError>, String>) -> (outcome: Result<(), KvError>)
    ensures
        match task {
            Ok(answer) => outcome == answer,
            Err(text) => outcome matches Err(KvError::Serialization(cause)) && cause@
                == "persist task panicked: "@ + text@,
        },
{
    match task {
        Ok(answer) => answer,
        Err(text) => Err(KvError::Serialization(joined("persist task panicked: ", text.as_str()))),
    }
}

/// What an `invalidate` answers, once the task that wrote to the file has
/// ended: what the task answered, or that it panicked.
pub fn invalidate_outcome(task: Result<Result<(), KvError>, String>) -> (outcome: Result<
    (),
    KvError,
>)
    ensures
        match task {
            Ok(answer) => outcome == answer,
            Err(text) => outcome matches Err(KvError::Serialization(cause)) && cause@
                == "invalidate task panicked: "@ + text@,
        },
{
    match task {
        Ok(answer) => answer,
        Err(text) => Err(
            KvError::Serialization(joined("invalidate task panicked: ", text.as_str())),
        ),
    }
}

} // verus!
