//! What a revocation cache promises over a whole history of calls, in memory
//! and across a restart.

use crate::record::CvRecord;
use crate::revocation::{CacheState, DiskWrite, StoredRow};
use vstd::prelude::*;

verus! {

/// A call on a cache.
pub enum Call {
    /// `set_cv`, at the moment that its record is stamped with.
    SetCv { user_id: u64, version: u32, ms: u64 },
    /// `invalidate`.
    Invalidate { user_id: u64 },
    /// `get_cv`.
    GetCv { user_id: u64 },
}

/// The cache after one call.
pub open spec fn step(state: CacheState, call: Call) -> CacheState {
    match call {
        Call::SetCv { user_id, version, .. } => state.written(user_id, version, None),
        Call::Invalidate { user_id } => state.without(user_id),
        Call::GetCv { user_id } => crate::revocation::read(state, user_id),
    }
}

/// What the file holds after one of the cache's writes: bytes under users.
pub open spec fn applied(file: Map<u64, Seq<u8>>, write: DiskWrite) -> Map<u64, Seq<u8>> {
    match write {
        DiskWrite::Put { user_id, bytes } => file.insert(user_id, bytes@),
        DiskWrite::Delete { user_id } => file.remove(user_id),
    }
}

/// What the file holds after one call whose write was performed.
pub open spec fn file_step(file: Map<u64, Seq<u8>>, call: Call) -> Map<u64, Seq<u8>> {
    match call {
        Call::SetCv { user_id, version, ms } => file.insert(
            user_id,
            crate::record::encoded(CvRecord { version, updated_at_unix_ms: ms }),
        ),
        Call::Invalidate { user_id } => file.remove(user_id),
        Call::GetCv { .. } => file,
    }
}

/// The cache after the `calls`, from `state` on.
pub open spec fn state_after(state: CacheState, calls: Seq<Call>) -> CacheState
    decreases calls.len(),
{
    if calls.len() == 0 {
        state
    } else {
        step(state_after(state, calls.drop_last()), calls.last())
    }
}

/// What the file holds after the `calls`, from `file` on.
pub open spec fn file_after(file: Map<u64, Seq<u8>>, calls: Seq<Call>) -> Map<u64, Seq<u8>>
    decreases calls.len(),
{
    if calls.len() == 0 {
        file
    } else {
        file_step(file_after(file, calls.drop_last()), calls.last())
    }
}

/// Whether the file holds, for each user in the cache and for no other, a
/// record of the cached version.
pub open spec fn in_step(state: CacheState, file: Map<u64, Seq<u8>>) -> bool {
    &&& crate::revocation::never_expire(state)
    &&& state.rows.dom() == file.dom()
    &&& forall|user_id: u64| #[trigger]
        file.contains_key(user_id) ==> (crate::record::decoded(file[user_id]) matches Ok(record)
            && record.version == state.rows[user_id].0)
}

/// Whether `rows` are the rows of the file: each is one of its rows, and each
/// of its rows is among them.
pub open spec fn lists(rows: Seq<StoredRow>, file: Map<u64, Seq<u8>>) -> bool {
    &&& forall|i: int|
        0 <= i < rows.len() ==> (#[trigger] rows[i] matches Ok((user_id, bytes))
            && file.contains_key(user_id) && file[user_id] == bytes@)
    &&& forall|user_id: u64| #[trigger]
        file.contains_key(user_id) ==> exists|i: int|
            0 <= i < rows.len() && (#[trigger] rows[i])->Ok_0.0 == user_id
}

/// The write that a persistent `set_cv` hands out is the one that keeps the
/// file in step: performing it does to the file what the call does to the
/// cache.
pub proof fn law_set_write_is_the_calls(
    file: Map<u64, Seq<u8>>,
    write: DiskWrite,
    user_id: u64,
    version: u32,
)
    requires
        crate::revocation::puts(write, user_id, version),
    ensures
        exists|ms: u64|
            applied(file, write) == #[trigger] file_step(
                file,
                Call::SetCv { user_id, version, ms },
            ),
{
    let since_epoch = choose|since_epoch: Option<crate::clock::Span>| #[trigger]
        crate::revocation::puts_at(write, user_id, version, since_epoch);
    let ms = crate::clock::unix_ms(since_epoch);
    assert(applied(file, write) == file_step(file, Call::SetCv { user_id, version, ms }));
}

/// The write that a persistent `invalidate` hands out is the one that keeps
/// the file in step.
pub proof fn law_invalidate_write_is_the_calls(file: Map<u64, Seq<u8>>, user_id: u64)
    ensures
        applied(file, DiskWrite::Delete { user_id }) == file_step(
            file,
            Call::Invalidate { user_id },
        ),
{
}

/// A cache and a file in step stay in step under every call whose write is
/// performed.
pub proof fn law_calls_keep_in_step(state: CacheState, file: Map<u64, Seq<u8>>, calls: Seq<Call>)
    requires
        in_step(state, file),
    ensures
        in_step(state_after(state, calls), file_after(file, calls)),
    decreases calls.len(),
{
    if calls.len() > 0 {
        let earlier = calls.drop_last();
        law_calls_keep_in_step(state, file, earlier);
        let before = state_after(state, earlier);
        let disk = file_after(file, earlier);
        let after = state_after(state, calls);
        let written = file_after(file, calls);
        match calls.last() {
            Call::SetCv { user_id, version, ms } => {
                let record = CvRecord { version, updated_at_unix_ms: ms };
                crate::record::law_record_is_read_back(record, Seq::empty());
                assert(after.rows.dom() =~= written.dom());
                assert forall|id: u64| #[trigger] written.contains_key(id) implies (
                crate::record::decoded(written[id]) matches Ok(read) && read.version
                    == after.rows[id].0) by {
                    if id != user_id {
                        assert(disk.contains_key(id));
                    }
                }
            },
            Call::Invalidate { user_id } => {
                assert(after.rows.dom() =~= written.dom());
                assert forall|id: u64| #[trigger] written.contains_key(id) implies (
                crate::record::decoded(written[id]) matches Ok(read) && read.version
                    == after.rows[id].0) by {
                    assert(disk.contains_key(id));
                }
            },
            Call::GetCv { user_id } => {},
        }
    }
}

/// What is loaded from the rows of a file: exactly the versions of its records.
proof fn lemma_loaded_rows(rows: Seq<StoredRow>, file: Map<u64, Seq<u8>>)
    requires
        forall|i: int|
            0 <= i < rows.len() ==> (#[trigger] rows[i] matches Ok((user_id, bytes))
                && file.contains_key(user_id) && file[user_id] == bytes@),
    ensures
        crate::revocation::never_expire(crate::revocation::loaded(rows)),
        forall|user_id: u64| #[trigger]
            crate::revocation::loaded(rows).rows.contains_key(user_id) ==> file.contains_key(
                user_id,
            ) && crate::revocation::loaded(rows).rows[user_id].0 == crate::record::decoded(
                file[user_id],
            )->Ok_0.version,
        forall|i: int|
            0 <= i < rows.len() ==> crate::revocation::loaded(rows).rows.contains_key(
                (#[trigger] rows[i])->Ok_0.0,
            ),
    decreases rows.len(),
{
    if rows.len() > 0 {
        let earlier = rows.drop_last();
        assert forall|i: int| 0 <= i < earlier.len() implies (#[trigger] earlier[i] matches Ok(
            (user_id, bytes),
        ) && file.contains_key(user_id) && file[user_id] == bytes@) by {
            assert(earlier[i] == rows[i]);
        }
        lemma_loaded_rows(earlier, file);
        let last = rows.last();
        assert(last == rows[rows.len() - 1]);
        assert forall|i: int| 0 <= i < rows.len() implies crate::revocation::loaded(
            rows,
        ).rows.contains_key((#[trigger] rows[i])->Ok_0.0) by {
            if i < earlier.len() {
                assert(earlier[i] == rows[i]);
            }
        }
    }
}

/// A persisted cache survives a restart: after any calls whose writes were
/// performed, a cache opened on the rows of the file holds exactly what the
/// old one held, however the rows are ordered.
pub proof fn law_reopened_cache_is_the_same(
    state: CacheState,
    file: Map<u64, Seq<u8>>,
    calls: Seq<Call>,
    rows: Seq<StoredRow>,
)
    requires
        in_step(state, file),
        lists(rows, file_after(file, calls)),
    ensures
        forall|i: int| 0 <= i < rows.len() ==> crate::revocation::readable(#[trigger] rows[i]),
        crate::revocation::loaded(rows).rows == state_after(state, calls).rows,
        in_step(crate::revocation::loaded(rows), file_after(file, calls)),
{
    law_calls_keep_in_step(state, file, calls);
    let old_cache = state_after(state, calls);
    let disk = file_after(file, calls);
    let new_cache = crate::revocation::loaded(rows);
    lemma_loaded_rows(rows, disk);
    assert forall|i: int| 0 <= i < rows.len() implies crate::revocation::readable(
        #[trigger] rows[i],
    ) by {
        assert(disk.contains_key(rows[i]->Ok_0.0));
    }
    assert forall|id: u64| old_cache.rows.contains_key(id) <==> new_cache.rows.contains_key(id) by {
        if old_cache.rows.contains_key(id) {
            assert(disk.contains_key(id));
            let i = choose|i: int| 0 <= i < rows.len() && (#[trigger] rows[i])->Ok_0.0 == id;
            assert(new_cache.rows.contains_key(rows[i]->Ok_0.0));
        }
    }
    assert(new_cache.rows =~= old_cache.rows) by {
        assert(new_cache.rows.dom() =~= old_cache.rows.dom());
        assert forall|id: u64| #[trigger] new_cache.rows.contains_key(
            id,
        ) implies new_cache.rows[id] == old_cache.rows[id] by {
            assert(disk.contains_key(id));
            assert(old_cache.rows.contains_key(id));
        }
    }
}

/// A new file and a new cache are in step.
pub proof fn law_new_file_is_in_step()
    ensures
        in_step(CacheState::empty(), Map::<u64, Seq<u8>>::empty()),
{
    assert(CacheState::empty().rows.dom() =~= Map::<u64, Seq<u8>>::empty().dom());
}

/// The version that the `calls` last set for `user_id` and have not since
/// invalidated; `before` if they say nothing of the user.
pub open spec fn last_set(calls: Seq<Call>, user_id: u64, before: Option<u32>) -> Option<u32>
    decreases calls.len(),
{
    if calls.len() == 0 {
        before
    } else {
        match calls.last() {
            Call::SetCv { user_id: id, version, .. } if id == user_id => Some(version),
            Call::Invalidate { user_id: id } if id == user_id => None,
            _ => last_set(calls.drop_last(), user_id, before),
        }
    }
}

/// A read gives back the last write: whatever calls came before, `get_cv` finds
/// the version last set for that user, nothing after an invalidation, and is
/// not touched by calls on other users or by reads.
pub proof fn law_read_gives_last_write(state: CacheState, calls: Seq<Call>, user_id: u64)
    ensures
        crate::revocation::cached(state_after(state, calls), user_id) == last_set(
            calls,
            user_id,
            crate::revocation::cached(state, user_id),
        ),
    decreases calls.len(),
{
    if calls.len() > 0 {
        law_read_gives_last_write(state, calls.drop_last(), user_id);
    }
}

/// A cache never expires its entries: the invariant holds after any calls, and
/// a read finds a cached version at whatever moment it comes.
pub proof fn law_entries_never_expire(
    state: CacheState,
    calls: Seq<Call>,
    user_id: u64,
    now: u128,
)
    requires
        crate::revocation::never_expire(state),
    ensures
        crate::revocation::never_expire(state_after(state, calls)),
        state_after(state, calls).lookup(user_id, now) == crate::revocation::cached(
            state_after(state, calls),
            user_id,
        ),
    decreases calls.len(),
{
    if calls.len() > 0 {
        law_entries_never_expire(state, calls.drop_last(), user_id, now);
    }
}

/// How many of the `calls` set a version.
pub open spec fn sets_in(calls: Seq<Call>) -> nat
    decreases calls.len(),
{
    if calls.len() == 0 {
        0
    } else if calls.last() is SetCv {
        sets_in(calls.drop_last()) + 1
    } else {
        sets_in(calls.drop_last())
    }
}

/// How many of the `calls`, made from `state` on, are reads that find a
/// version, or, with `found` false, that find none.
pub open spec fn reads_in(state: CacheState, calls: Seq<Call>, found: bool) -> nat
    decreases calls.len(),
{
    if calls.len() == 0 {
        0
    } else {
        let before = reads_in(state, calls.drop_last(), found);
        match calls.last() {
            Call::GetCv { user_id } => if (last_set(
                calls.drop_last(),
                user_id,
                crate::revocation::cached(state, user_id),
            ) is Some) == found {
                before + 1
            } else {
                before
            },
            _ => before,
        }
    }
}

/// The counters of a cache tell its history, from any state on, that of a new
/// cache or of an opened one: one write more for each version set, one hit for
/// each read that found a version, one miss for each that did not, and nothing
/// purged.
pub proof fn law_counters_tell_the_calls(state: CacheState, calls: Seq<Call>)
    ensures
        state_after(state, calls).counters.writes == crate::metrics::counted(
            state.counters.writes,
            sets_in(calls),
        ),
        state_after(state, calls).counters.hits == crate::metrics::counted(
            state.counters.hits,
            reads_in(state, calls, true),
        ),
        state_after(state, calls).counters.misses == crate::metrics::counted(
            state.counters.misses,
            reads_in(state, calls, false),
        ),
        state_after(state, calls).counters.purged == state.counters.purged,
    decreases calls.len(),
{
    if calls.len() > 0 {
        let earlier = calls.drop_last();
        law_counters_tell_the_calls(state, earlier);
        crate::metrics::lemma_counted_adds_up(state.counters.writes, sets_in(earlier), 1);
        crate::metrics::lemma_counted_adds_up(
            state.counters.hits,
            reads_in(state, earlier, true),
            1,
        );
        crate::metrics::lemma_counted_adds_up(
            state.counters.misses,
            reads_in(state, earlier, false),
            1,
        );
        if let Call::GetCv { user_id } = calls.last() {
            law_read_gives_last_write(state, earlier, user_id);
        }
    }
}

/// Opening a cache counts one write for each row that is loaded, and nothing
/// else.
pub proof fn law_opening_counts_its_rows(rows: Seq<StoredRow>)
    ensures
        crate::revocation::loaded(rows).counters == crate::metrics::Counters::zero().wrote(
            rows.len(),
        ),
    decreases rows.len(),
{
    if rows.len() > 0 {
        law_opening_counts_its_rows(rows.drop_last());
        crate::metrics::lemma_counted_adds_up(0, (rows.len() - 1) as nat, 1);
    }
}

} // verus!
