//! The sliding-window log of one key.
//!
//! An exact log of timestamps rather than a fixed-window counter or a weighted
//! approximation: a slot frees up when, and only when, a recorded hit has aged
//! past the window. Each attempt counts the hits in its own window. A hit is
//! discarded once it has aged past the longest window asked for on the key and
//! is no longer among as many of the latest as the largest limit asked for: the
//! latest hits decide any window under such a limit. The cost is one timestamp
//! per hit, up to the limit under a policy that does not change.

use std::collections::VecDeque;
use vstd::prelude::*;

verus! {

broadcast use vstd::std_specs::vecdeque::group_vec_dequeue_axioms;

/// Whether a hit recorded at `hit` has left the `window` that trails `now`:
/// the window covers what is later than `now - window`.
pub open spec fn stale(hit: u128, window: nat, now: u128) -> bool {
    hit + window <= now
}

/// What is kept of `hits` at `now`: the `largest` latest, and of the others all
/// but the ones at the front that have left the `longest` window.
pub open spec fn kept(hits: Seq<u128>, longest: nat, largest: u32, now: u128) -> Seq<u128>
    decreases hits.len(),
{
    if hits.len() > largest && stale(hits[0], longest, now) {
        kept(hits.drop_first(), longest, largest, now)
    } else {
        hits
    }
}

/// How many of `hits` lie in the `window` that trails `now`.
pub open spec fn recent(hits: Seq<u128>, window: nat, now: u128) -> nat
    decreases hits.len(),
{
    if hits.len() == 0 {
        0
    } else if stale(hits.last(), window, now) {
        recent(hits.drop_last(), window, now)
    } else {
        recent(hits.drop_last(), window, now) + 1
    }
}

/// Whether one more hit is admitted at `now`, under `limit` per `window`.
pub open spec fn admitted(hits: Seq<u128>, limit: u32, window: nat, now: u128) -> bool {
    recent(hits, window, now) < limit
}

/// The longer of two windows.
pub open spec fn longer(one: nat, other: nat) -> nat {
    if one < other {
        other
    } else {
        one
    }
}

/// The larger of two limits.
pub open spec fn larger(one: u32, other: u32) -> u32 {
    if one < other {
        other
    } else {
        one
    }
}

/// The hits with an attempt at `now`: an admitted one is recorded, a denied one
/// is not.
pub open spec fn recorded(hits: Seq<u128>, limit: u32, window: nat, now: u128) -> Seq<u128> {
    if admitted(hits, limit, window, now) {
        hits.push(now)
    } else {
        hits
    }
}

/// The log after an attempt at `now`, where `longest` is the longest window and
/// `largest` the largest limit asked for so far, this attempt's among them.
pub open spec fn logged(
    hits: Seq<u128>,
    limit: u32,
    window: nat,
    longest: nat,
    largest: u32,
    now: u128,
) -> Seq<u128> {
    kept(recorded(hits, limit, window, now), longest, largest, now)
}

/// How many of `hits` lie in the `window` that trails `now`.
fn count_recent(hits: &VecDeque<u128>, window: u128, now: u128) -> (count: usize)
    ensures
        count == recent(hits@, window as nat, now),
{
    let cutoff = now.checked_sub(window);
    let mut count: usize = 0;
    let mut i: usize = 0;
    assert(hits@.take(0) =~= Seq::empty());
    while i < hits.len()
        invariant
            cutoff == now.checked_sub(window),
            count <= i <= hits.len(),
            count == recent(hits@.take(i as int), window as nat, now),
        decreases hits.len() - i,
    {
        assert(hits@.take(i + 1).drop_last() =~= hits@.take(i as int));
        let hit: u128 = hits[i];
        let aged = match cutoff {
            Some(moment) => hit <= moment,
            None => false,
        };
        if !aged {
            count = count + 1;
        }
        i = i + 1;
    }
    assert(hits@.take(i as int) =~= hits@);
    count
}

/// Records one attempt at `now` if fewer than `limit` hits lie in `window`, then
/// drops from the front of `hits` what need not be kept. `longest` and `largest`
/// are the longest window and the largest limit asked for, this attempt's among
/// them. Says whether the attempt was admitted.
pub fn slide(
    hits: &mut VecDeque<u128>,
    limit: u32,
    window: u128,
    longest: u128,
    largest: u32,
    now: u128,
) -> (allowed: bool)
    ensures
        allowed == admitted(old(hits)@, limit, window as nat, now),
        final(hits)@ == logged(
            old(hits)@,
            limit,
            window as nat,
            longest as nat,
            largest,
            now,
        ),
{
    let allowed = (count_recent(hits, window, now) as u64) < limit as u64;
    if allowed {
        hits.push_back(now);
    }
    let ghost all = hits@;
    let cutoff = now.checked_sub(longest);
    while hits.len() as u64 > largest as u64
        invariant
            cutoff == now.checked_sub(longest),
            kept(hits@, longest as nat, largest, now) == kept(all, longest as nat, largest, now),
        ensures
            hits@ == kept(all, longest as nat, largest, now),
        decreases hits.len(),
    {
        let front: u128 = hits[0];
        let aged = match cutoff {
            Some(moment) => front <= moment,
            None => false,
        };
        if !aged {
            break;
        }
        hits.pop_front();
    }
    allowed
}

/// Whether the moments of `hits` never go back.
pub open spec fn in_order(hits: Seq<u128>) -> bool {
    forall|i: int, j: int| 0 <= i <= j < hits.len() ==> hits[i] <= hits[j]
}

/// `recent` of a log whose first `aged` hits are stale and whose others are
/// not.
pub proof fn lemma_recent_of_split(hits: Seq<u128>, aged: int, window: nat, now: u128)
    requires
        0 <= aged <= hits.len(),
        forall|i: int| 0 <= i < aged ==> stale(#[trigger] hits[i], window, now),
        forall|i: int| aged <= i < hits.len() ==> !stale(#[trigger] hits[i], window, now),
    ensures
        recent(hits, window, now) == hits.len() - aged,
    decreases hits.len(),
{
    if hits.len() > 0 {
        let rest = hits.drop_last();
        if aged == hits.len() {
            lemma_recent_of_split(rest, aged - 1, window, now);
        } else {
            lemma_recent_of_split(rest, aged, window, now);
        }
    }
}

/// `recent` is not changed by taking stale hits away from the front.
proof fn lemma_recent_drops_stale_front(hits: Seq<u128>, window: nat, now: u128)
    requires
        hits.len() > 0,
        stale(hits[0], window, now),
    ensures
        recent(hits.drop_first(), window, now) == recent(hits, window, now),
    decreases hits.len(),
{
    let rest = hits.drop_first();
    if hits.len() == 1 {
        assert(hits.drop_last() =~= rest);
        assert(recent(rest, window, now) == 0);
    } else {
        lemma_recent_drops_stale_front(hits.drop_last(), window, now);
        assert(hits.drop_last().drop_first() =~= rest.drop_last());
        assert(rest.last() == hits.last());
    }
}

/// `recent` counts no more hits than there are.
pub proof fn lemma_recent_at_most_len(hits: Seq<u128>, window: nat, now: u128)
    ensures
        recent(hits, window, now) <= hits.len(),
    decreases hits.len(),
{
    if hits.len() > 0 {
        lemma_recent_at_most_len(hits.drop_last(), window, now);
    }
}

/// `recent` of the end of a log whose other hits are stale is that of the
/// whole.
pub proof fn lemma_recent_of_end(hits: Seq<u128>, aged: int, window: nat, now: u128)
    requires
        0 <= aged <= hits.len(),
        forall|i: int| 0 <= i < aged ==> stale(#[trigger] hits[i], window, now),
    ensures
        recent(hits.skip(aged), window, now) == recent(hits, window, now),
    decreases hits.len() - aged,
{
    if aged == hits.len() {
        lemma_recent_of_split(hits, aged, window, now);
    } else {
        assert(hits.skip(aged).drop_last() =~= hits.drop_last().skip(aged));
        assert(hits.skip(aged).last() == hits.last());
        lemma_recent_of_end(hits.drop_last(), aged, window, now);
    }
}

/// `recent` of the end of a log is at most that of the whole.
pub proof fn lemma_recent_of_part(hits: Seq<u128>, from: int, window: nat, now: u128)
    requires
        0 <= from <= hits.len(),
    ensures
        recent(hits.skip(from), window, now) <= recent(hits, window, now),
    decreases hits.len() - from,
{
    if from < hits.len() {
        assert(hits.skip(from).drop_last() =~= hits.drop_last().skip(from));
        assert(hits.skip(from).last() == hits.last());
        lemma_recent_of_part(hits.drop_last(), from, window, now);
    }
}

/// What is kept is the end of the log, no fewer than the `largest` latest hits,
/// and what is dropped is stale.
pub proof fn lemma_kept_is_a_suffix(hits: Seq<u128>, longest: nat, largest: u32, now: u128)
    ensures
        kept(hits, longest, largest, now).len() <= hits.len(),
        kept(hits, longest, largest, now).len() < hits.len() ==> kept(
            hits,
            longest,
            largest,
            now,
        ).len() >= largest,
        kept(hits, longest, largest, now).len() > largest ==> !stale(
            kept(hits, longest, largest, now)[0],
            longest,
            now,
        ),
        kept(hits, longest, largest, now) == hits.skip(
            hits.len() - kept(hits, longest, largest, now).len(),
        ),
        forall|i: int|
            0 <= i < hits.len() - kept(hits, longest, largest, now).len() ==> stale(
                #[trigger] hits[i],
                longest,
                now,
            ),
    decreases hits.len(),
{
    if hits.len() > largest && stale(hits[0], longest, now) {
        let rest = hits.drop_first();
        lemma_kept_is_a_suffix(rest, longest, largest, now);
        let dropped = hits.len() - kept(hits, longest, largest, now).len();
        assert(rest.skip(dropped - 1) =~= hits.skip(dropped));
        assert forall|i: int| 0 <= i < dropped implies stale(#[trigger] hits[i], longest, now) by {
            if i > 0 {
                assert(rest[i - 1] == hits[i]);
            }
        }
    } else {
        assert(hits.skip(0) =~= hits);
    }
}

/// The places in the log of the hits that lie in the `window` that trails
/// `now`: those younger than the window.
pub open spec fn places(hits: Seq<u128>, window: nat, now: u128) -> Set<int> {
    Set::new(|i: int| 0 <= i < hits.len() && now < hits[i] + window)
}

/// A hit leaves the window at the moment when it is as old as the window, not
/// before and not after; and an attempt is admitted if and only if the hits
/// that are younger than the window are fewer than the limit.
pub proof fn law_hits_in_the_window_decide(
    hits: Seq<u128>,
    limit: u32,
    window: nat,
    now: u128,
    hit: u128,
)
    ensures
        stale(hit, window, now) <==> now - hit >= window,
        Set::new(|i: int| 0 <= i < hits.len() && now < hits[i] + window).finite(),
        recent(hits, window, now) == Set::new(
            |i: int| 0 <= i < hits.len() && now < hits[i] + window,
        ).len(),
        admitted(hits, limit, window, now) <==> Set::new(
            |i: int| 0 <= i < hits.len() && now < hits[i] + window,
        ).len() < limit,
    decreases hits.len(),
{
    let young = places(hits, window, now);
    assert(young =~= Set::new(|i: int| 0 <= i < hits.len() && now < hits[i] + window));
    if hits.len() == 0 {
        assert(young =~= Set::empty());
    } else {
        let rest = hits.drop_last();
        let before = places(rest, window, now);
        law_hits_in_the_window_decide(rest, limit, window, now, hit);
        assert(before =~= Set::new(|i: int| 0 <= i < rest.len() && now < rest[i] + window));
        if stale(hits.last(), window, now) {
            assert(young =~= before);
        } else {
            assert(young =~= before.insert(hits.len() - 1));
        }
    }
}

/// What an attempt leaves in the log: what was there, with the moment of the
/// attempt at the end if it was admitted, less some from the front. Each that
/// went is as old as the longest window, and no fewer than the largest limit
/// are left; while more than that are left, the first is younger than the
/// longest window.
pub proof fn law_attempt_leaves_what_is_needed(
    hits: Seq<u128>,
    limit: u32,
    window: nat,
    longest: nat,
    largest: u32,
    now: u128,
)
    ensures
        ({
            let fresh = Set::new(|i: int| 0 <= i < hits.len() && now < hits[i] + window).len();
            let all = if fresh < limit {
                hits.push(now)
            } else {
                hits
            };
            let log = logged(hits, limit, window, longest, largest, now);
            &&& log.len() <= all.len()
            &&& log == all.skip(all.len() - log.len())
            &&& log.len() < all.len() ==> log.len() >= largest
            &&& log.len() > largest ==> now < log[0] + longest
            &&& forall|i: int|
                0 <= i < all.len() - log.len() ==> #[trigger] all[i] + longest <= now
        }),
{
    law_hits_in_the_window_decide(hits, limit, window, now, now);
    lemma_kept_is_a_suffix(recorded(hits, limit, window, now), longest, largest, now);
    let all = recorded(hits, limit, window, now);
    let log = logged(hits, limit, window, longest, largest, now);
    assert forall|i: int| 0 <= i < all.len() - log.len() implies #[trigger] all[i] + longest
        <= now by {
        assert(stale(all[i], longest, now));
    }
}

/// The longer window and the larger limit are one of the two, and no less than
/// either.
pub proof fn law_longer_and_larger(one: nat, other: nat, first: u32, second: u32)
    ensures
        longer(one, other) >= one && longer(one, other) >= other,
        longer(one, other) == one || longer(one, other) == other,
        larger(first, second) >= first && larger(first, second) >= second,
        larger(first, second) == first || larger(first, second) == second,
{
}

/// A hit in the window is never forgotten: whatever the order in which the
/// hits were recorded, what is kept holds every hit of any window that is no
/// longer than the longest.
pub proof fn law_no_recent_hit_is_forgotten(
    hits: Seq<u128>,
    window: nat,
    longest: nat,
    largest: u32,
    now: u128,
)
    requires
        window <= longest,
    ensures
        recent(kept(hits, longest, largest, now), window, now) == recent(hits, window, now),
{
    law_dropping_early_is_harmless(hits, window, longest, largest, now, now);
}

/// The latest hits decide: of hits recorded in order, the last `limit` tell
/// under any window whatever whether fewer than `limit` lie in it.
pub proof fn law_latest_hits_decide(
    hits: Seq<u128>,
    from: int,
    limit: u32,
    window: nat,
    now: u128,
)
    requires
        in_order(hits),
        0 <= from <= hits.len(),
        hits.len() - from >= limit,
    ensures
        admitted(hits.skip(from), limit, window, now) <==> admitted(hits, limit, window, now),
{
    if from < hits.len() {
        if stale(hits[from], window, now) {
            lemma_recent_of_end(hits, from, window, now);
        } else {
            lemma_recent_of_split(hits.skip(from), 0, window, now);
            lemma_recent_of_part(hits, from, window, now);
        }
    }
}

/// The log is exact: of hits recorded in order, exactly those in the longest
/// window are kept, or the `largest` latest where these are more. Each frees its
/// slot on its own, when it has aged past the window.
pub proof fn law_window_is_exact(hits: Seq<u128>, longest: nat, largest: u32, now: u128)
    requires
        in_order(hits),
    ensures
        kept(hits, longest, largest, now).len() == longer(
            recent(hits, longest, now),
            if hits.len() < largest {
                hits.len()
            } else {
                largest as nat
            },
        ),
        kept(hits, longest, largest, now).len() > largest ==> forall|i: int|
            0 <= i < kept(hits, longest, largest, now).len() ==> !stale(
                #[trigger] kept(hits, longest, largest, now)[i],
                longest,
                now,
            ),
    decreases hits.len(),
{
    lemma_recent_at_most_len(hits, longest, now);
    if hits.len() > largest {
        if stale(hits[0], longest, now) {
            law_window_is_exact(hits.drop_first(), longest, largest, now);
            lemma_recent_drops_stale_front(hits, longest, now);
        } else {
            lemma_recent_of_split(hits, 0, longest, now);
        }
    }
}

/// An attempt keeps the log in order, and holds no hit from the future.
pub proof fn law_log_stays_in_order(
    hits: Seq<u128>,
    limit: u32,
    window: nat,
    longest: nat,
    largest: u32,
    now: u128,
)
    requires
        in_order(hits),
        hits.len() > 0 ==> hits.last() <= now,
    ensures
        in_order(logged(hits, limit, window, longest, largest, now)),
        logged(hits, limit, window, longest, largest, now).len() > 0 ==> logged(
            hits,
            limit,
            window,
            longest,
            largest,
            now,
        ).last() <= now,
{
    lemma_kept_is_a_suffix(recorded(hits, limit, window, now), longest, largest, now);
}

/// Rollover: once every recorded hit has aged past the window, an attempt is
/// admitted under any limit but zero.
pub proof fn law_aged_log_admits(hits: Seq<u128>, limit: u32, window: nat, now: u128)
    requires
        forall|i: int| 0 <= i < hits.len() ==> stale(#[trigger] hits[i], window, now),
    ensures
        recent(hits, window, now) == 0,
        admitted(hits, limit, window, now) <==> limit > 0,
{
    lemma_recent_of_split(hits, hits.len() as int, window, now);
}

/// Dropping aged hits early changes nothing later: what was kept at `early`
/// tells as much of any window that is no longer than the longest.
pub proof fn law_dropping_early_is_harmless(
    hits: Seq<u128>,
    window: nat,
    longest: nat,
    largest: u32,
    early: u128,
    now: u128,
)
    requires
        early <= now,
        window <= longest,
    ensures
        recent(kept(hits, longest, largest, early), window, now) == recent(hits, window, now),
    decreases hits.len(),
{
    if hits.len() > largest && stale(hits[0], longest, early) {
        law_dropping_early_is_harmless(hits.drop_first(), window, longest, largest, early, now);
        lemma_recent_drops_stale_front(hits, window, now);
    }
}

} // verus!
