//! What a rate limiter promises over a whole history of attempts and purges.

use crate::rate_limiter::LimiterState;
use vstd::prelude::*;

verus! {

/// Something that happens to a limiter.
pub enum Event {
    /// An attempt on `key` under `limit` per `window` nanoseconds.
    Attempt { key: Seq<char>, limit: u32, window: nat, at: u128 },
    /// A purge of the inactive keys, by the background task or by hand.
    Purge { at: u128 },
}

impl Event {
    /// When it happens.
    pub open spec fn at(self) -> u128 {
        match self {
            Event::Attempt { at, .. } => at,
            Event::Purge { at } => at,
        }
    }

    /// Whether it is an attempt on `key`.
    pub open spec fn attempts(self, key: Seq<char>) -> bool {
        self is Attempt && self->key == key
    }
}

/// The limiter after one event.
pub open spec fn step(state: LimiterState, event: Event) -> LimiterState {
    match event {
        Event::Attempt { key, limit, window, at } => crate::rate_limiter::attempted(
            state,
            key,
            limit,
            window,
            at,
        ),
        Event::Purge { at } => state.purged(at),
    }
}

/// A new limiter after the `history`.
pub open spec fn state_after(history: Seq<Event>) -> LimiterState
    decreases history.len(),
{
    if history.len() == 0 {
        LimiterState::empty()
    } else {
        step(state_after(history.drop_last()), history.last())
    }
}

/// The moments at which the `history` admitted an attempt on `key`.
pub open spec fn admissions(history: Seq<Event>, key: Seq<char>) -> Seq<u128>
    decreases history.len(),
{
    if history.len() == 0 {
        Seq::empty()
    } else {
        let before = admissions(history.drop_last(), key);
        match history.last() {
            Event::Attempt { key: tried, limit, window, at } => if tried == key
                && crate::rate_limiter::allows(
                state_after(history.drop_last()),
                key,
                limit,
                window,
                at,
            ) {
                before.push(at)
            } else {
                before
            },
            Event::Purge { .. } => before,
        }
    }
}

/// Whether the events come in the order of time and end by `now`.
pub open spec fn in_time(history: Seq<Event>, now: u128) -> bool {
    &&& forall|i: int, j: int|
        0 <= i <= j < history.len() ==> (#[trigger] history[i]).at() <= (
        #[trigger] history[j]).at()
    &&& forall|i: int| 0 <= i < history.len() ==> (#[trigger] history[i]).at() <= now
}

/// A limiter that is used by its own clock has a history in order of time:
/// each attempt or purge comes at the moment that the clock has then reached,
/// no earlier than the moment that it had reached before.
pub proof fn law_clock_keeps_history_in_time(history: Seq<Event>, reached: u128, next: Event)
    requires
        in_time(history, reached),
        reached <= next.at(),
    ensures
        in_time(history.push(next), next.at()),
{
    let longer = history.push(next);
    assert forall|i: int, j: int| 0 <= i <= j < longer.len() implies (#[trigger] longer[i]).at()
        <= (#[trigger] longer[j]).at() by {
        if j < history.len() {
            assert(longer[i] == history[i] && longer[j] == history[j]);
        } else if i < history.len() {
            assert(longer[i] == history[i]);
        }
    }
    assert forall|i: int| 0 <= i < longer.len() implies (#[trigger] longer[i]).at()
        <= next.at() by {
        assert(longer[i].at() <= longer[longer.len() - 1].at());
    }
}

/// Whether every attempt on `key` is made under a limit of at most `limit`.
pub open spec fn limits_at_most(history: Seq<Event>, key: Seq<char>, limit: u32) -> bool {
    forall|i: int|
        0 <= i < history.len() && (#[trigger] history[i]).attempts(key) ==> history[i]->limit
            <= limit
}

/// Whether whatever hits of `key` the event discards can be done without, in
/// deciding on `limit` per `window`: an attempt on the key keeps its hits for
/// the longest window asked for by then, and as many as the largest limit; a
/// purge of the key keeps them for the longest window. Where no hit is recorded
/// there is none to discard.
pub open spec fn keeps(
    state: LimiterState,
    event: Event,
    key: Seq<char>,
    limit: u32,
    window: nat,
) -> bool {
    let longest = crate::rate_limiter::longest_of(state, key);
    let largest = crate::rate_limiter::largest_of(state, key);
    crate::rate_limiter::log_of(state, key).len() > 0 ==> match event {
        Event::Attempt { key: tried, limit: most, window: asked, .. } => tried == key ==> window
            <= crate::window::longer(longest, asked) || limit <= crate::window::larger(
            largest,
            most,
        ),
        Event::Purge { at } => !state.purged(at).rows.contains_key(key) ==> window <= longest,
    }
}

/// Whether the hits of `key` were kept as deciding on `limit` per `window`
/// needs them, all through the `history`.
pub open spec fn kept_for(history: Seq<Event>, key: Seq<char>, limit: u32, window: nat) -> bool
    decreases history.len(),
{
    history.len() > 0 ==> kept_for(history.drop_last(), key, limit, window) && keeps(
        state_after(history.drop_last()),
        history.last(),
        key,
        limit,
        window,
    )
}

/// Whether each attempt that found `key` untracked, because it was new or had
/// been purged, was made under a window of at least `window`.
pub open spec fn opened_under(history: Seq<Event>, key: Seq<char>, window: nat) -> bool
    decreases history.len(),
{
    history.len() > 0 ==> opened_under(history.drop_last(), key, window) && (
    history.last().attempts(key) && !state_after(history.drop_last()).rows.contains_key(key)
        ==> window <= history.last()->window)
}

/// A tracked key has been asked for no shorter a window than it was opened
/// under.
proof fn lemma_longest_since_opening(history: Seq<Event>, key: Seq<char>, window: nat)
    requires
        opened_under(history, key, window),
    ensures
        state_after(history).rows.contains_key(key) ==> window
            <= crate::rate_limiter::longest_of(state_after(history), key),
    decreases history.len(),
{
    if history.len() > 0 {
        lemma_longest_since_opening(history.drop_last(), key, window);
    }
}

/// Later windows may be shorter: where each attempt that found the key
/// untracked was made under `window` at least, its hits were kept for `window`,
/// whatever was asked for after that.
pub proof fn law_opening_window_is_kept(
    history: Seq<Event>,
    key: Seq<char>,
    limit: u32,
    window: nat,
)
    requires
        opened_under(history, key, window),
    ensures
        kept_for(history, key, limit, window),
    decreases history.len(),
{
    if history.len() > 0 {
        law_opening_window_is_kept(history.drop_last(), key, limit, window);
        lemma_longest_since_opening(history.drop_last(), key, window);
    }
}

/// Whether the first attempt on `key` was made under a limit of at least
/// `limit`, and no purge has taken the key away.
pub open spec fn tracked_with(history: Seq<Event>, key: Seq<char>, limit: u32) -> bool
    decreases history.len(),
{
    history.len() > 0 ==> tracked_with(history.drop_last(), key, limit) && match history.last() {
        Event::Attempt { key: tried, limit: most, .. } => tried == key && !state_after(
            history.drop_last(),
        ).rows.contains_key(key) ==> limit <= most,
        Event::Purge { .. } => state_after(history.drop_last()).rows.contains_key(key)
            ==> state_after(history).rows.contains_key(key),
    }
}

/// A tracked key has been asked for no smaller a limit than it was first.
proof fn lemma_largest_since_tracked(history: Seq<Event>, key: Seq<char>, limit: u32)
    requires
        tracked_with(history, key, limit),
    ensures
        state_after(history).rows.contains_key(key) ==> limit
            <= crate::rate_limiter::largest_of(state_after(history), key),
    decreases history.len(),
{
    if history.len() > 0 {
        lemma_largest_since_tracked(history.drop_last(), key, limit);
    }
}

/// Any window may follow: while a key is tracked that was first tried under
/// `limit` at least, its hits are kept as any window under that limit needs
/// them, also one longer than any before it.
pub proof fn law_opening_limit_is_kept(
    history: Seq<Event>,
    key: Seq<char>,
    limit: u32,
    window: nat,
)
    requires
        tracked_with(history, key, limit),
    ensures
        kept_for(history, key, limit, window),
    decreases history.len(),
{
    if history.len() > 0 {
        law_opening_limit_is_kept(history.drop_last(), key, limit, window);
        lemma_largest_since_tracked(history.drop_last(), key, limit);
    }
}

/// The beginning of a history in order of time is in order of time.
proof fn lemma_earlier_history(history: Seq<Event>, now: u128)
    requires
        history.len() > 0,
        in_time(history, now),
    ensures
        in_time(history.drop_last(), history.last().at()),
        history.last().at() <= now,
{
    let earlier = history.drop_last();
    assert(history.last() == history[history.len() - 1]);
    assert forall|i: int, j: int| 0 <= i <= j < earlier.len() implies (
    #[trigger] earlier[i]).at() <= (#[trigger] earlier[j]).at() by {
        assert(earlier[i] == history[i] && earlier[j] == history[j]);
    }
    assert forall|i: int| 0 <= i < earlier.len() implies (#[trigger] earlier[i]).at()
        <= history.last().at() by {
        assert(earlier[i] == history[i]);
    }
}

/// Limits that hold of a history hold of its beginning.
proof fn lemma_earlier_limits(history: Seq<Event>, key: Seq<char>, limit: u32)
    requires
        history.len() > 0,
        limits_at_most(history, key, limit),
    ensures
        limits_at_most(history.drop_last(), key, limit),
        history.last().attempts(key) ==> history.last()->limit <= limit,
{
    let earlier = history.drop_last();
    assert(history.last() == history[history.len() - 1]);
    assert forall|i: int| 0 <= i < earlier.len() && (#[trigger] earlier[i]).attempts(
        key,
    ) implies earlier[i]->limit <= limit by {
        assert(earlier[i] == history[i]);
    }
}

/// Admissions come in order of time.
proof fn lemma_admissions_in_order(history: Seq<Event>, key: Seq<char>, now: u128)
    requires
        in_time(history, now),
    ensures
        crate::window::in_order(admissions(history, key)),
        forall|i: int|
            0 <= i < admissions(history, key).len() ==> #[trigger] admissions(history, key)[i]
                <= now,
    decreases history.len(),
{
    if history.len() > 0 {
        lemma_earlier_history(history, now);
        lemma_admissions_in_order(history.drop_last(), key, history.last().at());
    }
}

/// What a limiter knows of a key is the latest of its admissions: the log is
/// the end of them, after any history whatever.
pub proof fn law_log_is_the_latest_admissions(history: Seq<Event>, key: Seq<char>)
    ensures
        crate::rate_limiter::log_of(state_after(history), key).len() <= admissions(
            history,
            key,
        ).len(),
        crate::rate_limiter::log_of(state_after(history), key) == admissions(history, key).skip(
            admissions(history, key).len() - crate::rate_limiter::log_of(
                state_after(history),
                key,
            ).len(),
        ),
    decreases history.len(),
{
    let admitted = admissions(history, key);
    let log = crate::rate_limiter::log_of(state_after(history), key);
    if history.len() == 0 {
        assert(log =~= admitted.skip(0));
    } else {
        let earlier = history.drop_last();
        let before = state_after(earlier);
        let known = admissions(earlier, key);
        law_log_is_the_latest_admissions(earlier, key);
        match history.last() {
            Event::Attempt { key: tried, limit, window, at } => {
                let old_log = crate::rate_limiter::log_of(before, key);
                if tried == key {
                    let longest = crate::window::longer(
                        crate::rate_limiter::longest_of(before, key),
                        window,
                    );
                    let largest = crate::window::larger(
                        crate::rate_limiter::largest_of(before, key),
                        limit,
                    );
                    let all = crate::window::recorded(old_log, limit, window, at);
                    crate::window::lemma_kept_is_a_suffix(all, longest, largest, at);
                    assert(all =~= admitted.skip(admitted.len() - all.len()));
                    assert(log =~= admitted.skip(admitted.len() - log.len()));
                } else {
                    assert(log == old_log);
                }
            },
            Event::Purge { .. } => {
                if !state_after(history).rows.contains_key(key) {
                    assert(log =~= admitted.skip(admitted.len() as int));
                }
            },
        }
    }
}

/// The admissions on `key` that the limiter no longer knows of: all but the
/// latest, which are in the log.
pub open spec fn forgotten(history: Seq<Event>, key: Seq<char>) -> Seq<u128> {
    admissions(history, key).take(
        admissions(history, key).len() - crate::rate_limiter::log_of(
            state_after(history),
            key,
        ).len(),
    )
}

/// The decision is exact as far as the limiter remembers: where no forgotten
/// admission lies in the trailing window, an attempt is allowed if and only if
/// fewer than `limit` attempts on the key were admitted in it, after any history
/// whatever.
pub proof fn law_decision_is_exact_in_memory(
    history: Seq<Event>,
    key: Seq<char>,
    limit: u32,
    window: nat,
    now: u128,
)
    requires
        forall|i: int|
            0 <= i < forgotten(history, key).len() ==> crate::window::stale(
                #[trigger] forgotten(history, key)[i],
                window,
                now,
            ),
    ensures
        crate::rate_limiter::allows(state_after(history), key, limit, window, now)
            <==> crate::window::recent(admissions(history, key), window, now) < limit,
{
    let admitted = admissions(history, key);
    let aged = admitted.len() - crate::rate_limiter::log_of(state_after(history), key).len();
    law_log_is_the_latest_admissions(history, key);
    assert forall|i: int| 0 <= i < aged implies crate::window::stale(
        #[trigger] admitted[i],
        window,
        now,
    ) by {
        assert(forgotten(history, key)[i] == admitted[i]);
    }
    crate::window::lemma_recent_of_end(admitted, aged, window, now);
}

/// Whether the first `count` of the admissions are stale by `now`.
spec fn aged(admitted: Seq<u128>, count: int, window: nat, now: u128) -> bool {
    forall|i: int| 0 <= i < count ==> crate::window::stale(#[trigger] admitted[i], window, now)
}

/// Whether what is forgotten of the admissions on `key` is stale by `now`, or
/// the log holds the `limit` latest for good; and whether what is known lasts
/// until the row expires.
spec fn remembers(
    state: LimiterState,
    key: Seq<char>,
    limit: u32,
    window: nat,
    admitted: Seq<u128>,
    now: u128,
) -> bool {
    let log = crate::rate_limiter::log_of(state, key);
    let expiry = crate::rate_limiter::expiry_of(state, key);
    &&& aged(admitted, admitted.len() - log.len(), window, now) || (limit <= log.len() && limit
        <= crate::rate_limiter::largest_of(state, key))
    &&& forall|i: int|
        0 <= i < log.len() ==> (expiry matches Some(end) ==> #[trigger] log[i]
            + crate::rate_limiter::longest_of(state, key) <= end)
}

/// An attempt on the key leaves the limiter remembering.
proof fn lemma_attempt_is_remembered(
    before: LimiterState,
    key: Seq<char>,
    limit: u32,
    window: nat,
    known: Seq<u128>,
    most: u32,
    asked: nat,
    at: u128,
)
    requires
        remembers(before, key, limit, window, known, at),
        forall|i: int| 0 <= i < known.len() ==> #[trigger] known[i] <= at,
        crate::rate_limiter::log_of(before, key).len() <= known.len(),
        crate::rate_limiter::log_of(before, key) == known.skip(
            known.len() - crate::rate_limiter::log_of(before, key).len(),
        ),
        keeps(
            before,
            Event::Attempt { key, limit: most, window: asked, at },
            key,
            limit,
            window,
        ),
    ensures
        remembers(
            crate::rate_limiter::attempted(before, key, most, asked, at),
            key,
            limit,
            window,
            if crate::rate_limiter::allows(before, key, most, asked, at) {
                known.push(at)
            } else {
                known
            },
            at,
        ),
{
    let old_log = crate::rate_limiter::log_of(before, key);
    let longest = crate::window::longer(crate::rate_limiter::longest_of(before, key), asked);
    let largest = crate::window::larger(crate::rate_limiter::largest_of(before, key), most);
    let all = crate::window::recorded(old_log, most, asked, at);
    let log = crate::window::kept(all, longest, largest, at);
    let state = crate::rate_limiter::attempted(before, key, most, asked, at);
    let admitted = if crate::rate_limiter::allows(before, key, most, asked, at) {
        known.push(at)
    } else {
        known
    };
    let gone = known.len() - old_log.len();
    assert(crate::rate_limiter::log_of(state, key) == log);
    crate::window::lemma_kept_is_a_suffix(all, longest, largest, at);
    assert(all =~= admitted.skip(gone));
    if !(limit <= log.len() && limit <= largest) {
        assert(aged(known, gone, window, at));
        assert forall|i: int| 0 <= i < admitted.len() - log.len() implies crate::window::stale(
            #[trigger] admitted[i],
            window,
            at,
        ) by {
            if i < gone {
                assert(admitted[i] == known[i]);
            } else {
                assert(all[i - gone] == admitted[i]);
            }
        }
        assert(aged(admitted, admitted.len() - log.len(), window, at));
    }
    assert forall|i: int| 0 <= i < log.len() implies #[trigger] log[i] <= at by {
        let j = all.len() - log.len() + i;
        assert(log[i] == all[j]);
        assert(all[j] == admitted[gone + j]);
    }
}

/// After any history in order of time in which the hits of the key were kept
/// for `limit` per `window`, the limiter remembers.
proof fn lemma_history_is_remembered(
    history: Seq<Event>,
    key: Seq<char>,
    limit: u32,
    window: nat,
    now: u128,
)
    requires
        in_time(history, now),
        kept_for(history, key, limit, window),
    ensures
        remembers(state_after(history), key, limit, window, admissions(history, key), now),
    decreases history.len(),
{
    if history.len() > 0 {
        let earlier = history.drop_last();
        let event = history.last();
        let before = state_after(earlier);
        let state = state_after(history);
        let known = admissions(earlier, key);
        let admitted = admissions(history, key);
        let old_log = crate::rate_limiter::log_of(before, key);
        let log = crate::rate_limiter::log_of(state, key);
        let at = event.at();
        lemma_earlier_history(history, now);
        lemma_history_is_remembered(earlier, key, limit, window, at);
        lemma_admissions_in_order(earlier, key, at);
        law_log_is_the_latest_admissions(earlier, key);
        let gone = known.len() - old_log.len();
        match event {
            Event::Attempt { key: tried, limit: most, window: asked, .. } => {
                if tried == key {
                    lemma_attempt_is_remembered(
                        before,
                        key,
                        limit,
                        window,
                        known,
                        most,
                        asked,
                        at,
                    );
                } else {
                    assert(log == old_log);
                }
            },
            Event::Purge { .. } => {
                if state.rows.contains_key(key) {
                    assert(state.rows[key] == before.rows[key]);
                } else if old_log.len() > 0 {
                    assert forall|i: int| 0 <= i < known.len() implies crate::window::stale(
                        #[trigger] known[i],
                        window,
                        at,
                    ) by {
                        assert(old_log[0] == known[gone]);
                        if i >= gone {
                            assert(old_log[i - gone] == known[i]);
                        }
                    }
                }
            },
        }
        if aged(admitted, admitted.len() - log.len(), window, at) {
            assert(aged(admitted, admitted.len() - log.len(), window, now));
        }
    }
}

/// The decision is exact over any history in which the hits of the key were
/// kept as it needs them: an attempt is allowed if and only if fewer than
/// `limit` attempts on that key were admitted in the trailing window, whatever
/// the limits and the windows of the others, whatever was purged and whatever
/// happened to other keys in between.
pub proof fn law_decision_is_exact(
    history: Seq<Event>,
    key: Seq<char>,
    limit: u32,
    window: nat,
    now: u128,
)
    requires
        in_time(history, now),
        kept_for(history, key, limit, window),
    ensures
        crate::rate_limiter::allows(state_after(history), key, limit, window, now)
            <==> crate::window::recent(admissions(history, key), window, now) < limit,
{
    let admitted = admissions(history, key);
    let log = crate::rate_limiter::log_of(state_after(history), key);
    let gone = admitted.len() - log.len();
    lemma_history_is_remembered(history, key, limit, window, now);
    law_log_is_the_latest_admissions(history, key);
    if aged(admitted, gone, window, now) {
        law_decision_is_exact_in_memory(history, key, limit, window, now);
    } else {
        lemma_admissions_in_order(history, key, now);
        crate::window::law_latest_hits_decide(admitted, gone, limit, window, now);
    }
}

/// No attempt is denied for nothing: after any history whatever, under any
/// window and limit, also larger than any before, an attempt is allowed if fewer
/// than `limit` attempts on the key were admitted in the trailing window.
pub proof fn law_no_attempt_is_denied_for_nothing(
    history: Seq<Event>,
    key: Seq<char>,
    limit: u32,
    window: nat,
    now: u128,
)
    requires
        crate::window::recent(admissions(history, key), window, now) < limit,
    ensures
        crate::rate_limiter::allows(state_after(history), key, limit, window, now),
{
    let admitted = admissions(history, key);
    let log = crate::rate_limiter::log_of(state_after(history), key);
    law_log_is_the_latest_admissions(history, key);
    crate::window::lemma_recent_of_part(admitted, admitted.len() - log.len(), window, now);
}

/// How many of `moments` lie in the `window` that ends with `end`.
pub open spec fn within(moments: Seq<u128>, window: nat, end: u128) -> nat
    decreases moments.len(),
{
    if moments.len() == 0 {
        0
    } else if moments.last() <= end && end < moments.last() + window {
        within(moments.drop_last(), window, end) + 1
    } else {
        within(moments.drop_last(), window, end)
    }
}

/// A window that ends at or after `now` holds no more of the moments than the
/// one that trails `now`.
proof fn lemma_within_at_most_recent(moments: Seq<u128>, window: nat, now: u128, end: u128)
    requires
        now <= end,
    ensures
        within(moments, window, end) <= crate::window::recent(moments, window, now),
    decreases moments.len(),
{
    if moments.len() > 0 {
        lemma_within_at_most_recent(moments.drop_last(), window, now, end);
    }
}

/// A longer window holds no fewer of the moments.
proof fn lemma_recent_grows_with_window(moments: Seq<u128>, window: nat, longer: nat, now: u128)
    requires
        window <= longer,
    ensures
        crate::window::recent(moments, window, now) <= crate::window::recent(
            moments,
            longer,
            now,
        ),
    decreases moments.len(),
{
    if moments.len() > 0 {
        lemma_recent_grows_with_window(moments.drop_last(), window, longer, now);
    }
}

/// Whether the attempts on `key` that lie in the `window` that ends with `end`
/// are made under at most `limit` per `window`: under no larger a limit and no
/// shorter a window.
pub open spec fn policed(
    history: Seq<Event>,
    key: Seq<char>,
    limit: u32,
    window: nat,
    end: u128,
) -> bool {
    forall|i: int|
        0 <= i < history.len() && (#[trigger] history[i]).attempts(key) && history[i].at() <= end
            && end < history[i].at() + window ==> history[i]->window >= window
            && history[i]->limit <= limit
}

/// The limit is never exceeded: a window, wherever it ends, whose attempts on
/// the key are all made under at most `limit` per that window holds no more
/// than `limit` admitted ones, whatever the limits and windows outside of it. A
/// fixed window that starts over could let twice as many through at its
/// boundary.
pub proof fn law_limit_is_never_exceeded(
    history: Seq<Event>,
    key: Seq<char>,
    limit: u32,
    window: nat,
    now: u128,
    end: u128,
)
    requires
        in_time(history, now),
        kept_for(history, key, limit, window),
        policed(history, key, limit, window, end),
    ensures
        within(admissions(history, key), window, end) <= limit,
    decreases history.len(),
{
    if history.len() > 0 {
        let earlier = history.drop_last();
        let event = history.last();
        let at = event.at();
        lemma_earlier_history(history, now);
        assert forall|i: int|
            0 <= i < earlier.len() && (#[trigger] earlier[i]).attempts(key) && earlier[i].at()
                <= end && end < earlier[i].at() + window implies earlier[i]->window >= window
            && earlier[i]->limit <= limit by {
            assert(earlier[i] == history[i]);
        }
        law_limit_is_never_exceeded(earlier, key, limit, window, at, end);
        let known = admissions(earlier, key);
        let admitted = admissions(history, key);
        if admitted != known && at <= end && end < at + window {
            assert(history[history.len() - 1].attempts(key));
            assert(admitted == known.push(at));
            assert(admitted.drop_last() =~= known);
            let log = crate::rate_limiter::log_of(state_after(earlier), key);
            law_decision_is_exact(earlier, key, limit, window, at);
            lemma_recent_grows_with_window(log, window, event->window, at);
            lemma_within_at_most_recent(known, window, at, end);
        } else if admitted != known {
            assert(admitted.drop_last() =~= known);
        }
    }
}

/// Whether no window asked for on `key` is shorter than one before it, since
/// the key was last purged.
pub open spec fn windows_never_shrink(history: Seq<Event>, key: Seq<char>) -> bool
    decreases history.len(),
{
    history.len() > 0 ==> windows_never_shrink(history.drop_last(), key) && (
    history.last().attempts(key) ==> crate::rate_limiter::longest_of(
        state_after(history.drop_last()),
        key,
    ) <= history.last()->window)
}

/// The memory of a key is bounded: where no attempt on it is made under more
/// than `limit`, nor under a shorter window than before, its log never holds
/// more than `limit` moments. Under shorter windows in between, it holds what
/// they admit in the longest one.
pub proof fn law_memory_is_bounded(
    history: Seq<Event>,
    key: Seq<char>,
    limit: u32,
    now: u128,
)
    requires
        in_time(history, now),
        limits_at_most(history, key, limit),
        windows_never_shrink(history, key),
    ensures
        crate::rate_limiter::log_of(state_after(history), key).len() <= limit,
        crate::rate_limiter::largest_of(state_after(history), key) <= limit,
    decreases history.len(),
{
    if history.len() > 0 {
        let earlier = history.drop_last();
        let before = state_after(earlier);
        lemma_earlier_history(history, now);
        lemma_earlier_limits(history, key, limit);
        law_memory_is_bounded(earlier, key, limit, history.last().at());
        if let Event::Attempt { key: tried, limit: most, window, at } = history.last() {
            if tried == key {
                let log = crate::rate_limiter::log_of(before, key);
                let all = crate::window::recorded(log, most, window, at);
                let largest = crate::window::larger(
                    crate::rate_limiter::largest_of(before, key),
                    most,
                );
                law_log_is_the_latest_admissions(earlier, key);
                lemma_admissions_in_order(earlier, key, at);
                assert(log.push(at).drop_last() =~= log);
                crate::window::lemma_recent_at_most_len(log, window, at);
                crate::window::law_window_is_exact(all, window, largest, at);
            }
        }
    }
}

/// A log holds no more than decisions need: after an attempt at `now`, its hits
/// are no more than the largest limit asked for on the key, or all lie in the
/// longest window.
pub proof fn law_log_holds_no_more_than_needed(
    history: Seq<Event>,
    key: Seq<char>,
    limit: u32,
    window: nat,
    now: u128,
)
    requires
        in_time(history, now),
    ensures
        ({
            let state = crate::rate_limiter::attempted(
                state_after(history),
                key,
                limit,
                window,
                now,
            );
            let log = crate::rate_limiter::log_of(state, key);
            log.len() > crate::rate_limiter::largest_of(state, key) ==> forall|i: int|
                0 <= i < log.len() ==> !crate::window::stale(
                    #[trigger] log[i],
                    crate::rate_limiter::longest_of(state, key),
                    now,
                )
        }),
{
    let before = state_after(history);
    let longest = crate::window::longer(crate::rate_limiter::longest_of(before, key), window);
    let largest = crate::window::larger(crate::rate_limiter::largest_of(before, key), limit);
    let log = crate::rate_limiter::log_of(before, key);
    law_log_is_the_latest_admissions(history, key);
    lemma_admissions_in_order(history, key, now);
    crate::window::law_window_is_exact(
        crate::window::recorded(log, limit, window, now),
        longest,
        largest,
        now,
    );
}

/// Keys are independent: an attempt on one key changes neither the log of
/// another nor any decision on it.
pub proof fn law_keys_are_independent(
    state: LimiterState,
    key: Seq<char>,
    limit: u32,
    window: nat,
    now: u128,
    other: Seq<char>,
    other_limit: u32,
    other_window: nat,
    later: u128,
)
    requires
        key != other,
    ensures
        crate::rate_limiter::log_of(
            crate::rate_limiter::attempted(state, key, limit, window, now),
            other,
        ) == crate::rate_limiter::log_of(state, other),
        crate::rate_limiter::allows(
            crate::rate_limiter::attempted(state, key, limit, window, now),
            other,
            other_limit,
            other_window,
            later,
        ) == crate::rate_limiter::allows(state, other, other_limit, other_window, later),
{
}

/// A denied attempt is not counted: every later decision on the key, under no
/// longer a window than the longest asked for, or under no larger a limit than
/// the largest on a log in order, is what it would have been without the
/// attempt.
pub proof fn law_denied_attempt_is_not_counted(
    state: LimiterState,
    key: Seq<char>,
    limit: u32,
    window: nat,
    now: u128,
    later_limit: u32,
    later_window: nat,
    later: u128,
)
    requires
        !crate::rate_limiter::allows(state, key, limit, window, now),
        now <= later,
        later_window <= crate::window::longer(
            crate::rate_limiter::longest_of(state, key),
            window,
        ) || (crate::window::in_order(crate::rate_limiter::log_of(state, key)) && later_limit
            <= crate::window::larger(crate::rate_limiter::largest_of(state, key), limit)),
    ensures
        crate::rate_limiter::allows(
            crate::rate_limiter::attempted(state, key, limit, window, now),
            key,
            later_limit,
            later_window,
            later,
        ) == crate::rate_limiter::allows(state, key, later_limit, later_window, later),
{
    let log = crate::rate_limiter::log_of(state, key);
    let longest = crate::window::longer(crate::rate_limiter::longest_of(state, key), window);
    let largest = crate::window::larger(crate::rate_limiter::largest_of(state, key), limit);
    let left = crate::window::kept(log, longest, largest, now);
    if later_window <= longest {
        crate::window::law_dropping_early_is_harmless(
            log,
            later_window,
            longest,
            largest,
            now,
            later,
        );
    } else {
        crate::window::lemma_kept_is_a_suffix(log, longest, largest, now);
        assert(log.skip(0) =~= log);
        if left.len() < log.len() {
            crate::window::law_latest_hits_decide(
                log,
                log.len() - left.len(),
                later_limit,
                later_window,
                later,
            );
        }
    }
}

/// A key that goes without an attempt for its full longest window is inactive:
/// a purge takes it away then, and not before. No attempt brings that moment
/// forward, and a key that was not tracked is inactive one window later.
pub proof fn law_idle_key_is_purged(
    state: LimiterState,
    key: Seq<char>,
    limit: u32,
    window: nat,
    now: u128,
    later: u128,
)
    ensures
        crate::rate_limiter::attempted(state, key, limit, window, now).purged(
            later,
        ).rows.contains_key(key) <==> later < now + crate::window::longer(
            crate::rate_limiter::longest_of(state, key),
            window,
        ) || crate::store::live(crate::rate_limiter::expiry_of(state, key), later),
        !state.rows.contains_key(key) ==> (crate::rate_limiter::attempted(
            state,
            key,
            limit,
            window,
            now,
        ).purged(later).rows.contains_key(key) <==> later < now + window),
{
}

/// How many attempts of the `history` were allowed, over all keys.
pub open spec fn allowed_in(history: Seq<Event>) -> nat
    decreases history.len(),
{
    if history.len() == 0 {
        0
    } else {
        let before = allowed_in(history.drop_last());
        match history.last() {
            Event::Attempt { key, limit, window, at } => if crate::rate_limiter::allows(
                state_after(history.drop_last()),
                key,
                limit,
                window,
                at,
            ) {
                before + 1
            } else {
                before
            },
            Event::Purge { .. } => before,
        }
    }
}

/// How many attempts the `history` holds, over all keys.
pub open spec fn attempts_in(history: Seq<Event>) -> nat
    decreases history.len(),
{
    if history.len() == 0 {
        0
    } else if history.last() is Attempt {
        attempts_in(history.drop_last()) + 1
    } else {
        attempts_in(history.drop_last())
    }
}

/// How many rows the purges of the `history` took away.
pub open spec fn purged_in(history: Seq<Event>) -> nat
    decreases history.len(),
{
    if history.len() == 0 {
        0
    } else {
        let before = purged_in(history.drop_last());
        match history.last() {
            Event::Purge { at } => before + state_after(history.drop_last()).expired_keys(
                at,
            ).len(),
            Event::Attempt { .. } => before,
        }
    }
}

/// The counters tell the history: one hit for each allowed attempt, one miss
/// for each denied one, one write for each attempt, and one for each row purged.
pub proof fn law_counters_tell_the_history(history: Seq<Event>)
    ensures
        allowed_in(history) <= attempts_in(history),
        state_after(history).counters.hits == crate::metrics::counted(0, allowed_in(history)),
        state_after(history).counters.misses == crate::metrics::counted(
            0,
            (attempts_in(history) - allowed_in(history)) as nat,
        ),
        state_after(history).counters.writes == crate::metrics::counted(0, attempts_in(history)),
        state_after(history).counters.purged == crate::metrics::counted(0, purged_in(history)),
    decreases history.len(),
{
    if history.len() > 0 {
        let earlier = history.drop_last();
        let denied = (attempts_in(earlier) - allowed_in(earlier)) as nat;
        law_counters_tell_the_history(earlier);
        crate::metrics::lemma_counted_adds_up(0, allowed_in(earlier), 1);
        crate::metrics::lemma_counted_adds_up(0, denied, 1);
        crate::metrics::lemma_counted_adds_up(0, attempts_in(earlier), 1);
        if let Event::Purge { at } = history.last() {
            crate::metrics::lemma_counted_adds_up(
                0,
                purged_in(earlier),
                state_after(earlier).expired_keys(at).len(),
            );
        }
    }
}

} // verus!
