//! Moments and spans of time.
//!
//! A moment is a number of nanoseconds since the origin of the [`Clock`] that
//! read it. The clock is Tokio's, which a paused runtime can hold still and
//! advance by hand.

use tokio::time::Instant;
use vstd::prelude::*;

verus! {

/// Nanoseconds in a second.
pub const NANOS_PER_SEC: u128 = 1_000_000_000;

/// Milliseconds in a second.
pub const MILLIS_PER_SEC: u64 = 1_000;

/// Nanoseconds in a millisecond.
pub const NANOS_PER_MILLI: u32 = 1_000_000;

/// A length of time, to the nanosecond.
#[derive(Debug, Clone, Copy, PartialEq, Eq, Structural)]
pub struct Span {
    /// Whole seconds.
    pub secs: u64,
    /// Nanoseconds beyond the whole seconds.
    pub subsec_nanos: u32,
}

impl Span {
    /// The length in nanoseconds.
    pub open spec fn nanos(self) -> nat {
        (self.secs * NANOS_PER_SEC + self.subsec_nanos) as nat
    }

    /// A span is its seconds and its nanoseconds.
    pub proof fn law_span_is_its_parts(self)
        ensures
            self.nanos() == self.secs * 1_000_000_000 + self.subsec_nanos,
    {
    }

    /// A span of `secs` seconds.
    pub fn from_secs(secs: u64) -> (span: Span)
        ensures
            span == (Span { secs, subsec_nanos: 0 }),
            span.nanos() == secs * 1_000_000_000,
    {
        Span { secs, subsec_nanos: 0 }
    }

    /// A span of `millis` milliseconds.
    pub fn from_millis(millis: u64) -> (span: Span)
        ensures
            span.nanos() == millis * 1_000_000,
            span.subsec_nanos < 1_000_000_000,
    {
        let rest: u64 = millis % MILLIS_PER_SEC;
        Span { secs: millis / MILLIS_PER_SEC, subsec_nanos: rest as u32 * NANOS_PER_MILLI }
    }

    /// The length in nanoseconds.
    pub fn as_nanos(self) -> (nanos: u128)
        ensures
            nanos == self.nanos(),
            nanos == self.secs * 1_000_000_000 + self.subsec_nanos,
    {
        self.secs as u128 * NANOS_PER_SEC + self.subsec_nanos as u128
    }
}

/// `tokio::time::Instant`, opaque: only differences of instants are read.
#[verifier::external_type_specification]
#[verifier::external_body]
pub struct ExInstant(Instant);

/// `tokio::time::Instant::now`: the current reading of Tokio's clock, of which
/// nothing is known.
#[verifier::external_body]
fn instant_now() -> (instant: Instant) {
    Instant::now()
}

/// `tokio::time::Instant::elapsed`, in nanoseconds: how long ago `origin` was.
/// It depends on the time of the call; it is never more than the longest
/// `std::time::Duration`, of `u64::MAX` seconds and 999 999 999 nanoseconds.
#[verifier::external_body]
fn nanos_elapsed(origin: &Instant) -> (nanos: u128)
    ensures
        nanos <= 0xFFFF_FFFF_FFFF_FFFF * 1_000_000_000 + 999_999_999,
{
    origin.elapsed().as_nanos()
}

/// Whether `instant` is what a call of [`instant_now`] gave.
pub closed spec fn instant_read(instant: Instant) -> bool {
    call_ensures(instant_now, (), instant)
}

/// Whether `read` is what a call of [`nanos_elapsed`] gave for `origin`.
pub closed spec fn elapsed_read(origin: Instant, read: u128) -> bool {
    call_ensures(nanos_elapsed, (&origin,), read)
}

/// A reading is one that Tokio's clock gave: nothing else counts as read.
proof fn law_readings_come_from_tokio(origin: Instant, read: u128)
    ensures
        instant_read(origin) <==> call_ensures(instant_now, (), origin),
        elapsed_read(origin, read) <==> call_ensures(nanos_elapsed, (&origin,), read),
{
}

/// A source of moments: nanoseconds since the clock was started. The moments
/// that a clock reads never go back, as Tokio documents of its instants; the
/// clock keeps the latest one, and holds to it.
pub struct Clock {
    origin: Instant,
    latest: u128,
}

/// The latest moment that a clock can read.
pub open spec fn last_moment() -> nat {
    (u64::MAX * 1_000_000_000 + 999_999_999) as nat
}

impl Clock {
    /// What is read is a moment that a clock can read.
    #[verifier::type_invariant]
    spec fn latest_can_be_read(self) -> bool {
        self.latest <= last_moment()
    }

    /// The moment that was read last, the origin if none was read yet.
    pub closed spec fn reached(&self) -> u128 {
        self.latest
    }

    /// The reading of Tokio's clock at which this one was started.
    pub closed spec fn started(&self) -> Instant {
        self.origin
    }

    /// Starts a clock: its origin is now.
    pub fn start() -> (clock: Clock)
        ensures
            clock.reached() == 0,
            instant_read(clock.started()),
    {
        Clock { origin: instant_now(), latest: 0 }
    }

    /// The moment of the call, read from Tokio's clock: never earlier than the
    /// one read before it.
    ///
    /// It is what Tokio's clock has run since the start, as read in this call,
    /// or the moment reached before if that is later.
    pub fn now(&mut self) -> (moment: u128)
        ensures
            moment == final(self).reached(),
            old(self).reached() <= moment <= last_moment(),
            exists|read: u128|
                {
                    &&& #[trigger] elapsed_read(old(self).started(), read)
                    &&& moment >= read
                    &&& moment == read || moment == old(self).reached()
                },
            final(self).started() == old(self).started(),
    {
        proof {
            use_type_invariant(&*self);
        }
        let read: u128 = nanos_elapsed(&self.origin);
        assert(elapsed_read(old(self).started(), read));
        if read > self.latest {
            self.latest = read;
        }
        self.latest
    }
}

/// The milliseconds of `since_epoch`, cut to 64 bits; zero where the clock
/// stands before the epoch.
pub open spec fn unix_ms(since_epoch: Option<Span>) -> u64 {
    match since_epoch {
        Some(span) => ((span.nanos() / 1_000_000) % 0x1_0000_0000_0000_0000) as u64,
        None => 0,
    }
}

/// A timestamp is the time to the millisecond: of a time past the epoch, the
/// whole milliseconds that have passed, as far as 64 bits tell them apart, and
/// zero of a time before it. Times in order have timestamps in order, and a
/// second more is a thousand more.
pub proof fn law_timestamp_is_the_time(span: Span, later: Span)
    ensures
        unix_ms(None) == 0,
        ({
            let nanos = span.secs * 1_000_000_000 + span.subsec_nanos;
            let ms = unix_ms(Some(span));
            &&& nanos < 0x1_0000_0000_0000_0000 * 1_000_000 ==> ms * 1_000_000 <= nanos < (ms + 1)
                * 1_000_000
            &&& (nanos / 1_000_000 - ms) % 0x1_0000_0000_0000_0000 == 0
        }),
        span.nanos() <= later.nanos() < 0x1_0000_0000_0000_0000 * 1_000_000 ==> unix_ms(Some(span))
            <= unix_ms(Some(later)),
        later.secs == span.secs + 1 && later.subsec_nanos == span.subsec_nanos && later.nanos()
            < 0x1_0000_0000_0000_0000 * 1_000_000 ==> unix_ms(Some(later)) == unix_ms(Some(span))
            + 1_000,
{
    let nanos = span.secs * 1_000_000_000 + span.subsec_nanos;
    let millis = nanos / 1_000_000;
    assert((millis - millis % 0x1_0000_0000_0000_0000) % 0x1_0000_0000_0000_0000 == 0)
        by (nonlinear_arith);
}

/// The milliseconds that lie `since_epoch`, as a timestamp of 64 bits; zero
/// where the clock stands before the epoch.
pub fn unix_ms_of(since_epoch: Option<Span>) -> (ms: u64)
    ensures
        ms == unix_ms(since_epoch),
{
    match since_epoch {
        Some(span) => {
            let millis: u128 = span.as_nanos() / 1_000_000;
            (millis % 0x1_0000_0000_0000_0000) as u64
        },
        None => 0,
    }
}

/// `SystemTime::elapsed` of the Unix epoch: how far the system clock stands
/// past it, `None` where it stands before. It depends on the time of the call;
/// the nanoseconds are always less than a second.
#[verifier::external_body]
pub(crate) fn system_time_since_epoch() -> (since_epoch: Option<Span>)
    ensures
        since_epoch is Some ==> since_epoch->0.subsec_nanos < 1_000_000_000,
{
    match std::time::SystemTime::UNIX_EPOCH.elapsed() {
        Ok(past) => Some(Span { secs: past.as_secs(), subsec_nanos: past.subsec_nanos() }),
        Err(_) => None,
    }
}

/// Whether `since_epoch` is what a call of `system_time_since_epoch` gave.
pub closed spec fn system_read(since_epoch: Option<Span>) -> bool {
    call_ensures(system_time_since_epoch, (), since_epoch)
}

/// A reading is one that the system clock gave: nothing else counts as read.
pub(crate) proof fn law_readings_come_from_the_system(since_epoch: Option<Span>)
    ensures
        system_read(since_epoch) <==> call_ensures(system_time_since_epoch, (), since_epoch),
{
}

/// The current Unix time in milliseconds, zero if the system clock stands
/// before the epoch.
pub fn now_unix_ms() -> (ms: u64)
    ensures
        exists|since_epoch: Option<Span>| #[trigger]
            system_read(since_epoch) && ms == unix_ms(since_epoch),
{
    let since_epoch = system_time_since_epoch();
    assert(system_read(since_epoch));
    unix_ms_of(since_epoch)
}

} // verus!
