//! The record kept on disk for one user, and its encoding.
//!
//! Records are encoded with `postcard`: each integer as a little-endian
//! variable-length number of seven bits to the byte, one after the other.

use crate::clock::{unix_ms_of, Span};
use crate::error::KvError;
use vstd::prelude::*;

verus! {

/// On-disk record for one user's credential version.
///
/// A small struct rather than a bare `u32`, so that the record carries the
/// moment at which it was last bumped, though the hot path only ever needs the
/// version.
#[derive(Debug, Clone, Copy, PartialEq, Eq, Structural)]
pub struct CvRecord {
    /// The credential version.
    pub version: u32,
    /// When it was set, in milliseconds since the Unix epoch.
    pub updated_at_unix_ms: u64,
}

/// The bytes of the number `n`: seven bits to the byte, the lowest first, the
/// high bit set on all bytes but the last.
pub open spec fn varint(n: nat) -> Seq<u8>
    decreases n,
{
    if n < 128 {
        seq![n as u8]
    } else {
        seq![(n % 128 + 128) as u8] + varint(n / 128)
    }
}

/// The bytes of a record.
pub open spec fn encoded(record: CvRecord) -> Seq<u8> {
    varint(record.version as nat) + varint(record.updated_at_unix_ms as nat)
}

/// The number at the front of `bytes` and what follows it, where the number
/// takes at most `room` bytes and a last one of them is at most `top`; else
/// why there is none.
pub open spec fn read_varint(bytes: Seq<u8>, room: nat, top: nat) -> Result<
    (nat, Seq<u8>),
    Seq<char>,
>
    decreases room,
{
    if room == 0 {
        Err("Found a varint that didn't terminate. Is the usize too big for this platform?"@)
    } else if bytes.len() == 0 {
        Err("Hit the end of buffer, expected more data"@)
    } else if bytes[0] < 128 {
        if room == 1 && bytes[0] > top {
            Err("Found a varint that didn't terminate. Is the usize too big for this platform?"@)
        } else {
            Ok((bytes[0] as nat, bytes.skip(1)))
        }
    } else {
        match read_varint(bytes.skip(1), (room - 1) as nat, top) {
            Ok((high, rest)) => Ok(((bytes[0] - 128 + 128 * high) as nat, rest)),
            Err(text) => Err(text),
        }
    }
}

/// The record at the front of `bytes`, else why there is none. What follows
/// the record is not looked at.
pub open spec fn decoded(bytes: Seq<u8>) -> Result<CvRecord, Seq<char>> {
    match read_varint(bytes, 5, 15) {
        Err(text) => Err(text),
        Ok((version, rest)) => match read_varint(rest, 10, 1) {
            Err(text) => Err(text),
            Ok((ms, _)) => Ok(CvRecord { version: version as u32, updated_at_unix_ms: ms as u64 }),
        },
    }
}

/// `postcard::to_allocvec` on the pair of a record's fields: it always
/// succeeds, for its output is a growing vector, and gives the bytes of the
/// two numbers one after the other.
#[verifier::external_body]
fn to_bytes(version: u32, updated_at_unix_ms: u64) -> (bytes: Result<Vec<u8>, String>)
    ensures
        bytes is Ok && bytes->Ok_0@ == varint(version as nat) + varint(updated_at_unix_ms as nat),
{
    postcard::to_allocvec(&(version, updated_at_unix_ms)).map_err(|error| error.to_string())
}

/// `postcard::from_bytes` for the pair of a record's fields: the two numbers
/// at the front of `bytes`, a `u32` of at most five bytes and a `u64` of at
/// most ten, or the text of the error, which tells a number that does not end
/// in that many bytes or is too large from bytes that run out.
#[verifier::external_body]
fn from_bytes(bytes: &[u8]) -> (fields: Result<(u32, u64), String>)
    ensures
        match decoded(bytes@) {
            Ok(record) => fields == Ok::<(u32, u64), String>(
                (record.version, record.updated_at_unix_ms),
            ),
            Err(text) => fields is Err && fields->Err_0@ == text,
        },
{
    postcard::from_bytes::<(u32, u64)>(bytes).map_err(|error| error.to_string())
}

impl CvRecord {
    /// A record of `version`, stamped with the time that lies `since_epoch`, of
    /// which `None` means before the epoch.
    pub fn stamped_at(version: u32, since_epoch: Option<Span>) -> (record: CvRecord)
        ensures
            record == (CvRecord {
                version,
                updated_at_unix_ms: crate::clock::unix_ms(since_epoch),
            }),
    {
        CvRecord { version, updated_at_unix_ms: unix_ms_of(since_epoch) }
    }

    /// The bytes to keep on disk for this record.
    pub fn encode(&self) -> (bytes: Result<Vec<u8>, KvError>)
        ensures
            bytes is Ok,
            bytes->Ok_0@ == encoded(*self),
            bytes->Ok_0@ == varint(self.version as nat) + varint(self.updated_at_unix_ms as nat),
            decoded(bytes->Ok_0@) == Ok::<CvRecord, Seq<char>>(*self),
    {
        proof {
            law_record_is_read_back(*self, Seq::empty());
        }
        match to_bytes(self.version, self.updated_at_unix_ms) {
            Ok(bytes) => Ok(bytes),
            Err(text) => Err(KvError::Serialization(text)),
        }
    }

    /// Reads a record back from the bytes kept on disk.
    pub fn decode(bytes: &[u8]) -> (record: Result<CvRecord, KvError>)
        ensures
            match decoded(bytes@) {
                Ok(read) => record == Ok::<CvRecord, KvError>(read),
                Err(text) => record matches Err(KvError::Serialization(cause)) && cause@ == text,
            },
    {
        match from_bytes(bytes) {
            Ok((version, updated_at_unix_ms)) => Ok(CvRecord { version, updated_at_unix_ms }),
            Err(text) => Err(KvError::Serialization(text)),
        }
    }
}

/// A number is written seven bits to the byte, the lowest first: a small one is
/// its own byte, and of a larger one the first byte carries the lowest bits and
/// says that more follow.
pub proof fn law_number_is_written_low_bits_first(n: nat, record: CvRecord)
    ensures
        n < 128 ==> varint(n).len() == 1 && varint(n)[0] == n,
        n >= 128 ==> varint(n)[0] == 128 + n % 128,
        n >= 128 ==> varint(n).skip(1) == varint(n / 128),
        encoded(record) == varint(record.version as nat) + varint(
            record.updated_at_unix_ms as nat,
        ),
{
    if n >= 128 {
        assert(varint(n).skip(1) =~= varint(n / 128));
    }
}

/// One more than the largest number of at most `room` bytes whose last one is
/// at most `top`.
spec fn capacity(room: nat, top: nat) -> nat
    decreases room,
{
    if room <= 1 {
        top + 1
    } else {
        128 * capacity((room - 1) as nat, top)
    }
}

/// A number that fits is read back from its bytes, with what follows them.
proof fn lemma_varint_read_back(n: nat, rest: Seq<u8>, room: nat, top: nat)
    requires
        room >= 1,
        top < 128,
        n < capacity(room, top),
    ensures
        read_varint(varint(n) + rest, room, top) == Ok::<(nat, Seq<u8>), Seq<char>>((n, rest)),
    decreases n,
{
    let bytes = varint(n) + rest;
    if n < 128 {
        assert(bytes[0] == n as u8);
        assert(bytes.skip(1) =~= rest);
    } else {
        assert(room > 1);
        assert(bytes[0] == (n % 128 + 128) as u8);
        assert(bytes.skip(1) =~= varint(n / 128) + rest);
        lemma_varint_read_back(n / 128, rest, (room - 1) as nat, top);
    }
}

/// A record is read back from its bytes as it was written, whatever follows
/// them.
pub proof fn law_record_is_read_back(record: CvRecord, rest: Seq<u8>)
    ensures
        decoded(encoded(record) + rest) == Ok::<CvRecord, Seq<char>>(record),
        decoded(encoded(record)) == Ok::<CvRecord, Seq<char>>(record),
{
    reveal_with_fuel(capacity, 10);
    let version = record.version as nat;
    let ms = record.updated_at_unix_ms as nat;
    lemma_varint_read_back(version, varint(ms) + rest, 5, 15);
    lemma_varint_read_back(ms, rest, 10, 1);
    assert(encoded(record) + rest =~= varint(version) + (varint(ms) + rest));
    lemma_varint_read_back(version, varint(ms) + Seq::empty(), 5, 15);
    lemma_varint_read_back(ms, Seq::empty(), 10, 1);
    assert(encoded(record) =~= varint(version) + (varint(ms) + Seq::empty()));
}

} // verus!
