//! The concurrent maps behind the two tables, and what is trusted of them.
//!
//! Each trusted function makes one operation of `dashmap`. Those that write
//! take the map exclusively, and none hands out a guard into it, so no call can
//! wait on another.

use dashmap::DashMap;
use std::collections::VecDeque;
use vstd::prelude::*;

verus! {

/// A row of the rate limiter: the recorded hits with the longest window, in
/// nanoseconds, and the largest limit asked for, and the moment at which the row
/// expires.
pub type WindowRow = ((VecDeque<u128>, u128, u32), Option<u128>);

/// A row of the revocation cache: the version, and the moment at which the row
/// expires.
pub type VersionRow = (u32, Option<u128>);

/// `dashmap::DashMap`, opaque: its contents are known by the names below.
#[verifier::external_type_specification]
#[verifier::external_body]
#[verifier::reject_recursive_types(K)]
#[verifier::reject_recursive_types(V)]
#[verifier::reject_recursive_types(S)]
pub struct ExDashMap<K, V, S>(DashMap<K, V, S>);

/// The entries of a rate limiter's map: under each key the hits with the
/// longest window and the largest limit, and the expiry.
pub uninterp spec fn window_rows(map: DashMap<String, ((VecDeque<u128>, u128, u32), Option<u128>)>) -> Map<Seq<char>, ((Seq<u128>, nat, u32), Option<u128>)>;

/// The entries of a revocation cache's map.
pub uninterp spec fn version_rows(map: DashMap<u64, (u32, Option<u128>)>) -> Map<u64, (u32, Option<u128>)>;

/// A row as the map's contents show it.
pub open spec fn row_view(row: WindowRow) -> ((Seq<u128>, nat, u32), Option<u128>) {
    ((row.0.0@, row.0.1 as nat, row.0.2), row.1)
}

/// What was found under a key, as the map's contents show it.
pub open spec fn found_view(row: Option<WindowRow>) -> Option<
    ((Seq<u128>, nat, u32), Option<u128>),
> {
    match row {
        Some(found) => Some(row_view(found)),
        None => None,
    }
}

/// Whether `keys` is a finite set of `size` elements.
pub open spec fn has_size<A>(keys: Set<A>, size: nat) -> bool {
    keys.finite() && keys.len() == size
}

/// Whether a row that expires at `expires_at` is still live at `now`.
pub open spec fn live(expires_at: Option<u128>, now: u128) -> bool {
    expires_at is None || expires_at->0 > now
}

/// A row lives until the moment at which it expires, and no longer; one without
/// such a moment lives for ever.
pub proof fn law_row_lives_until_it_expires(expires_at: Option<u128>, now: u128)
    ensures
        live(expires_at, now) <==> match expires_at {
            Some(moment) => now < moment,
            None => true,
        },
{
}

/// A row is shown as it is: the hits, the longest window, the largest limit and
/// the expiry.
pub proof fn law_row_is_shown_as_it_is(row: WindowRow)
    ensures
        row_view(row).0.0 == row.0.0@,
        row_view(row).0.1 == row.0.1,
        row_view(row).0.2 == row.0.2,
        row_view(row).1 == row.1,
        found_view(Some(row)) == Some(row_view(row)),
        found_view(None) is None,
{
}

/// Whether a row that expires at `expires_at` is still live at `now`. A row
/// without an expiry never expires on its own.
pub fn is_live(expires_at: Option<u128>, now: u128) -> (yes: bool)
    ensures
        yes == live(expires_at, now),
        yes <==> (expires_at matches Some(moment) ==> now < moment),
{
    match expires_at {
        Some(moment) => moment > now,
        None => true,
    }
}

/// `DashMap::new`: an empty map.
#[verifier::external_body]
pub(crate) fn new_windows() -> (map: DashMap<String, WindowRow>)
    ensures
        window_rows(map).is_empty(),
{
    DashMap::new()
}

/// `DashMap::remove`: no row stands under `key`, and the one that did is
/// handed out.
#[verifier::external_body]
pub(crate) fn remove_window(map: &mut DashMap<String, WindowRow>, key: &str) -> (row: Option<
    WindowRow,
>)
    ensures
        found_view(row) == window_rows(*old(map)).get(key@),
        window_rows(*final(map)) == window_rows(*old(map)).remove(key@),
{
    map.remove(key).map(|pair| pair.1)
}

/// `DashMap::insert`: `row` stands under `key`, whatever stood there before.
#[verifier::external_body]
pub(crate) fn put_window(map: &mut DashMap<String, WindowRow>, key: String, row: WindowRow)
    ensures
        window_rows(*final(map)) == window_rows(*old(map)).insert(key@, row_view(row)),
{
    map.insert(key, row);
}

/// `DashMap::retain`: the rows that are live at `now` stay as they are, and no
/// others.
#[verifier::external_body]
pub(crate) fn retain_live_windows(map: &mut DashMap<String, WindowRow>, now: u128)
    ensures
        window_rows(*final(map)) == window_rows(*old(map)).restrict(
            Set::new(
                |key: Seq<char>|
                    window_rows(*old(map)).contains_key(key) && live(
                        window_rows(*old(map))[key].1,
                        now,
                    ),
            ),
        ),
{
    map.retain(|_, row| is_live(row.1, now));
}

/// `DashMap::len`: the number of rows, of which there are finitely many.
#[verifier::external_body]
pub(crate) fn count_windows(map: &DashMap<String, WindowRow>) -> (len: usize)
    ensures
        has_size(window_rows(*map).dom(), len as nat),
{
    map.len()
}

/// `DashMap::new`: an empty map.
#[verifier::external_body]
pub(crate) fn new_versions() -> (map: DashMap<u64, VersionRow>)
    ensures
        version_rows(map).is_empty(),
{
    DashMap::new()
}

/// `DashMap::get`: a copy of the row under `key`, if there is one.
#[verifier::external_body]
pub(crate) fn get_version(map: &DashMap<u64, VersionRow>, key: u64) -> (row: Option<VersionRow>)
    ensures
        row == version_rows(*map).get(key),
{
    map.get(&key).map(|row| *row.value())
}

/// `DashMap::insert`: `row` stands under `key`, whatever stood there before.
#[verifier::external_body]
pub(crate) fn put_version(map: &mut DashMap<u64, VersionRow>, key: u64, row: VersionRow)
    ensures
        version_rows(*final(map)) == version_rows(*old(map)).insert(key, row),
{
    map.insert(key, row);
}

/// `DashMap::remove`: no row stands under `key`, and the one that did is
/// handed out.
#[verifier::external_body]
pub(crate) fn remove_version(map: &mut DashMap<u64, VersionRow>, key: u64) -> (row: Option<VersionRow>)
    ensures
        row == version_rows(*old(map)).get(key),
        version_rows(*final(map)) == version_rows(*old(map)).remove(key),
{
    map.remove(&key).map(|pair| pair.1)
}

/// `DashMap::len`: the number of rows, of which there are finitely many.
#[verifier::external_body]
pub(crate) fn count_versions(map: &DashMap<u64, VersionRow>) -> (len: usize)
    ensures
        has_size(version_rows(*map).dom(), len as nat),
{
    map.len()
}

} // verus!
