use pawchat_kv::clock::Span;
use pawchat_kv::record::CvRecord;
use pawchat_kv::revocation::{
    invalidate_outcome, persist, remove, set_cv_outcome, DiskWrite, StoredRow,
};
use pawchat_kv::table::VersionTable;
use pawchat_kv::{KvError, RevocationCache};
use redb::{Database, ReadableTable, TableDefinition};
use std::path::Path;
use std::sync::{Arc, Mutex};
use tempfile::tempdir;

const TABLE: TableDefinition<u64, Vec<u8>> = TableDefinition::new("credential_versions");

/// Performs one of the cache's writes on its file.
fn perform(db: &Database, write: DiskWrite) {
    let transaction = db.begin_write().unwrap();
    {
        let mut table = transaction.open_table(TABLE).unwrap();
        match write {
            DiskWrite::Put { user_id, bytes } => {
                table.insert(user_id, bytes).unwrap();
            }
            DiskWrite::Delete { user_id } => {
                table.remove(user_id).unwrap();
            }
        }
    }
    transaction.commit().unwrap();
}

/// Opens the file at `path`, creating it if absent, and the cache on it.
fn open(path: &Path) -> (RevocationCache, Database) {
    let db = Database::create(path).unwrap();
    let transaction = db.begin_write().unwrap();
    {
        let _ = transaction.open_table(TABLE).unwrap();
    }
    transaction.commit().unwrap();
    let mut rows: Vec<StoredRow> = Vec::new();
    {
        let transaction = db.begin_read().unwrap();
        let table = transaction.open_table(TABLE).unwrap();
        for row in table.iter().unwrap() {
            let (key, value) = row.unwrap();
            rows.push(Ok((key.value(), value.value())));
        }
    }
    (RevocationCache::open(rows).unwrap(), db)
}

fn set(cache: &mut RevocationCache, db: &Database, user_id: u64, version: u32) {
    let write = cache.set_cv(user_id, version).unwrap();
    perform(db, write.unwrap());
}

#[test]
fn in_memory_cache_basic_get_set() {
    let mut cache = RevocationCache::new_in_memory();
    assert_eq!(cache.get_cv(1), None);

    cache.set_cv(1, 7).unwrap();
    assert_eq!(cache.get_cv(1), Some(7));

    cache.set_cv(1, 8).unwrap();
    assert_eq!(cache.get_cv(1), Some(8));

    assert!(!cache.is_persistent());
}

#[test]
fn persisted_cache_survives_simulated_restart() {
    let dir = tempdir().unwrap();
    let path = dir.path().join("revocation.redb");

    {
        let (mut cache, db) = open(&path);
        set(&mut cache, &db, 100, 1);
        set(&mut cache, &db, 200, 5);
        set(&mut cache, &db, 100, 2); // overwrite
        assert!(cache.is_persistent());
    }

    // Simulated restart: reopen the same file in a brand new instance.
    let (mut reopened, _db) = open(&path);
    assert_eq!(reopened.get_cv(100), Some(2));
    assert_eq!(reopened.get_cv(200), Some(5));
    assert_eq!(reopened.get_cv(999), None);
    assert_eq!(reopened.len(), 2);
}

#[test]
fn opening_the_same_path_twice_sequentially_is_idempotent() {
    let dir = tempdir().unwrap();
    let path = dir.path().join("revocation.redb");

    {
        let (mut cache, db) = open(&path);
        set(&mut cache, &db, 1, 1);
    }
    {
        let (mut cache, _db) = open(&path);
        assert_eq!(cache.get_cv(1), Some(1));
    }
    // A third open should not fail or duplicate anything.
    let (cache, _db) = open(&path);
    assert_eq!(cache.len(), 1);
}

#[test]
fn invalidate_removes_from_memory_and_disk() {
    let dir = tempdir().unwrap();
    let path = dir.path().join("revocation.redb");

    {
        let (mut cache, db) = open(&path);
        set(&mut cache, &db, 1, 1);
        let write = cache.invalidate(1);
        perform(&db, write.unwrap());
        assert_eq!(cache.get_cv(1), None);
    }

    let (mut reopened, _db) = open(&path);
    assert_eq!(reopened.get_cv(1), None);
    assert_eq!(reopened.len(), 0);
}

#[test]
fn eventful_invalidation_via_set_cv_overwrites_immediately() {
    let mut cache = RevocationCache::new_in_memory();
    cache.set_cv(1, 1).unwrap();
    assert_eq!(cache.get_cv(1), Some(1));

    cache.set_cv(1, 2).unwrap();
    assert_eq!(
        cache.get_cv(1),
        Some(2),
        "credential_version bump must be visible immediately, not just eventually"
    );
}

#[test]
fn concurrent_writes_then_reads_are_consistent() {
    // Many tasks race to set different users' versions concurrently, then
    // every value must be exactly what was last written for that user.
    let cache = Arc::new(Mutex::new(RevocationCache::new_in_memory()));
    let users = 200u64;
    let runtime = tokio::runtime::Builder::new_multi_thread()
        .worker_threads(8)
        .build()
        .unwrap();
    runtime.block_on(async {
        let mut handles = Vec::with_capacity(users as usize);
        for user_id in 0..users {
            let cache = Arc::clone(&cache);
            handles.push(tokio::spawn(async move {
                for v in 1..=5u32 {
                    cache.lock().unwrap().set_cv(user_id, v).unwrap();
                }
            }));
        }
        for h in handles {
            h.await.unwrap();
        }
    });

    let mut cache = cache.lock().unwrap();
    for user_id in 0..users {
        assert_eq!(cache.get_cv(user_id), Some(5));
    }
    assert_eq!(cache.len(), users as usize);
}

#[test]
fn concurrent_writes_to_persisted_cache_are_all_durable() {
    let dir = tempdir().unwrap();
    let path = dir.path().join("revocation.redb");
    let users = 50u64;
    {
        let (cache, db) = open(&path);
        let shared = Arc::new((Mutex::new(cache), db));
        let runtime = tokio::runtime::Builder::new_multi_thread()
            .worker_threads(8)
            .build()
            .unwrap();
        runtime.block_on(async {
            let mut handles = Vec::with_capacity(users as usize);
            for user_id in 0..users {
                let shared = Arc::clone(&shared);
                handles.push(tokio::spawn(async move {
                    let write = shared
                        .0
                        .lock()
                        .unwrap()
                        .set_cv(user_id, (user_id % 10) as u32 + 1)
                        .unwrap();
                    perform(&shared.1, write.unwrap());
                }));
            }
            for h in handles {
                h.await.unwrap();
            }
        });
    }

    let (mut reopened, _db) = open(&path);
    assert_eq!(reopened.len(), users as usize);
    for user_id in 0..users {
        assert_eq!(reopened.get_cv(user_id), Some((user_id % 10) as u32 + 1));
    }
}

#[test]
fn revocation_cache_metrics_track_hits_and_misses() {
    let mut cache = RevocationCache::new_in_memory();
    cache.set_cv(1, 1).unwrap();

    assert_eq!(cache.get_cv(1), Some(1)); // hit
    assert_eq!(cache.get_cv(2), None); // miss

    let snap = cache.metrics();
    assert_eq!(snap.hits, 1);
    assert_eq!(snap.misses, 1);
    assert_eq!(snap.writes, 1);
}

#[test]
fn a_version_of_zero_is_not_an_absent_version() {
    let mut cache = RevocationCache::new_in_memory();
    assert!(cache.is_empty());
    cache.set_cv(9, 0).unwrap();
    assert_eq!(cache.get_cv(9), Some(0));
    assert!(!cache.is_empty());
}

#[test]
fn a_read_gives_back_the_last_write_of_that_user() {
    let mut cache = RevocationCache::new_in_memory();
    cache.set_cv(1, 5).unwrap();
    cache.set_cv(2, 6).unwrap();
    cache.set_cv(1, 7).unwrap();
    cache.invalidate(2);
    cache.invalidate(3);
    assert_eq!(cache.get_cv(1), Some(7));
    assert_eq!(cache.get_cv(2), None);
    cache.set_cv(2, 8).unwrap();
    assert_eq!(cache.get_cv(2), Some(8));
    let snap = cache.metrics();
    assert_eq!((snap.hits, snap.misses, snap.writes, snap.len), (2, 1, 4, 2));
}

#[test]
fn a_cache_in_memory_asks_for_no_writes() {
    let mut cache = RevocationCache::new_in_memory();
    assert!(cache.set_cv(1, 1).unwrap().is_none());
    assert!(cache.invalidate(1).is_none());
    assert!(cache.invalidate(1).is_none());
    assert_eq!(cache.len(), 0);
}

#[test]
fn a_write_puts_a_record_of_the_version() {
    let mut cache = RevocationCache::open(Vec::new()).unwrap();
    match cache.set_cv(42, 300).unwrap() {
        Some(DiskWrite::Put { user_id, bytes }) => {
            assert_eq!(user_id, 42);
            let record = CvRecord::decode(&bytes).unwrap();
            assert_eq!(record.version, 300);
            // Stamped by a clock that has passed the year 2020.
            assert!(record.updated_at_unix_ms > 1_577_836_800_000);
        }
        other => panic!("unexpected {other:?}"),
    }
    assert!(matches!(
        cache.invalidate(42),
        Some(DiskWrite::Delete { user_id: 42 })
    ));
}

#[test]
fn a_write_at_a_given_time_is_stamped_with_it() {
    let mut cache = RevocationCache::open(Vec::new()).unwrap();
    let since_epoch = Some(Span { secs: 0, subsec_nanos: 127_999_999 });
    match cache.set_cv_at(42, 300, since_epoch).unwrap() {
        Some(DiskWrite::Put { user_id: 42, bytes }) => assert_eq!(bytes, vec![0xAC, 0x02, 0x7F]),
        other => panic!("unexpected {other:?}"),
    }
    match cache.set_cv_at(42, 1, None).unwrap() {
        Some(DiskWrite::Put { user_id: 42, bytes }) => assert_eq!(bytes, vec![0x01, 0x00]),
        other => panic!("unexpected {other:?}"),
    }
    assert_eq!(
        CvRecord::stamped_at(7, Some(Span::from_secs(2))),
        CvRecord { version: 7, updated_at_unix_ms: 2_000 }
    );
    let mut memory = RevocationCache::new_in_memory();
    assert!(memory.set_cv_at(1, 2, since_epoch).unwrap().is_none());
    assert_eq!(memory.get_cv(1), Some(2));
}

#[test]
fn records_are_encoded_as_two_varints() {
    let record = CvRecord { version: 300, updated_at_unix_ms: 127 };
    assert_eq!(record.encode().unwrap(), vec![0xAC, 0x02, 0x7F]);
    let largest = CvRecord { version: u32::MAX, updated_at_unix_ms: u64::MAX };
    let bytes = largest.encode().unwrap();
    assert_eq!(
        bytes,
        vec![
            0xFF, 0xFF, 0xFF, 0xFF, 0x0F, 0xFF, 0xFF, 0xFF, 0xFF, 0xFF, 0xFF, 0xFF, 0xFF, 0xFF,
            0x01
        ]
    );
    assert_eq!(CvRecord::decode(&bytes).unwrap(), largest);
    match persist(7, &record) {
        Ok(DiskWrite::Put { user_id: 7, bytes }) => assert_eq!(bytes, vec![0xAC, 0x02, 0x7F]),
        other => panic!("unexpected {other:?}"),
    }
    assert!(matches!(remove(7), DiskWrite::Delete { user_id: 7 }));
}

#[test]
fn what_follows_a_record_is_not_looked_at() {
    let record = CvRecord::decode(&[0x05, 0x09, 0xFF, 0xFF]).unwrap();
    assert_eq!(record, CvRecord { version: 5, updated_at_unix_ms: 9 });
}

#[test]
fn long_forms_of_small_numbers_are_read() {
    let record = CvRecord::decode(&[0x81, 0x80, 0x80, 0x80, 0x00, 0x80, 0x00]).unwrap();
    assert_eq!(record, CvRecord { version: 1, updated_at_unix_ms: 0 });
}

fn message(bytes: &[u8]) -> String {
    CvRecord::decode(bytes).unwrap_err().message()
}

#[test]
fn bytes_that_are_no_record_are_told_apart() {
    let short = "serialization error: Hit the end of buffer, expected more data";
    let bad = "serialization error: Found a varint that didn't terminate. \
               Is the usize too big for this platform?";
    assert_eq!(message(&[]), short);
    assert_eq!(message(&[0x05]), short);
    assert_eq!(message(&[0x85, 0x80]), short);
    assert_eq!(message(&[0xFF, 0xFF, 0xFF, 0xFF, 0x10, 0x00]), bad);
    assert_eq!(message(&[0x80, 0x80, 0x80, 0x80, 0x80, 0x00]), bad);
    assert_eq!(
        message(&[0x00, 0xFF, 0xFF, 0xFF, 0xFF, 0xFF, 0xFF, 0xFF, 0xFF, 0xFF, 0x02]),
        bad
    );
}

#[test]
fn opening_stops_at_the_first_bad_row() {
    let good = || -> StoredRow { Ok((1, vec![0x01, 0x00])) };
    let opened = RevocationCache::open(vec![
        good(),
        Ok((2, vec![])),
        Err(KvError::Storage("io".to_string())),
    ]);
    match opened {
        Err(KvError::Serialization(text)) => {
            assert_eq!(text, "Hit the end of buffer, expected more data")
        }
        _ => panic!("the row without bytes should be reported"),
    }
    let opened = RevocationCache::open(vec![
        good(),
        Err(KvError::Storage("io".to_string())),
        Ok((2, vec![])),
    ]);
    assert!(matches!(opened, Err(KvError::Storage(text)) if text == "io"));
}

#[test]
fn opening_loads_rows_in_order_and_counts_them() {
    let mut cache = RevocationCache::open(vec![
        Ok((1, vec![0x01, 0x00])),
        Ok((2, vec![0x02, 0x00])),
        Ok((1, vec![0x03, 0x00])),
    ])
    .unwrap();
    assert_eq!(cache.metrics().writes, 3);
    assert_eq!(cache.len(), 2);
    assert_eq!(cache.get_cv(1), Some(3));
    assert_eq!(cache.get_cv(2), Some(2));
    assert_eq!(cache.get_cv(3), None);
    cache.set_cv(3, 1).unwrap();
    let snap = cache.metrics();
    assert_eq!((snap.hits, snap.misses, snap.writes, snap.purged), (2, 1, 4, 0));
}

#[test]
fn the_outcome_of_a_write_is_that_of_its_task() {
    assert!(set_cv_outcome(Ok(Ok(()))).is_ok());
    assert!(invalidate_outcome(Ok(Ok(()))).is_ok());
    assert_eq!(
        set_cv_outcome(Ok(Err(KvError::Commit("disk full".to_string()))))
            .unwrap_err()
            .message(),
        "redb commit error: disk full"
    );
    assert_eq!(
        set_cv_outcome(Err("task 3 panicked".to_string()))
            .unwrap_err()
            .message(),
        "serialization error: persist task panicked: task 3 panicked"
    );
    assert_eq!(
        invalidate_outcome(Err("task 4 panicked".to_string()))
            .unwrap_err()
            .message(),
        "serialization error: invalidate task panicked: task 4 panicked"
    );
}

#[test]
fn each_error_names_what_failed() {
    let cause = || "cause".to_string();
    assert_eq!(KvError::Database(cause()).message(), "redb database error: cause");
    assert_eq!(KvError::Transaction(cause()).message(), "redb transaction error: cause");
    assert_eq!(KvError::Table(cause()).message(), "redb table error: cause");
    assert_eq!(KvError::Commit(cause()).message(), "redb commit error: cause");
    assert_eq!(KvError::Storage(cause()).message(), "redb storage error: cause");
    assert_eq!(KvError::Serialization(cause()).message(), "serialization error: cause");
}

#[test]
fn an_expired_row_counts_as_absent_until_it_is_overwritten() {
    let mut table = VersionTable::new();
    table.insert(1, 7, Some(100));
    assert_eq!(table.get_cloned(1, 99), Some(7));
    assert_eq!(table.get_cloned(1, 100), None);
    assert_eq!(table.len(), 1);
    assert_eq!(table.remove(1), Some(7));
    assert_eq!(table.remove(1), None);
    table.insert(1, 8, None);
    assert_eq!(table.get_cloned(1, u128::MAX), Some(8));
    let snap = table.metrics();
    assert_eq!((snap.hits, snap.misses, snap.writes, snap.len), (2, 1, 2, 1));
}
