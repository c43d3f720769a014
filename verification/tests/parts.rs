use pawchat_kv::clock::{now_unix_ms, unix_ms_of, Clock, Span};
use pawchat_kv::metrics::{Metrics, MetricsSnapshot};
use pawchat_kv::store::is_live;
use pawchat_kv::table::WindowTable;
use pawchat_kv::window::slide;
use std::collections::VecDeque;
use std::time::Duration;

#[test]
fn counters_count_and_wrap() {
    let mut metrics = Metrics::default();
    metrics.record_hit();
    metrics.record_hit();
    metrics.record_miss();
    metrics.record_write();
    metrics.record_purged(u64::MAX);
    metrics.record_purged(3);
    assert_eq!(
        metrics.snapshot(9),
        MetricsSnapshot { hits: 2, misses: 1, writes: 1, purged: 2, len: 9 }
    );
}

#[test]
fn spans_are_exact() {
    assert_eq!(Span::from_secs(60).as_nanos(), 60_000_000_000);
    assert_eq!(Span::from_millis(1_500), Span { secs: 1, subsec_nanos: 500_000_000 });
    assert_eq!(Span::from_millis(u64::MAX).as_nanos(), u64::MAX as u128 * 1_000_000);
}

#[test]
fn unix_milliseconds_are_cut_to_the_millisecond() {
    assert_eq!(unix_ms_of(None), 0);
    assert_eq!(unix_ms_of(Some(Span { secs: 2, subsec_nanos: 999_999_999 })), 2_999);
    assert_eq!(
        unix_ms_of(Some(Span { secs: u64::MAX, subsec_nanos: 0 })),
        (u64::MAX as u128 * 1_000) as u64
    );
    let outside = std::time::SystemTime::now()
        .duration_since(std::time::UNIX_EPOCH)
        .unwrap()
        .as_millis() as u64;
    let inside = now_unix_ms();
    assert!(outside <= inside && inside < outside + 60_000);
}

#[test]
fn the_clock_follows_a_paused_runtime() {
    tokio::runtime::Builder::new_current_thread()
        .enable_time()
        .start_paused(true)
        .build()
        .unwrap()
        .block_on(async {
            let mut clock = Clock::start();
            assert_eq!(clock.now(), 0);
            tokio::time::advance(Duration::from_millis(250)).await;
            assert_eq!(clock.now(), 250_000_000);
            assert_eq!(clock.now(), 250_000_000);
            tokio::time::advance(Duration::from_millis(1)).await;
            assert_eq!(clock.now(), 251_000_000);
        });
}

#[test]
fn a_row_is_live_until_the_moment_it_expires() {
    assert!(is_live(None, u128::MAX));
    assert!(is_live(Some(10), 9));
    assert!(!is_live(Some(10), 10));
    assert!(!is_live(Some(10), 11));
}

#[test]
fn sliding_drops_the_aged_and_records_the_admitted() {
    let mut hits = VecDeque::from(vec![10, 20, 30]);
    assert!(slide(&mut hits, 3, 10, 10, 3, 25));
    assert_eq!(hits, VecDeque::from(vec![20, 30, 25]));
    assert!(!slide(&mut hits, 3, 10, 10, 3, 29));
    assert_eq!(hits, VecDeque::from(vec![20, 30, 25]));
    assert!(slide(&mut hits, 1, 10, 10, 1, 40));
    assert_eq!(hits, VecDeque::from(vec![40]));
}

#[test]
fn sliding_keeps_the_latest_hits_however_old() {
    let mut hits = VecDeque::from(vec![10, 20, 30]);
    assert!(slide(&mut hits, 1, 5, 5, 3, 100));
    assert_eq!(hits, VecDeque::from(vec![20, 30, 100]));
    assert!(!slide(&mut hits, 3, 90, 90, 3, 101));
    assert_eq!(hits, VecDeque::from(vec![20, 30, 100]));
}

#[test]
fn sliding_keeps_for_the_longest_window_and_counts_in_its_own() {
    let mut hits = VecDeque::from(vec![10, 20, 30]);
    assert!(slide(&mut hits, 2, 10, 25, 2, 36));
    assert_eq!(hits, VecDeque::from(vec![20, 30, 36]));
    assert!(!slide(&mut hits, 2, 30, 30, 2, 40));
    assert_eq!(hits, VecDeque::from(vec![20, 30, 36]));
}

#[test]
fn an_aged_hit_behind_a_fresh_one_is_not_counted() {
    let mut hits = VecDeque::from(vec![50, 10]);
    assert!(slide(&mut hits, 2, 10, 10, 2, 55));
    assert_eq!(hits, VecDeque::from(vec![50, 10, 55]));
}

#[test]
fn a_log_goes_out_of_the_table_and_back() {
    let mut table = WindowTable::new();
    assert_eq!(table.take("k"), ((VecDeque::new(), 0, 0), Some(0)));
    assert_eq!(table.len(), 0);
    table.put_back("k", VecDeque::from(vec![1, 2]), 7, 3, Some(5));
    table.put_back("l", VecDeque::new(), 4, 1, Some(9));
    table.put_back("m", VecDeque::new(), 4, 1, None);
    assert_eq!(table.len(), 3);
    assert_eq!(table.take("k"), ((VecDeque::from(vec![1, 2]), 7, 3), Some(5)));
    assert_eq!(table.take("k"), ((VecDeque::new(), 0, 0), Some(0)));
    assert_eq!(table.len(), 2);
    assert_eq!(table.purge_expired(8), 0);
    assert_eq!(table.purge_expired(9), 1);
    // A row without an expiry stays.
    assert_eq!(table.len(), 1);
    table.record_hit();
    table.record_miss();
    assert_eq!(
        table.metrics(),
        MetricsSnapshot { hits: 1, misses: 1, writes: 3, purged: 1, len: 1 }
    );
}
