use pawchat_kv::clock::Span;
use pawchat_kv::table::{plan_purge, purge_step, PurgePlan, PurgeStep};
use pawchat_kv::RateLimiter;
use std::sync::{Arc, Mutex};
use std::time::Duration;

fn paused_runtime() -> tokio::runtime::Runtime {
    tokio::runtime::Builder::new_current_thread()
        .enable_time()
        .start_paused(true)
        .build()
        .unwrap()
}

#[test]
fn allows_up_to_the_limit_then_denies() {
    let mut limiter = RateLimiter::without_purge_task();
    let window = Span::from_secs(60);

    for i in 0..5 {
        assert!(
            limiter.incr_and_check("k", 5, window),
            "attempt {i} should be allowed"
        );
    }
    // 6th attempt within the same window must be denied.
    assert!(!limiter.incr_and_check("k", 5, window));
    assert!(!limiter.incr_and_check("k", 5, window));
}

#[test]
fn different_keys_have_independent_limits() {
    let mut limiter = RateLimiter::without_purge_task();
    let window = Span::from_secs(60);

    for _ in 0..3 {
        assert!(limiter.incr_and_check("a", 3, window));
        assert!(limiter.incr_and_check("b", 3, window));
    }
    assert!(!limiter.incr_and_check("a", 3, window));
    assert!(!limiter.incr_and_check("b", 3, window));
}

#[test]
fn window_rollover_admits_new_attempts_after_expiry() {
    paused_runtime().block_on(async {
        let mut limiter = RateLimiter::without_purge_task();
        let window = Span::from_millis(100);

        for _ in 0..3 {
            assert!(limiter.incr_and_check("k", 3, window));
        }
        assert!(!limiter.incr_and_check("k", 3, window));

        // Advance time past the window: the old hits should have aged out and
        // fresh attempts should be admitted again.
        tokio::time::advance(Duration::from_millis(150)).await;

        assert!(limiter.incr_and_check("k", 3, window));
        assert!(limiter.incr_and_check("k", 3, window));
        assert!(limiter.incr_and_check("k", 3, window));
        assert!(!limiter.incr_and_check("k", 3, window));
    });
}

#[test]
fn sliding_window_is_exact_at_the_boundary_not_a_fixed_bucket() {
    paused_runtime().block_on(async {
        let mut limiter = RateLimiter::without_purge_task();
        let window = Span::from_millis(100);
        let limit = 4;

        // Four hits spaced 20ms apart: t=0, 20, 40, 60.
        for _ in 0..limit {
            assert!(limiter.incr_and_check("k", limit, window));
            tokio::time::advance(Duration::from_millis(20)).await;
        }
        // Clock is now at t=80. All 4 hits are still within the last 100ms.
        assert!(!limiter.incr_and_check("k", limit, window));

        // Advance to t=110: the t=0 hit is now 110ms old (> window) and should
        // have aged out, while t=20/40/60 (90/70/50ms old) have not. Exactly
        // one slot should have freed up.
        tokio::time::advance(Duration::from_millis(30)).await;
        assert!(
            limiter.incr_and_check("k", limit, window),
            "one slot should have freed up"
        );
        assert!(
            !limiter.incr_and_check("k", limit, window),
            "no further slot should be free"
        );
    });
}

/// Runs `attempts` tasks on `runtime` that share one limiter, and counts the
/// attempts that were allowed.
fn allowed_of_concurrent_attempts(
    runtime: tokio::runtime::Runtime,
    limit: u32,
    attempts: usize,
) -> u32 {
    let limiter = Arc::new(Mutex::new(RateLimiter::without_purge_task()));
    let window = Span::from_secs(60);
    runtime.block_on(async {
        let mut handles = Vec::with_capacity(attempts);
        for _ in 0..attempts {
            let limiter = Arc::clone(&limiter);
            handles.push(tokio::spawn(async move {
                limiter
                    .lock()
                    .unwrap()
                    .incr_and_check("hot-key", limit, window)
            }));
        }
        let mut allowed = 0u32;
        for h in handles {
            if h.await.unwrap() {
                allowed += 1;
            }
        }
        allowed
    })
}

#[test]
fn concurrent_increments_never_exceed_the_limit() {
    let limit: u32 = 50;
    let runtime = tokio::runtime::Builder::new_current_thread()
        .build()
        .unwrap();
    let allowed = allowed_of_concurrent_attempts(runtime, limit, 500);

    assert_eq!(
        allowed, limit,
        "exactly `limit` attempts should have been admitted under concurrency"
    );
}

#[test]
fn concurrent_increments_across_real_os_threads_never_exceed_the_limit() {
    let limit: u32 = 20;
    let runtime = tokio::runtime::Builder::new_multi_thread()
        .worker_threads(8)
        .build()
        .unwrap();
    let allowed = allowed_of_concurrent_attempts(runtime, limit, 400);

    assert_eq!(allowed, limit);
}

#[test]
fn background_purge_evicts_inactive_keys() {
    paused_runtime().block_on(async {
        let limiter = RateLimiter::with_purge_interval(Span::from_millis(20));
        let plan = plan_purge(limiter.purge_interval(), true);
        assert_eq!(plan, PurgePlan::Start(Span::from_millis(20)));
        let limiter = Arc::new(Mutex::new(limiter));
        let shared = Arc::clone(&limiter);
        let task = tokio::spawn(async move {
            let mut ticker = tokio::time::interval(Duration::from_millis(20));
            let mut first = true;
            loop {
                ticker.tick().await;
                match purge_step(first, false) {
                    PurgeStep::Wait => {}
                    PurgeStep::Purge => {
                        shared.lock().unwrap().purge_expired();
                    }
                    PurgeStep::Stop => return,
                }
                first = false;
            }
        });
        let window = Span::from_millis(50);

        assert!(limiter.lock().unwrap().incr_and_check("idle-key", 5, window));
        assert_eq!(limiter.lock().unwrap().len(), 1);

        // Let the key go idle past its window, and let the purge task tick a
        // few times.
        tokio::time::advance(Duration::from_millis(200)).await;
        tokio::task::yield_now().await;
        tokio::time::advance(Duration::from_millis(20)).await;
        tokio::task::yield_now().await;

        assert_eq!(
            limiter.lock().unwrap().len(),
            0,
            "idle key should have been purged"
        );
        task.abort();
    });
}

#[test]
fn manual_purge_evicts_inactive_keys_deterministically() {
    paused_runtime().block_on(async {
        let mut limiter = RateLimiter::without_purge_task();
        let window = Span::from_millis(50);

        assert!(limiter.incr_and_check("a", 5, window));
        assert!(limiter.incr_and_check("b", 5, window));
        assert_eq!(limiter.len(), 2);

        tokio::time::advance(Duration::from_millis(60)).await;
        let removed = limiter.purge_expired();

        assert_eq!(removed, 2);
        assert_eq!(limiter.len(), 0);
    });
}

#[test]
fn rate_limiter_metrics_track_hits_and_misses() {
    let mut limiter = RateLimiter::without_purge_task();
    let window = Span::from_secs(60);

    assert!(limiter.incr_and_check("k", 1, window));
    assert!(!limiter.incr_and_check("k", 1, window));

    let snap = limiter.metrics();
    assert_eq!(snap.hits, 1);
    assert_eq!(snap.misses, 1);
    assert_eq!(snap.len, 1);
}

#[test]
fn a_hit_leaves_the_window_exactly_when_it_is_as_old_as_the_window() {
    let mut limiter = RateLimiter::without_purge_task();
    let window = Span::from_millis(100);

    assert!(limiter.incr_and_check_at("k", 1, window, 7));
    assert!(!limiter.incr_and_check_at("k", 1, window, 100_000_006));
    assert!(limiter.incr_and_check_at("k", 1, window, 100_000_007));
}

#[test]
fn a_limit_of_zero_denies_everything() {
    let mut limiter = RateLimiter::without_purge_task();
    assert!(!limiter.incr_and_check("k", 0, Span::from_secs(1)));
    assert!(!limiter.incr_and_check_at("k", 0, Span::from_secs(1), 5));
    assert_eq!(limiter.len(), 1);
    assert_eq!(limiter.metrics().misses, 2);
}

#[test]
fn a_window_of_zero_forgets_at_once() {
    let mut limiter = RateLimiter::without_purge_task();
    for _ in 0..10 {
        assert!(limiter.incr_and_check_at("k", 1, Span::from_secs(0), 42));
    }
}

#[test]
fn a_window_longer_than_the_clock_has_run_ages_nothing() {
    let mut limiter = RateLimiter::without_purge_task();
    let window = Span { secs: u64::MAX, subsec_nanos: 999_999_999 };
    assert!(limiter.incr_and_check("k", 1, window));
    assert!(!limiter.incr_and_check("k", 1, window));
}

#[test]
fn denied_attempts_are_not_counted() {
    let mut limiter = RateLimiter::without_purge_task();
    let window = Span::from_secs(10);
    let second: u128 = 1_000_000_000;

    assert!(limiter.incr_and_check_at("k", 1, window, 0));
    for t in 1..10 {
        assert!(!limiter.incr_and_check_at("k", 1, window, t * second));
    }
    assert!(limiter.incr_and_check_at("k", 1, window, 10 * second));
}

#[test]
fn a_denied_attempt_keeps_the_key_from_the_purge() {
    let mut limiter = RateLimiter::without_purge_task();
    let window = Span { secs: 0, subsec_nanos: 100 };

    assert!(limiter.incr_and_check_at("k", 1, window, 0));
    assert!(!limiter.incr_and_check_at("k", 1, window, 50));
    assert_eq!(limiter.purge_expired_at(149), 0);
    assert_eq!(limiter.purge_expired_at(150), 1);
    assert_eq!(limiter.purge_expired_at(150), 0);
    assert!(limiter.is_empty());
    assert_eq!(limiter.metrics().purged, 1);
}

#[test]
fn a_purge_between_attempts_changes_no_decision() {
    let window = Span { secs: 0, subsec_nanos: 100 };
    let attempts: [u128; 9] = [0, 10, 60, 100, 101, 110, 160, 300, 301];
    let mut plain = RateLimiter::without_purge_task();
    let mut purged = RateLimiter::without_purge_task();
    for at in attempts {
        purged.purge_expired_at(at);
        assert_eq!(
            plain.incr_and_check_at("k", 2, window, at),
            purged.incr_and_check_at("k", 2, window, at),
        );
    }
}

#[test]
fn no_window_holds_more_than_the_limit() {
    let mut limiter = RateLimiter::without_purge_task();
    let window = Span { secs: 0, subsec_nanos: 50 };
    let mut admitted: Vec<u128> = Vec::new();
    for at in 0..500 {
        if limiter.incr_and_check_at("k", 7, window, at) {
            admitted.push(at);
        }
    }
    assert_eq!(admitted.len(), 70);
    for end in 0..600u128 {
        let inside = admitted
            .iter()
            .filter(|at| **at <= end && end < **at + 50)
            .count();
        assert!(inside <= 7);
    }
}

#[test]
fn longer_windows_before_do_not_loosen_a_shorter_one() {
    let mut limiter = RateLimiter::without_purge_task();
    let long = Span { secs: 0, subsec_nanos: 100 };
    let short = Span { secs: 0, subsec_nanos: 40 };

    assert!(limiter.incr_and_check_at("k", 2, long, 0));
    assert!(limiter.incr_and_check_at("k", 2, long, 10));
    assert!(!limiter.incr_and_check_at("k", 2, short, 39));
    assert!(limiter.incr_and_check_at("k", 2, short, 40));
    assert!(!limiter.incr_and_check_at("k", 2, short, 49));
}

#[test]
fn a_shorter_window_in_between_forgets_nothing_of_a_longer_one() {
    let mut limiter = RateLimiter::without_purge_task();
    let second: u128 = 1_000_000_000;
    let minute = Span::from_secs(60);

    assert!(limiter.incr_and_check_at("k", 5, minute, 0));
    assert!(limiter.incr_and_check_at("k", 5, Span::from_secs(10), 20 * second));
    assert!(!limiter.incr_and_check_at("k", 2, minute, 21 * second));
    assert!(limiter.incr_and_check_at("k", 2, minute, 60 * second));
    assert!(!limiter.incr_and_check_at("k", 2, minute, 79 * second));
    assert_eq!(limiter.metrics().writes, 5);
}

#[test]
fn a_shorter_window_does_not_bring_the_purge_forward() {
    let mut limiter = RateLimiter::without_purge_task();
    let second: u128 = 1_000_000_000;
    let minute = Span::from_secs(60);

    assert!(limiter.incr_and_check_at("k", 5, minute, 0));
    assert!(limiter.incr_and_check_at("k", 5, Span::from_secs(10), 20 * second));
    assert_eq!(limiter.purge_expired_at(30 * second), 0);
    assert_eq!(limiter.purge_expired_at(80 * second - 1), 0);
    assert!(!limiter.incr_and_check_at("k", 1, minute, 80 * second - 1));
    assert_eq!(limiter.purge_expired_at(140 * second - 1), 1);
}

#[test]
fn a_window_longer_than_any_before_is_counted_in_full_under_a_known_limit() {
    let mut limiter = RateLimiter::without_purge_task();
    let short = Span::from_secs(10);
    let long = Span::from_secs(60);
    let second: u128 = 1_000_000_000;

    assert!(limiter.incr_and_check_at("k", 2, short, 0));
    assert!(limiter.incr_and_check_at("k", 2, short, 20 * second));
    assert!(!limiter.incr_and_check_at("k", 2, long, 21 * second));
    assert!(!limiter.incr_and_check_at("k", 1, long, 79 * second));
    assert!(limiter.incr_and_check_at("k", 2, long, 79 * second));
}

#[test]
fn a_longer_window_and_larger_limit_than_any_before_counts_what_is_still_kept() {
    let mut limiter = RateLimiter::without_purge_task();
    let short = Span { secs: 0, subsec_nanos: 10 };
    let long = Span { secs: 0, subsec_nanos: 60 };

    assert!(limiter.incr_and_check_at("k", 1, short, 0));
    assert!(limiter.incr_and_check_at("k", 1, short, 15));
    // The hit at 0 had aged past every window asked for, and was not among as
    // many of the latest as any limit asked for.
    assert!(limiter.incr_and_check_at("k", 2, long, 16));
    assert!(!limiter.incr_and_check_at("k", 2, long, 74));
    assert!(limiter.incr_and_check_at("k", 2, long, 75));
}

#[test]
fn the_latest_moments_do_not_overflow() {
    let mut limiter = RateLimiter::without_purge_task();
    let window = Span::from_secs(1);
    assert!(limiter.incr_and_check_at("k", 1, window, u128::MAX - 1));
    assert!(!limiter.incr_and_check_at("k", 1, window, u128::MAX));
    assert_eq!(limiter.purge_expired_at(u128::MAX), 0);
}

#[test]
fn keys_do_not_touch_each_other() {
    let mut limiter = RateLimiter::without_purge_task();
    let window = Span { secs: 0, subsec_nanos: 100 };
    assert!(limiter.incr_and_check_at("a", 1, window, 0));
    for at in 1..50 {
        limiter.incr_and_check_at("b", 3, window, at);
    }
    assert!(!limiter.incr_and_check_at("a", 1, window, 99));
    assert!(limiter.incr_and_check_at("a", 1, window, 100));
    assert_eq!(limiter.metrics().hits, 5);
    assert_eq!(limiter.metrics().misses, 47);
    assert_eq!(limiter.metrics().writes, 52);
}

#[test]
fn new_limiters_know_their_purge_interval() {
    let thirty = Some(Span { secs: 30, subsec_nanos: 0 });
    assert_eq!(RateLimiter::new().purge_interval(), thirty);
    assert_eq!(RateLimiter::default().purge_interval(), thirty);
    assert_eq!(RateLimiter::without_purge_task().purge_interval(), None);
    assert!(RateLimiter::new().is_empty());
}

#[test]
fn a_purge_task_is_planned_only_with_a_runtime() {
    let interval = Span::from_secs(30);
    assert_eq!(plan_purge(None, true), PurgePlan::Manual);
    assert_eq!(plan_purge(None, false), PurgePlan::Manual);
    assert_eq!(plan_purge(Some(interval), true), PurgePlan::Start(interval));
    assert_eq!(plan_purge(Some(interval), false), PurgePlan::Warn);
}

#[test]
fn the_purge_task_skips_its_first_tick_and_stops_when_told() {
    assert_eq!(purge_step(true, false), PurgeStep::Wait);
    assert_eq!(purge_step(true, true), PurgeStep::Wait);
    assert_eq!(purge_step(false, false), PurgeStep::Purge);
    assert_eq!(purge_step(false, true), PurgeStep::Stop);
}
