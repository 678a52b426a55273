use async_tracing::task::{busy, idle, scheduled, stats_info, total, TaskStats};

fn base_stats() -> TaskStats {
    TaskStats {
        created_at: 1_000,
        dropped_at: None,
        busy: 300,
        scheduled: 120,
        last_poll_started: None,
        last_poll_ended: None,
        idle: None,
        total: None,
        last_wake: None,
    }
}

#[test]
fn total_is_elapsed_since_creation_until_dropped() {
    let mut stats = base_stats();
    assert_eq!(total(&stats, 1_500), 500);
    // Before creation the reading floors at zero.
    assert_eq!(total(&stats, 900), 0);
    stats.total = Some(4_000);
    assert_eq!(total(&stats, 1_500), 4_000);
}

#[test]
fn busy_extends_through_the_poll_in_progress() {
    let mut stats = base_stats();
    assert_eq!(busy(&stats, 2_000), 300);
    stats.last_poll_started = Some(1_800);
    // Started and never ended: the task is being polled right now.
    assert_eq!(busy(&stats, 2_000), 300 + 200);
    stats.last_poll_ended = Some(1_900);
    // The last poll ended after it started: nothing in progress.
    assert_eq!(busy(&stats, 2_000), 300);
    stats.last_poll_ended = Some(1_700);
    assert_eq!(busy(&stats, 2_000), 500);
}

#[test]
fn scheduled_extends_through_the_pending_wake() {
    let mut stats = base_stats();
    assert_eq!(scheduled(&stats, 2_000), 120);
    stats.last_wake = Some(1_900);
    // Woken and not yet polled: scheduled right now.
    assert_eq!(scheduled(&stats, 2_000), 120 + 100);
    stats.last_poll_started = Some(1_950);
    // Polled after the wake: nothing pending.
    assert_eq!(scheduled(&stats, 2_000), 120);
}

#[test]
fn idle_is_the_rest_of_the_lifetime_floored_at_zero() {
    let mut stats = base_stats();
    // Lifetime 1000, busy 300, scheduled 120.
    assert_eq!(idle(&stats, 2_000), 580);
    stats.idle = Some(7);
    assert_eq!(idle(&stats, 2_000), 7);
    stats.idle = None;
    // A short lifetime saturates to zero rather than underflowing.
    assert_eq!(idle(&stats, 1_100), 0);
}

#[test]
fn stats_info_gathers_all_four_readings() {
    let mut stats = base_stats();
    stats.last_poll_started = Some(1_800);
    let info = stats_info(&stats, 2_000).unwrap();
    assert_eq!(info.runtime, 1_000);
    assert_eq!(info.busy, 500);
    assert_eq!(info.scheduled, 120);
    assert_eq!(info.idle, 380);
}

#[test]
fn stats_info_refuses_a_reading_that_overflows() {
    let mut stats = base_stats();
    stats.busy = u64::MAX;
    stats.last_poll_started = Some(1_000);
    // busy would exceed the machine word at this reading.
    assert!(stats_info(&stats, 2_000).is_none());
    // idle still has a defined value: the lifetime is consumed entirely.
    assert_eq!(idle(&stats, 2_000), 0);
}
