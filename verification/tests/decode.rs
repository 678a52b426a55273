use async_tracing::mappers::map_to_domain_task;
use async_tracing::task::{duration_nanos, timestamp_nanos, TaskStats};
use async_tracing::wire;

fn ts(seconds: i64, nanos: i32) -> wire::Timestamp {
    wire::Timestamp { seconds, nanos }
}

fn dur(seconds: i64, nanos: i32) -> wire::Duration {
    wire::Duration { seconds, nanos }
}

fn empty_stats() -> wire::Stats {
    wire::Stats {
        created_at: None,
        dropped_at: None,
        last_wake: None,
        poll_stats: None,
        scheduled_time: None,
    }
}

fn empty_poll_stats() -> wire::PollStats {
    wire::PollStats { busy_time: None, last_poll_started: None, last_poll_ended: None }
}

#[test]
fn timestamp_decodes_to_nanoseconds() {
    assert_eq!(timestamp_nanos(ts(3, 500)), Some(3_000_000_500));
    assert_eq!(timestamp_nanos(ts(0, 0)), Some(0));
}

#[test]
fn timestamp_rejects_negative_and_denormalized() {
    assert_eq!(timestamp_nanos(ts(-1, 0)), None);
    assert_eq!(timestamp_nanos(ts(5, -1)), None);
    assert_eq!(timestamp_nanos(ts(5, 1_000_000_000)), None);
    assert_eq!(timestamp_nanos(ts(i64::MAX, 0)), None);
}

#[test]
fn duration_decodes_to_nanoseconds() {
    assert_eq!(duration_nanos(dur(0, 5_000_000)), Some(5_000_000));
    assert_eq!(duration_nanos(dur(2, 1)), Some(2_000_000_001));
    assert_eq!(duration_nanos(dur(-2, 0)), None);
}

#[test]
fn stats_require_creation_and_poll_stats() {
    let mut stats = empty_stats();
    assert_eq!(TaskStats::from_wire(&stats), None);
    stats.created_at = Some(ts(10, 0));
    assert_eq!(TaskStats::from_wire(&stats), None);
    stats.poll_stats = Some(empty_poll_stats());
    let decoded = TaskStats::from_wire(&stats).unwrap();
    assert_eq!(decoded.created_at, 10_000_000_000);
    assert_eq!(decoded.dropped_at, None);
    assert_eq!(decoded.busy, 0);
    assert_eq!(decoded.scheduled, 0);
    assert_eq!(decoded.total, None);
    assert_eq!(decoded.idle, None);
}

#[test]
fn stats_compute_total_and_idle_when_dropped() {
    let stats = wire::Stats {
        created_at: Some(ts(10, 0)),
        dropped_at: Some(ts(13, 0)),
        last_wake: None,
        poll_stats: Some(wire::PollStats {
            busy_time: Some(dur(1, 0)),
            last_poll_started: Some(ts(11, 0)),
            last_poll_ended: Some(ts(12, 0)),
        }),
        scheduled_time: Some(dur(0, 500_000_000)),
    };
    let decoded = TaskStats::from_wire(&stats).unwrap();
    assert_eq!(decoded.total, Some(3_000_000_000));
    assert_eq!(decoded.busy, 1_000_000_000);
    assert_eq!(decoded.scheduled, 500_000_000);
    assert_eq!(decoded.idle, Some(1_500_000_000));
    assert_eq!(decoded.last_poll_started, Some(11_000_000_000));
    assert_eq!(decoded.last_poll_ended, Some(12_000_000_000));
}

#[test]
fn stats_idle_saturates_at_zero() {
    let stats = wire::Stats {
        created_at: Some(ts(10, 0)),
        dropped_at: Some(ts(11, 0)),
        last_wake: None,
        poll_stats: Some(wire::PollStats {
            busy_time: Some(dur(2, 0)),
            last_poll_started: None,
            last_poll_ended: None,
        }),
        scheduled_time: None,
    };
    let decoded = TaskStats::from_wire(&stats).unwrap();
    assert_eq!(decoded.total, Some(1_000_000_000));
    assert_eq!(decoded.idle, Some(0));
}

#[test]
fn stats_total_saturates_when_dropped_before_creation() {
    let stats = wire::Stats {
        created_at: Some(ts(10, 0)),
        dropped_at: Some(ts(9, 0)),
        last_wake: None,
        poll_stats: Some(empty_poll_stats()),
        scheduled_time: None,
    };
    let decoded = TaskStats::from_wire(&stats).unwrap();
    assert_eq!(decoded.total, Some(0));
}

#[test]
fn stats_reject_malformed_nested_fields() {
    let mut stats = wire::Stats {
        created_at: Some(ts(10, 0)),
        dropped_at: None,
        last_wake: None,
        poll_stats: Some(empty_poll_stats()),
        scheduled_time: Some(dur(-1, 0)),
    };
    assert_eq!(TaskStats::from_wire(&stats), None);
    stats.scheduled_time = None;
    stats.last_wake = Some(ts(-5, 0));
    assert_eq!(TaskStats::from_wire(&stats), None);
}

fn worker_task() -> wire::Task {
    wire::Task {
        id: Some(17),
        kind: 0,
        fields: vec![
            wire::Field {
                name: Some(wire::FieldName::StrName("task.id".to_string())),
                value: Some(wire::FieldValue::U64Val(17)),
            },
            wire::Field {
                name: Some(wire::FieldName::StrName("task.name".to_string())),
                value: Some(wire::FieldValue::StrVal("worker".to_string())),
            },
        ],
        location: Some(wire::Location {
            file: Some("src/worker.rs".to_string()),
            module: Some("app::worker".to_string()),
            line: Some(42),
            column: Some(5),
        }),
    }
}

fn worker_stats() -> wire::Stats {
    wire::Stats {
        created_at: Some(ts(100, 0)),
        dropped_at: None,
        last_wake: None,
        poll_stats: Some(wire::PollStats {
            busy_time: Some(dur(0, 5_000_000)),
            last_poll_started: Some(ts(101, 0)),
            last_poll_ended: Some(ts(101, 0)),
        }),
        scheduled_time: Some(dur(0, 1_000_000)),
    }
}

#[test]
fn task_decodes_fields_kind_and_location() {
    let task = map_to_domain_task(7, &worker_task(), &worker_stats()).unwrap();
    assert_eq!(task.app_id, 7);
    assert_eq!(task.id, 17);
    assert_eq!(task.tid, Some(17));
    assert_eq!(task.name.as_deref(), Some("worker"));
    assert_eq!(task.kind.as_deref(), Some("SPAWN"));
    assert_eq!(task.task_stats.busy, 5_000_000);
    assert_eq!(task.task_stats.scheduled, 1_000_000);
    assert_eq!(task.id(), (7, 17));
    let location = task.location.unwrap();
    assert_eq!(location.file.as_deref(), Some("src/worker.rs"));
    assert_eq!(location.module.as_deref(), Some("app::worker"));
    assert_eq!(location.line, Some(42));
    assert_eq!(location.column, Some(5));
}

#[test]
fn task_kind_names_follow_the_protocol() {
    let mut wt = worker_task();
    wt.kind = 1;
    let task = map_to_domain_task(7, &wt, &worker_stats()).unwrap();
    assert_eq!(task.kind.as_deref(), Some("BLOCKING"));
    wt.kind = 2;
    let task = map_to_domain_task(7, &wt, &worker_stats()).unwrap();
    assert_eq!(task.kind, None);
}

#[test]
fn task_without_span_id_is_skipped() {
    let mut wt = worker_task();
    wt.id = None;
    assert!(map_to_domain_task(7, &wt, &worker_stats()).is_none());
}

#[test]
fn task_field_lookup_takes_first_match_of_right_shape() {
    let mut wt = worker_task();
    // A debug-rendered value is accepted for the name; an integer is not.
    wt.fields = vec![
        wire::Field {
            name: Some(wire::FieldName::StrName("task.name".to_string())),
            value: Some(wire::FieldValue::DebugVal("dbg".to_string())),
        },
        wire::Field {
            name: Some(wire::FieldName::StrName("task.name".to_string())),
            value: Some(wire::FieldValue::StrVal("second".to_string())),
        },
        wire::Field {
            name: Some(wire::FieldName::StrName("task.id".to_string())),
            value: Some(wire::FieldValue::StrVal("not a number".to_string())),
        },
    ];
    let task = map_to_domain_task(7, &wt, &worker_stats()).unwrap();
    assert_eq!(task.name.as_deref(), Some("dbg"));
    assert_eq!(task.tid, None);
}
