use async_tracing::application::{Application, ApplicationState, AppUrl};
use async_tracing::connection::{Command, Connection};
use async_tracing::state::{LoadOutcome, State};
use async_tracing::wire;

fn url(text: &str, port: Option<u16>) -> AppUrl {
    AppUrl { text: text.to_string(), port }
}

fn app(id: u128, title: &str) -> Application {
    Application::with_id(
        id,
        title.to_string(),
        url("http://127.0.0.1:6669/", Some(6669)),
        Some(4242),
        Some(1_700_000_000),
    )
    .unwrap()
}

fn command_channel() -> Connection {
    let (tx, _rx) = tokio::sync::mpsc::channel::<Command>(100);
    Connection::new(tx)
}

fn ts(seconds: i64, nanos: i32) -> wire::Timestamp {
    wire::Timestamp { seconds, nanos }
}

fn spawn_update(span_id: u64, name: &str) -> wire::TaskUpdate {
    wire::TaskUpdate {
        new_tasks: vec![wire::Task {
            id: Some(span_id),
            kind: 0,
            fields: vec![
                wire::Field {
                    name: Some(wire::FieldName::StrName("task.id".to_string())),
                    value: Some(wire::FieldValue::U64Val(span_id)),
                },
                wire::Field {
                    name: Some(wire::FieldName::StrName("task.name".to_string())),
                    value: Some(wire::FieldValue::StrVal(name.to_string())),
                },
            ],
            location: None,
        }],
        stats_update: vec![(
            span_id,
            wire::Stats {
                created_at: Some(ts(100, 0)),
                dropped_at: None,
                last_wake: None,
                poll_stats: Some(wire::PollStats {
                    busy_time: Some(wire::Duration { seconds: 0, nanos: 5_000_000 }),
                    last_poll_started: Some(ts(101, 0)),
                    last_poll_ended: Some(ts(101, 0)),
                }),
                scheduled_time: Some(wire::Duration { seconds: 0, nanos: 1_000_000 }),
            },
        )],
    }
}

fn drop_update(span_id: u64) -> wire::TaskUpdate {
    wire::TaskUpdate {
        new_tasks: vec![],
        stats_update: vec![(
            span_id,
            wire::Stats {
                created_at: Some(ts(100, 0)),
                dropped_at: Some(ts(103, 0)),
                last_wake: None,
                poll_stats: Some(wire::PollStats {
                    busy_time: None,
                    last_poll_started: None,
                    last_poll_ended: None,
                }),
                scheduled_time: None,
            },
        )],
    }
}

#[test]
fn store_app_registers_and_snapshots() {
    let mut state = State::new();
    let snapshot = state.store_app(app(1, "demo"));
    assert_eq!(snapshot.len(), 1);
    assert_eq!(snapshot[0].id, 1);
    assert_eq!(snapshot[0].title, "demo");
    assert_eq!(snapshot[0].state, ApplicationState::Enabled);
    // An id collision overwrites the record.
    let snapshot = state.store_app(app(1, "renamed"));
    assert_eq!(snapshot.len(), 1);
    assert_eq!(snapshot[0].title, "renamed");
}

#[test]
fn task_birth_and_death() {
    let mut state = State::new();
    state.store_app(app(1, "demo"));
    let written = state.handle_task_update(1, spawn_update(17, "worker"));
    let tasks = written.unwrap();
    assert_eq!(tasks.len(), 1);
    assert_eq!(tasks[0].id(), (1, 17));
    assert_eq!(tasks[0].name.as_deref(), Some("worker"));
    let written = state.handle_task_update(1, drop_update(17));
    assert_eq!(written.unwrap().len(), 0);
    assert_eq!(state.get_tasks().len(), 0);
}

#[test]
fn dropped_removal_is_idempotent() {
    let mut state = State::new();
    state.store_app(app(1, "demo"));
    state.handle_task_update(1, spawn_update(17, "worker"));
    let after_first = state.handle_task_update(1, drop_update(17)).unwrap();
    let after_second = state.handle_task_update(1, drop_update(17)).unwrap();
    assert_eq!(after_first.len(), 0);
    assert_eq!(after_second.len(), 0);
    assert_eq!(state.get_tasks().len(), 0);
}

#[test]
fn updates_for_missing_or_disabled_applications_are_dropped() {
    let mut state = State::new();
    // Missing application: the update is dropped whole.
    assert!(state.handle_task_update(1, spawn_update(17, "worker")).is_none());
    assert_eq!(state.get_tasks().len(), 0);
    // Disabled application: likewise.
    state.store_app(app(1, "demo"));
    state.disable_app(1);
    assert!(state.handle_task_update(1, spawn_update(17, "worker")).is_none());
    assert_eq!(state.get_tasks().len(), 0);
}

#[test]
fn disable_app_detaches_the_handle_once() {
    let mut state = State::new();
    let mut application = app(1, "demo");
    let (tx, mut rx) = tokio::sync::mpsc::channel::<Command>(100);
    application.enable(Connection::new(tx));
    state.store_app(application);
    let (handle, snapshot) = state.disable_app(1);
    assert!(handle.is_some());
    assert_eq!(snapshot[0].state, ApplicationState::Disabled);
    // The detached handle still reaches the supervisor's inbox: the caller
    // sends exactly one Disconnect on it.
    handle.unwrap().commands.try_send(Command::Disconnect).unwrap();
    assert!(matches!(rx.try_recv(), Ok(Command::Disconnect)));
    assert!(rx.try_recv().is_err());
    // A second call changes nothing and yields no handle.
    let (handle, snapshot) = state.disable_app(1);
    assert!(handle.is_none());
    assert_eq!(snapshot[0].state, ApplicationState::Disabled);
    // An unknown id yields no handle either.
    let (handle, _snapshot) = state.disable_app(99);
    assert!(handle.is_none());
}

#[test]
fn delete_app_collects_its_tasks() {
    let mut state = State::new();
    state.store_app(app(1, "one"));
    state.store_app(app(2, "two"));
    state.handle_task_update(1, spawn_update(17, "alpha"));
    state.handle_task_update(2, spawn_update(18, "beta"));
    let (apps, tasks) = state.delete_app(1);
    assert_eq!(apps.len(), 1);
    assert_eq!(apps[0].id, 2);
    assert_eq!(tasks.len(), 1);
    assert_eq!(tasks[0].id(), (2, 18));
}

#[test]
fn reconcile_pid_keeps_the_old_pid_on_a_failed_probe() {
    let mut state = State::new();
    state.store_app(app(1, "demo"));
    assert!(state.reconcile_pid(1, None).is_none());
    let list = state.get_current_applications_list();
    assert_eq!(list[0].pid, 4242);
    let snapshot = state.reconcile_pid(1, Some(5555)).unwrap();
    assert_eq!(snapshot[0].pid, 5555);
}

#[test]
fn snapshot_carries_every_live_task_with_computed_spans() {
    let mut state = State::new();
    state.store_app(app(1, "demo"));
    state.handle_task_update(1, spawn_update(17, "alpha"));
    state.handle_task_update(1, spawn_update(18, "beta"));
    state.handle_task_update(1, spawn_update(19, "gamma"));
    let tasks = state.get_tasks();
    assert_eq!(tasks.len(), 3);
    for task in &tasks {
        // One second after the stats instant, each task has a computed
        // reading for all four spans.
        let info = async_tracing::task::stats_info(&task.task_stats, 102_000_000_000).unwrap();
        assert_eq!(info.runtime, 2_000_000_000);
        assert_eq!(info.busy, 5_000_000);
        assert_eq!(info.scheduled, 1_000_000);
    }
}

#[test]
fn load_restores_the_written_snapshots() {
    let mut state = State::new();
    let mut application = app(1, "demo");
    application.enable(command_channel());
    state.store_app(application);
    state.store_app(app(2, "other"));
    state.handle_task_update(1, spawn_update(17, "worker"));
    let apps_snapshot = state.get_current_applications_list();
    let tasks_snapshot = state.get_tasks();

    let reloaded = State::load(
        LoadOutcome::Loaded(apps_snapshot.clone()),
        LoadOutcome::Loaded(tasks_snapshot),
    )
    .unwrap();
    let apps_again = reloaded.get_current_applications_list();
    let tasks_again = reloaded.get_tasks();
    // The persisted registry round-trips exactly, connection handles aside.
    assert_eq!(apps_again, apps_snapshot);
    assert_eq!(tasks_again.len(), 1);
    assert_eq!(tasks_again[0].id(), (1, 17));
    assert_eq!(tasks_again[0].name.as_deref(), Some("worker"));
}

#[test]
fn load_treats_missing_files_as_empty_and_malformed_as_fatal() {
    let state = State::load(LoadOutcome::Missing, LoadOutcome::Missing).unwrap();
    assert_eq!(state.get_current_applications_list().len(), 0);
    assert_eq!(state.get_tasks().len(), 0);

    let result = State::load(
        LoadOutcome::Malformed("bad json".to_string()),
        LoadOutcome::Missing,
    );
    match result {
        Err(err) => {
            assert_eq!(err, async_tracing::error::Error::Serde("bad json".to_string()))
        },
        Ok(_) => panic!("a malformed collection file must be a fatal load error"),
    }
}
