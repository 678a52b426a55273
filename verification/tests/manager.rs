use async_tracing::application::{parse_url, ApplicationState, AppUrl};
use async_tracing::connection::{AppUpdate, Command, Connection, Event};
use async_tracing::error::Error;
use async_tracing::state::LoadOutcome;
use async_tracing::state_manager::StateManager;
use async_tracing::wire;

fn command_channel() -> Connection {
    let (tx, _rx) = tokio::sync::mpsc::channel::<Command>(100);
    Connection::new(tx)
}

fn fresh_manager() -> StateManager {
    StateManager::new(LoadOutcome::Missing, LoadOutcome::Missing, None).unwrap()
}

fn url(text: &str, port: Option<u16>) -> AppUrl {
    AppUrl { text: text.to_string(), port }
}

fn ts(seconds: i64, nanos: i32) -> wire::Timestamp {
    wire::Timestamp { seconds, nanos }
}

fn spawn_update(span_id: u64, name: &str) -> wire::Update {
    wire::Update {
        task_update: Some(wire::TaskUpdate {
            new_tasks: vec![wire::Task {
                id: Some(span_id),
                kind: 0,
                fields: vec![wire::Field {
                    name: Some(wire::FieldName::StrName("task.name".to_string())),
                    value: Some(wire::FieldValue::StrVal(name.to_string())),
                }],
                location: None,
            }],
            stats_update: vec![(
                span_id,
                wire::Stats {
                    created_at: Some(ts(100, 0)),
                    dropped_at: None,
                    last_wake: None,
                    poll_stats: Some(wire::PollStats {
                        busy_time: None,
                        last_poll_started: None,
                        last_poll_ended: None,
                    }),
                    scheduled_time: None,
                },
            )],
        }),
    }
}

#[test]
fn parse_url_extracts_the_explicit_port() {
    let parsed = parse_url("http://127.0.0.1:6669").unwrap();
    assert_eq!(parsed.port, Some(6669));
    assert_eq!(parsed.text, "http://127.0.0.1:6669/");
    let parsed = parse_url("http://example.com/metrics").unwrap();
    assert_eq!(parsed.port, None);
    assert!(matches!(parse_url("not a url"), Err(Error::Url(_))));
}

#[test]
fn startup_fails_only_on_a_missing_storage_directory() {
    let result = StateManager::new(
        LoadOutcome::Missing,
        LoadOutcome::Missing,
        Some("/home/user/.async-tracing".to_string()),
    );
    match result {
        Err(err) => assert_eq!(
            err,
            Error::CannotCreateStorage { path: "/home/user/.async-tracing".to_string() }
        ),
        Ok(_) => panic!("startup accepted a missing storage directory"),
    }
    // A collection that would not decode falls back to a fresh store.
    let sm = StateManager::new(
        LoadOutcome::Malformed("bad".to_string()),
        LoadOutcome::Missing,
        None,
    )
    .unwrap();
    assert_eq!(sm.state.get_current_applications_list().len(), 0);
}

#[test]
fn startup_prunes_tasks_of_unknown_applications() {
    // Seed a registry with one application and one task, then replay the
    // persisted collections with an extra task whose owner is gone.
    let mut seed = fresh_manager();
    seed.register_application(
        1,
        "one".to_string(),
        url("http://127.0.0.1:6669/", Some(6669)),
        Some(4242),
        Some(1_700_000_000),
        command_channel(),
    )
    .unwrap();
    let (owned, _) = seed.handle_event(1, Event::TaskUpdate(spawn_update(17, "kept")));
    let mut tasks = owned.unwrap();
    let mut orphan = tasks[0].clone();
    orphan.app_id = 99;
    orphan.name = Some("orphan".to_string());
    tasks.push(orphan);
    let apps = seed.state.get_current_applications_list();

    let sm = StateManager::new(LoadOutcome::Loaded(apps), LoadOutcome::Loaded(tasks), None)
        .unwrap();
    let loaded = sm.state.get_tasks();
    assert_eq!(loaded.len(), 1);
    assert_eq!(loaded[0].id(), (1, 17));
    assert_eq!(loaded[0].name.as_deref(), Some("kept"));
}

#[test]
fn add_application_without_port_fails_with_pid_not_found() {
    let mut sm = fresh_manager();
    let err = sm
        .add_application(
            "demo".to_string(),
            url("http://example.com/", None),
            Some(4242),
            Some(1_700_000_000),
            command_channel(),
        )
        .unwrap_err();
    assert_eq!(err, Error::PIDNotFound { url: "http://example.com/".to_string() });
    assert_eq!(sm.state.get_current_applications_list().len(), 0);
}

#[test]
fn add_application_without_listener_fails_with_pid_not_found() {
    let mut sm = fresh_manager();
    let err = sm
        .add_application(
            "demo".to_string(),
            url("http://127.0.0.1:6669/", Some(6669)),
            None,
            None,
            command_channel(),
        )
        .unwrap_err();
    assert_eq!(err, Error::PIDNotFound { url: "http://127.0.0.1:6669/".to_string() });
}

#[test]
fn add_application_registers_and_enables() {
    let mut sm = fresh_manager();
    let id = sm
        .add_application(
            "demo".to_string(),
            url("http://127.0.0.1:6669/", Some(6669)),
            Some(4242),
            Some(1_700_000_000),
            command_channel(),
        )
        .unwrap();
    let list = sm.state.get_current_applications_list();
    assert_eq!(list.len(), 1);
    assert_eq!(list[0].id, id);
    assert_eq!(list[0].pid, 4242);
    assert_eq!(list[0].state, ApplicationState::Enabled);
    assert_eq!(list[0].start_time, 1_700_000_000);
    assert_eq!(list[0].cpu_usage, 0);
    assert_eq!(list[0].memory_usage, 0);
}

#[test]
fn register_application_refuses_a_live_id() {
    let mut sm = fresh_manager();
    let id = sm
        .register_application(
            7,
            "demo".to_string(),
            url("http://127.0.0.1:6669/", Some(6669)),
            Some(4242),
            Some(1_700_000_000),
            command_channel(),
        )
        .unwrap();
    assert_eq!(id, 7);
    let err = sm
        .register_application(
            7,
            "again".to_string(),
            url("http://127.0.0.1:6670/", Some(6670)),
            Some(4243),
            Some(1_700_000_001),
            command_channel(),
        )
        .unwrap_err();
    assert_eq!(err, Error::ApplicationAlreadyConnected(7));
    let list = sm.state.get_current_applications_list();
    assert_eq!(list.len(), 1);
    assert_eq!(list[0].title, "demo");
}

#[test]
fn add_then_disable_then_updates_are_ignored() {
    let mut sm = fresh_manager();
    let id = sm
        .add_application(
            "demo".to_string(),
            url("http://127.0.0.1:6669/", Some(6669)),
            Some(4242),
            Some(1_700_000_000),
            command_channel(),
        )
        .unwrap();
    // While enabled, a task update lands in the table.
    let (tasks_written, _) = sm.handle_event(id, Event::TaskUpdate(spawn_update(17, "worker")));
    assert_eq!(tasks_written.unwrap().len(), 1);
    // Disabling detaches the command handle...
    let (handle, snapshot) = sm.disable_application(id);
    assert!(handle.is_some());
    assert_eq!(snapshot[0].state, ApplicationState::Disabled);
    // ...and any further task update for the id is a no-op.
    let (tasks_written, _) = sm.handle_event(id, Event::TaskUpdate(spawn_update(18, "late")));
    assert!(tasks_written.is_none());
    let tasks = sm.state.get_tasks();
    assert_eq!(tasks.len(), 1);
    assert_eq!(tasks[0].id(), (id, 17));
}

#[test]
fn metrics_samples_refresh_enabled_applications_only() {
    let mut sm = fresh_manager();
    let id = sm
        .add_application(
            "demo".to_string(),
            url("http://127.0.0.1:6669/", Some(6669)),
            Some(4242),
            Some(1_700_000_000),
            command_channel(),
        )
        .unwrap();
    let sample = AppUpdate { cpu_usage: 1250, memory_usage: 1 << 20 };
    let (_, apps_written) = sm.handle_event(id, Event::ApplicationUpdated(sample));
    let snapshot = apps_written.unwrap();
    assert_eq!(snapshot[0].cpu_usage, 1250);
    assert_eq!(snapshot[0].memory_usage, 1 << 20);
    sm.disable_application(id);
    let sample = AppUpdate { cpu_usage: 9999, memory_usage: 2 };
    let (_, apps_written) = sm.handle_event(id, Event::ApplicationUpdated(sample));
    assert!(apps_written.is_none());
    let list = sm.state.get_current_applications_list();
    assert_eq!(list[0].cpu_usage, 1250);
}

#[test]
fn lifecycle_events_are_ignored_by_the_store() {
    let mut sm = fresh_manager();
    let (t, a) = sm.handle_event(1, Event::Connecting);
    assert!(t.is_none() && a.is_none());
    let (t, a) = sm.handle_event(1, Event::Connected);
    assert!(t.is_none() && a.is_none());
    let (t, a) = sm.handle_event(1, Event::Disconnected);
    assert!(t.is_none() && a.is_none());
}

#[test]
fn delete_connection_removes_the_application_and_its_tasks() {
    let mut sm = fresh_manager();
    let id = sm
        .add_application(
            "demo".to_string(),
            url("http://127.0.0.1:6669/", Some(6669)),
            Some(4242),
            Some(1_700_000_000),
            command_channel(),
        )
        .unwrap();
    sm.handle_event(id, Event::TaskUpdate(spawn_update(17, "worker")));
    let (apps, tasks) = sm.delete_connection(id);
    assert_eq!(apps.len(), 0);
    assert_eq!(tasks.len(), 0);
}

#[test]
fn reconnect_all_enables_what_connected_and_disables_the_rest() {
    // A persisted registry with two applications, both recorded enabled.
    let mut seed = fresh_manager();
    seed.register_application(
        1,
        "one".to_string(),
        url("http://127.0.0.1:6669/", Some(6669)),
        Some(4242),
        Some(1_700_000_000),
        command_channel(),
    )
    .unwrap();
    seed.register_application(
        2,
        "two".to_string(),
        url("http://127.0.0.1:6670/", Some(6670)),
        Some(4243),
        Some(1_700_000_001),
        command_channel(),
    )
    .unwrap();
    let persisted = seed.state.get_current_applications_list();

    // Restart: only the first target's supervisor could be spawned.
    let mut sm =
        StateManager::new(LoadOutcome::Loaded(persisted), LoadOutcome::Missing, None).unwrap();
    sm.reconnect_all_apps(vec![(1, command_channel())]);
    let list = sm.state.get_current_applications_list();
    let one = list.iter().find(|r| r.id == 1).unwrap();
    let two = list.iter().find(|r| r.id == 2).unwrap();
    assert_eq!(one.state, ApplicationState::Enabled);
    // The failed target remains registered but disabled.
    assert_eq!(two.state, ApplicationState::Disabled);
    // Its old pid is still on record for the next probe.
    assert_eq!(two.pid, 4243);
}
