use async_tracing::connection::{
    supervisor_step, AppUpdate, Command, Event, SupervisorInput, SupervisorState,
};
use async_tracing::error::Error;
use async_tracing::wire;

fn empty_update() -> wire::Update {
    wire::Update { task_update: None }
}

#[test]
fn startup_announces_the_first_attempt() {
    let (next, event) = supervisor_step(SupervisorState::Idle, SupervisorInput::Started);
    assert_eq!(next, SupervisorState::Connecting);
    assert!(matches!(event, Some(Event::Connecting)));
}

#[test]
fn a_successful_attempt_starts_streaming() {
    let (next, event) = supervisor_step(SupervisorState::Connecting, SupervisorInput::ConnectOk);
    assert_eq!(next, SupervisorState::Streaming);
    assert!(matches!(event, Some(Event::Connected)));
}

#[test]
fn a_failed_attempt_backs_off_with_an_error() {
    let (next, event) = supervisor_step(
        SupervisorState::Connecting,
        SupervisorInput::ConnectErr("refused".to_string()),
    );
    assert_eq!(next, SupervisorState::Backoff);
    match event {
        Some(Event::Error(Error::Transport(message))) => assert_eq!(message, "refused"),
        other => panic!("expected a transport error event, got {:?}", other),
    }
}

#[test]
fn reconnect_storm_emits_one_error_per_attempt() {
    // Three failed attempts, each followed by the back-off delay, then a
    // fourth that succeeds.
    let mut state = SupervisorState::Connecting;
    let mut events: Vec<Event> = Vec::new();
    for _ in 0..3 {
        let (next, event) =
            supervisor_step(state, SupervisorInput::ConnectErr("refused".to_string()));
        events.extend(event);
        assert_eq!(next, SupervisorState::Backoff);
        let (next, event) = supervisor_step(next, SupervisorInput::BackoffElapsed);
        events.extend(event);
        assert_eq!(next, SupervisorState::Connecting);
        state = next;
    }
    let (next, event) = supervisor_step(state, SupervisorInput::ConnectOk);
    events.extend(event);
    assert_eq!(next, SupervisorState::Streaming);
    let errors = events
        .iter()
        .filter(|e| matches!(e, Event::Error(_)))
        .count();
    assert_eq!(errors, 3);
    // No task events between the errors.
    assert!(events.iter().all(|e| !matches!(e, Event::TaskUpdate(_))));
    assert!(matches!(events.last(), Some(Event::Connected)));
}

#[test]
fn streaming_forwards_messages_and_samples() {
    let (next, event) = supervisor_step(
        SupervisorState::Streaming,
        SupervisorInput::StreamMsg(empty_update()),
    );
    assert_eq!(next, SupervisorState::Streaming);
    assert!(matches!(event, Some(Event::TaskUpdate(_))));

    let sample = AppUpdate { cpu_usage: 100, memory_usage: 2048 };
    let (next, event) =
        supervisor_step(SupervisorState::Streaming, SupervisorInput::Tick(Some(sample)));
    assert_eq!(next, SupervisorState::Streaming);
    match event {
        Some(Event::ApplicationUpdated(s)) => assert_eq!(s, sample),
        other => panic!("expected a metrics event, got {:?}", other),
    }
    // A tick whose probe saw nothing emits nothing.
    let (next, event) = supervisor_step(SupervisorState::Streaming, SupervisorInput::Tick(None));
    assert_eq!(next, SupervisorState::Streaming);
    assert!(event.is_none());
}

#[test]
fn stream_failure_and_closure_reconnect_silently() {
    let (next, event) = supervisor_step(SupervisorState::Streaming, SupervisorInput::StreamErr);
    assert_eq!(next, SupervisorState::Connecting);
    assert!(event.is_none());
    let (next, event) = supervisor_step(SupervisorState::Streaming, SupervisorInput::StreamClosed);
    assert_eq!(next, SupervisorState::Connecting);
    assert!(event.is_none());
}

#[test]
fn a_command_halts_from_every_live_state() {
    for state in [
        SupervisorState::Idle,
        SupervisorState::Connecting,
        SupervisorState::Streaming,
        SupervisorState::Backoff,
    ] {
        let (next, event) =
            supervisor_step(state, SupervisorInput::Command(Some(Command::Disconnect)));
        assert_eq!(next, SupervisorState::Terminated);
        assert!(matches!(event, Some(Event::Disconnected)));
        // A closed inbox is the same shutdown signal.
        let (next, event) = supervisor_step(state, SupervisorInput::Command(None));
        assert_eq!(next, SupervisorState::Terminated);
        assert!(matches!(event, Some(Event::Disconnected)));
    }
}

#[test]
fn nothing_follows_disconnected() {
    let (state, event) = supervisor_step(
        SupervisorState::Streaming,
        SupervisorInput::Command(Some(Command::Disconnect)),
    );
    assert!(matches!(event, Some(Event::Disconnected)));
    let followups = [
        SupervisorInput::Started,
        SupervisorInput::ConnectOk,
        SupervisorInput::ConnectErr("refused".to_string()),
        SupervisorInput::StreamMsg(empty_update()),
        SupervisorInput::StreamErr,
        SupervisorInput::StreamClosed,
        SupervisorInput::Tick(Some(AppUpdate { cpu_usage: 1, memory_usage: 1 })),
        SupervisorInput::BackoffElapsed,
        SupervisorInput::Command(Some(Command::Disconnect)),
    ];
    let mut current = state;
    for input in followups {
        let (next, event) = supervisor_step(current, input);
        assert_eq!(next, SupervisorState::Terminated);
        assert!(event.is_none());
        current = next;
    }
}
