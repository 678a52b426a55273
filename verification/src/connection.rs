use vstd::prelude::*;

use crate::error::Error;
use crate::wire;

verus! {

/// Declares the bounded channel send-capability of the async runtime, used
/// only as an opaque value carried in application records and handed back to
/// the shell for the actual send.
#[verifier::external_type_specification]
#[verifier::external_body]
#[verifier::reject_recursive_types(T)]
pub struct ExSender<T>(tokio::sync::mpsc::Sender<T>);

/// A command sent into one supervisor's inbox.
#[derive(Debug)]
pub enum Command {
    Disconnect,
}

/// A sample of the host-process metrics of one target, taken once per tick.
/// The processor share is in hundredths of a percent, the resident memory in
/// bytes.
#[derive(Debug, Clone, Copy, PartialEq, Eq, Structural)]
pub struct AppUpdate {
    pub cpu_usage: u32,
    pub memory_usage: u64,
}

/// A lifecycle event emitted by one supervisor, tagged with its target's id
/// on the shared event channel.
#[derive(Debug)]
pub enum Event {
    Connecting,
    Connected,
    TaskUpdate(wire::Update),
    ApplicationUpdated(AppUpdate),
    Error(Error),
    Disconnected,
}

/// The send-capability into one supervisor's command inbox. Dropping it
/// closes the inbox, which the supervisor takes as its shutdown signal; an
/// explicit `Disconnect` is the preferred path when the target is disabled
/// rather than deleted.
pub struct Connection {
    pub commands: tokio::sync::mpsc::Sender<Command>,
}

impl Connection {
    pub fn new(commands: tokio::sync::mpsc::Sender<Command>) -> (r: Connection)
        ensures
            r == (Connection { commands }),
    {
        Connection { commands }
    }
}

// The per-target supervisor is a single cooperative task owning one
// streaming subscription. Everything it awaits — the connection attempt, the
// next stream message, the next command, the sampling tick, the back-off
// sleep — lives in the shell; what it decides lives here, as a state
// machine: from the current state and the awaited outcome to the next state
// and the event to emit.

/// Connection lifecycle states of one supervisor.
#[derive(Debug, Clone, Copy, PartialEq, Eq, Structural)]
pub enum SupervisorState {
    /// Initial: the supervisor has not started work yet.
    Idle,
    /// A connection attempt is in flight.
    Connecting,
    /// The subscription is live and messages are being consumed.
    Streaming,
    /// The last attempt failed; waiting out the fixed one-second delay.
    Backoff,
    /// Final: the supervisor has halted and emits nothing further.
    Terminated,
}

/// What one suspension point of the supervisor resolved to.
#[derive(Debug)]
pub enum SupervisorInput {
    /// The supervisor task began running.
    Started,
    /// The connection attempt succeeded.
    ConnectOk,
    /// The connection attempt failed; carries the transport's message.
    ConnectErr(String),
    /// The stream yielded a message.
    StreamMsg(wire::Update),
    /// The stream reported an error.
    StreamErr,
    /// The stream ended.
    StreamClosed,
    /// The sampling tick fired; carries the probe's reading, absent when the
    /// probe could not see the process this tick.
    Tick(Option<AppUpdate>),
    /// The back-off delay elapsed.
    BackoffElapsed,
    /// The command inbox yielded a command, or closed (`None`).
    Command(Option<Command>),
}

/// The supervisor transition relation: next state and the event to emit, if
/// any. A command or a closed inbox halts the machine from any live state;
/// the transition into `Terminated` emits `Disconnected`, and `Terminated`
/// is absorbing and silent.
pub open spec fn supervisor_step_spec(state: SupervisorState, input: SupervisorInput) -> (
    SupervisorState,
    Option<Event>,
) {
    match state {
        SupervisorState::Terminated => (SupervisorState::Terminated, None),
        SupervisorState::Idle => match input {
            SupervisorInput::Started => (SupervisorState::Connecting, Some(Event::Connecting)),
            SupervisorInput::Command(_) => (
                SupervisorState::Terminated,
                Some(Event::Disconnected),
            ),
            _ => (SupervisorState::Idle, None),
        },
        SupervisorState::Connecting => match input {
            SupervisorInput::ConnectOk => (SupervisorState::Streaming, Some(Event::Connected)),
            SupervisorInput::ConnectErr(e) => (
                SupervisorState::Backoff,
                Some(Event::Error(Error::Transport(e))),
            ),
            SupervisorInput::Command(_) => (
                SupervisorState::Terminated,
                Some(Event::Disconnected),
            ),
            _ => (SupervisorState::Connecting, None),
        },
        SupervisorState::Streaming => match input {
            SupervisorInput::StreamMsg(u) => (
                SupervisorState::Streaming,
                Some(Event::TaskUpdate(u)),
            ),
            SupervisorInput::StreamErr => (SupervisorState::Connecting, None),
            SupervisorInput::StreamClosed => (SupervisorState::Connecting, None),
            SupervisorInput::Tick(sample) => match sample {
                Some(s) => (SupervisorState::Streaming, Some(Event::ApplicationUpdated(s))),
                None => (SupervisorState::Streaming, None),
            },
            SupervisorInput::Command(_) => (
                SupervisorState::Terminated,
                Some(Event::Disconnected),
            ),
            _ => (SupervisorState::Streaming, None),
        },
        SupervisorState::Backoff => match input {
            SupervisorInput::BackoffElapsed => (
                SupervisorState::Connecting,
                Some(Event::Connecting),
            ),
            SupervisorInput::Command(_) => (
                SupervisorState::Terminated,
                Some(Event::Disconnected),
            ),
            _ => (SupervisorState::Backoff, None),
        },
    }
}

/// One supervisor transition.
pub fn supervisor_step(state: SupervisorState, input: SupervisorInput) -> (r: (
    SupervisorState,
    Option<Event>,
))
    ensures
        r == supervisor_step_spec(state, input),
{
    match state {
        SupervisorState::Terminated => (SupervisorState::Terminated, None),
        SupervisorState::Idle => match input {
            SupervisorInput::Started => (SupervisorState::Connecting, Some(Event::Connecting)),
            SupervisorInput::Command(_) => (
                SupervisorState::Terminated,
                Some(Event::Disconnected),
            ),
            _ => (SupervisorState::Idle, None),
        },
        SupervisorState::Connecting => match input {
            SupervisorInput::ConnectOk => (SupervisorState::Streaming, Some(Event::Connected)),
            SupervisorInput::ConnectErr(e) => (
                SupervisorState::Backoff,
                Some(Event::Error(Error::Transport(e))),
            ),
            SupervisorInput::Command(_) => (
                SupervisorState::Terminated,
                Some(Event::Disconnected),
            ),
            _ => (SupervisorState::Connecting, None),
        },
        SupervisorState::Streaming => match input {
            SupervisorInput::StreamMsg(u) => (
                SupervisorState::Streaming,
                Some(Event::TaskUpdate(u)),
            ),
            SupervisorInput::StreamErr => (SupervisorState::Connecting, None),
            SupervisorInput::StreamClosed => (SupervisorState::Connecting, None),
            SupervisorInput::Tick(sample) => match sample {
                Some(s) => (SupervisorState::Streaming, Some(Event::ApplicationUpdated(s))),
                None => (SupervisorState::Streaming, None),
            },
            SupervisorInput::Command(_) => (
                SupervisorState::Terminated,
                Some(Event::Disconnected),
            ),
            _ => (SupervisorState::Streaming, None),
        },
        SupervisorState::Backoff => match input {
            SupervisorInput::BackoffElapsed => (
                SupervisorState::Connecting,
                Some(Event::Connecting),
            ),
            SupervisorInput::Command(_) => (
                SupervisorState::Terminated,
                Some(Event::Disconnected),
            ),
            _ => (SupervisorState::Backoff, None),
        },
    }
}

/// The events of one transition as a sequence: none or one.
pub open spec fn emitted(e: Option<Event>) -> Seq<Event> {
    match e {
        Some(ev) => seq![ev],
        None => Seq::empty(),
    }
}

/// A whole supervisor run: fold the transition relation over a sequence of
/// awaited outcomes, collecting the emitted events in order.
pub open spec fn supervisor_run(state: SupervisorState, inputs: Seq<SupervisorInput>) -> (
    SupervisorState,
    Seq<Event>,
)
    decreases inputs.len(),
{
    if inputs.len() == 0 {
        (state, Seq::empty())
    } else {
        let step = supervisor_step_spec(state, inputs[0]);
        let rest = supervisor_run(step.0, inputs.drop_first());
        (rest.0, emitted(step.1) + rest.1)
    }
}

/// `Disconnected` is only ever emitted by the transition into `Terminated`.
pub proof fn lemma_disconnected_enters_terminated(state: SupervisorState, input: SupervisorInput)
    ensures
        (supervisor_step_spec(state, input).1 matches Some(e) && e is Disconnected)
            ==> supervisor_step_spec(state, input).0 is Terminated,
{
}

/// A terminated supervisor stays terminated and emits nothing, whatever it
/// observes.
pub proof fn lemma_terminated_is_silent(inputs: Seq<SupervisorInput>)
    ensures
        supervisor_run(SupervisorState::Terminated, inputs).0 is Terminated,
        supervisor_run(SupervisorState::Terminated, inputs).1 =~= Seq::<Event>::empty(),
    decreases inputs.len(),
{
    if inputs.len() > 0 {
        lemma_terminated_is_silent(inputs.drop_first());
    }
}

/// After a supervisor emits `Disconnected`, it emits no further events: any
/// transition that emits it lands in `Terminated`, and every continuation of
/// the run from there is silent.
pub proof fn lemma_silent_after_disconnected(
    state: SupervisorState,
    input: SupervisorInput,
    rest: Seq<SupervisorInput>,
)
    requires
        supervisor_step_spec(state, input).1 matches Some(e) && e is Disconnected,
    ensures
        supervisor_run(supervisor_step_spec(state, input).0, rest).1 =~= Seq::<Event>::empty(),
{
    lemma_disconnected_enters_terminated(state, input);
    lemma_terminated_is_silent(rest);
}

} // verus!
