use vstd::prelude::*;

verus! {

// Mirrors of the decoded instrument-protocol messages, restricted to the
// fields that the reconciliation logic reads, all as plain values. The
// embedding shell converts the transport layer's decoded messages into these
// records before handing them to the core.

/// A wall-clock instant: whole seconds since the epoch plus a sub-second
/// nanosecond part, as carried on the wire.
#[derive(Debug, Clone, Copy, PartialEq, Eq, Structural)]
pub struct Timestamp {
    pub seconds: i64,
    pub nanos: i32,
}

/// A span of time: whole seconds plus a sub-second nanosecond part, as
/// carried on the wire.
#[derive(Debug, Clone, Copy, PartialEq, Eq, Structural)]
pub struct Duration {
    pub seconds: i64,
    pub nanos: i32,
}

/// The key of a key-value pair attached to a task span: either a literal
/// string or an index into the span metadata's name table.
#[derive(Debug, Clone, PartialEq, Eq)]
pub enum FieldName {
    StrName(String),
    NameIdx(u64),
}

/// The value of a key-value pair attached to a task span.
#[derive(Debug, Clone, PartialEq, Eq)]
pub enum FieldValue {
    DebugVal(String),
    StrVal(String),
    U64Val(u64),
    I64Val(i64),
    BoolVal(bool),
}

/// One key-value pair attached to a task span.
#[derive(Debug, Clone, PartialEq, Eq)]
pub struct Field {
    pub name: Option<FieldName>,
    pub value: Option<FieldValue>,
}

/// The source location at which a task was spawned.
#[derive(Debug, Clone, PartialEq, Eq)]
pub struct Location {
    pub file: Option<String>,
    pub module: Option<String>,
    pub line: Option<u32>,
    pub column: Option<u32>,
}

/// A task as announced in the `new_tasks` part of an update: its span id,
/// its kind discriminant, its fields, and where it was spawned.
#[derive(Debug, Clone, PartialEq, Eq)]
pub struct Task {
    pub id: Option<u64>,
    pub kind: i32,
    pub fields: Vec<Field>,
    pub location: Option<Location>,
}

/// Poll statistics of one task.
#[derive(Debug, Clone, Copy, PartialEq, Eq, Structural)]
pub struct PollStats {
    pub busy_time: Option<Duration>,
    pub last_poll_started: Option<Timestamp>,
    pub last_poll_ended: Option<Timestamp>,
}

/// A complete statistics snapshot of one task.
#[derive(Debug, Clone, Copy, PartialEq, Eq, Structural)]
pub struct Stats {
    pub created_at: Option<Timestamp>,
    pub dropped_at: Option<Timestamp>,
    pub last_wake: Option<Timestamp>,
    pub poll_stats: Option<PollStats>,
    pub scheduled_time: Option<Duration>,
}

/// The task part of one update message: freshly spawned tasks plus a
/// statistics snapshot per changed task, keyed by task span id.
#[derive(Debug, Clone, PartialEq, Eq)]
pub struct TaskUpdate {
    pub new_tasks: Vec<Task>,
    pub stats_update: Vec<(u64, Stats)>,
}

/// One message of the instrument stream.
#[derive(Debug, Clone, PartialEq, Eq)]
pub struct Update {
    pub task_update: Option<TaskUpdate>,
}

// Mathematical views of the records above. Strings become character
// sequences and vectors become sequences, so that contracts can speak of the
// contents independently of heap identity.

pub ghost enum FieldNameView {
    StrName(Seq<char>),
    NameIdx(u64),
}

pub ghost enum FieldValueView {
    DebugVal(Seq<char>),
    StrVal(Seq<char>),
    U64Val(u64),
    I64Val(i64),
    BoolVal(bool),
}

pub ghost struct FieldView {
    pub name: Option<FieldNameView>,
    pub value: Option<FieldValueView>,
}

pub ghost struct LocationView {
    pub file: Option<Seq<char>>,
    pub module: Option<Seq<char>>,
    pub line: Option<u32>,
    pub column: Option<u32>,
}

pub ghost struct TaskView {
    pub id: Option<u64>,
    pub kind: i32,
    pub fields: Seq<FieldView>,
    pub location: Option<LocationView>,
}

pub ghost struct TaskUpdateView {
    pub new_tasks: Seq<TaskView>,
    pub stats_update: Seq<(u64, Stats)>,
}

impl View for FieldName {
    type V = FieldNameView;

    open spec fn view(&self) -> FieldNameView {
        match self {
            FieldName::StrName(s) => FieldNameView::StrName(s@),
            FieldName::NameIdx(i) => FieldNameView::NameIdx(*i),
        }
    }
}

impl View for FieldValue {
    type V = FieldValueView;

    open spec fn view(&self) -> FieldValueView {
        match self {
            FieldValue::DebugVal(s) => FieldValueView::DebugVal(s@),
            FieldValue::StrVal(s) => FieldValueView::StrVal(s@),
            FieldValue::U64Val(v) => FieldValueView::U64Val(*v),
            FieldValue::I64Val(v) => FieldValueView::I64Val(*v),
            FieldValue::BoolVal(v) => FieldValueView::BoolVal(*v),
        }
    }
}

impl DeepView for FieldName {
    type V = FieldNameView;

    open spec fn deep_view(&self) -> FieldNameView {
        self.view()
    }
}

impl DeepView for FieldValue {
    type V = FieldValueView;

    open spec fn deep_view(&self) -> FieldValueView {
        self.view()
    }
}

impl View for Field {
    type V = FieldView;

    open spec fn view(&self) -> FieldView {
        FieldView { name: self.name.deep_view(), value: self.value.deep_view() }
    }
}

impl DeepView for Field {
    type V = FieldView;

    open spec fn deep_view(&self) -> FieldView {
        self.view()
    }
}

impl View for Location {
    type V = LocationView;

    open spec fn view(&self) -> LocationView {
        LocationView {
            file: self.file.deep_view(),
            module: self.module.deep_view(),
            line: self.line,
            column: self.column,
        }
    }
}

impl DeepView for Location {
    type V = LocationView;

    open spec fn deep_view(&self) -> LocationView {
        self.view()
    }
}

impl View for Task {
    type V = TaskView;

    open spec fn view(&self) -> TaskView {
        TaskView {
            id: self.id,
            kind: self.kind,
            fields: self.fields.deep_view(),
            location: self.location.deep_view(),
        }
    }
}

impl DeepView for Task {
    type V = TaskView;

    open spec fn deep_view(&self) -> TaskView {
        self.view()
    }
}

impl View for TaskUpdate {
    type V = TaskUpdateView;

    open spec fn view(&self) -> TaskUpdateView {
        TaskUpdateView { new_tasks: self.new_tasks.deep_view(), stats_update: self.stats_update@ }
    }
}

impl View for Update {
    type V = Option<TaskUpdateView>;

    open spec fn view(&self) -> Option<TaskUpdateView> {
        match &self.task_update {
            Some(tu) => Some(tu@),
            None => None,
        }
    }
}

} // verus!
