use vstd::prelude::*;

use crate::task::{decode_stats, stats_decodable, Task, TaskLocation, TaskStats, TaskView};
use crate::wire;

verus! {

/// Whether a wire field carries the given literal name.
pub open spec fn field_name_matches(f: wire::FieldView, name: Seq<char>) -> bool {
    match f.name {
        Some(wire::FieldNameView::StrName(s)) => s == name,
        _ => false,
    }
}

/// The first field with the given name, if any.
pub open spec fn find_field_spec(fields: Seq<wire::FieldView>, name: Seq<char>) -> Option<
    wire::FieldView,
>
    decreases fields.len(),
{
    if fields.len() == 0 {
        None
    } else if field_name_matches(fields[0], name) {
        Some(fields[0])
    } else {
        find_field_spec(fields.drop_first(), name)
    }
}

/// The unsigned value of the first field with the given name, if that field
/// exists and carries one.
pub open spec fn field_u64(fields: Seq<wire::FieldView>, name: Seq<char>) -> Option<u64> {
    match find_field_spec(fields, name) {
        Some(f) => match f.value {
            Some(wire::FieldValueView::U64Val(v)) => Some(v),
            _ => None,
        },
        None => None,
    }
}

/// The text of the first field with the given name, if that field exists and
/// carries a string or debug-rendered value.
pub open spec fn field_string(fields: Seq<wire::FieldView>, name: Seq<char>) -> Option<Seq<char>> {
    match find_field_spec(fields, name) {
        Some(f) => match f.value {
            Some(wire::FieldValueView::StrVal(s)) => Some(s),
            Some(wire::FieldValueView::DebugVal(s)) => Some(s),
            _ => None,
        },
        None => None,
    }
}

/// Relies on `str::eq` through `==`: character-for-character comparison.
#[verifier::external_body]
fn str_eq(a: &str, b: &str) -> (r: bool)
    ensures
        r == (a@ == b@),
{
    a == b
}

fn find_field<'a>(task: &'a wire::Task, field_name: &str) -> (r: Option<&'a wire::Field>)
    ensures
        match r {
            Some(f) => find_field_spec(task@.fields, field_name@) == Some(f@),
            None => find_field_spec(task@.fields, field_name@) is None,
        },
{
    let ghost fields: Seq<wire::FieldView> = task@.fields;
    proof {
        assert(fields.skip(0) =~= fields);
    }
    let mut i: usize = 0;
    while i < task.fields.len()
        invariant
            i <= task.fields.len(),
            fields == task@.fields,
            fields.len() == task.fields.len(),
            find_field_spec(fields, field_name@) == find_field_spec(
                fields.skip(i as int),
                field_name@,
            ),
        decreases task.fields.len() - i,
    {
        let field = &task.fields[i];
        let hit: bool = match &field.name {
            Some(wire::FieldName::StrName(s)) => str_eq(s.as_str(), field_name),
            _ => false,
        };
        proof {
            assert(fields.skip(i as int)[0] == fields[i as int]);
            assert(fields.skip(i as int).drop_first() =~= fields.skip(i as int + 1));
        }
        if hit {
            return Some(field);
        }
        i = i + 1;
    }
    proof {
        assert(fields.skip(i as int).len() == 0);
    }
    None
}

fn read_field_value_u64(task: &wire::Task, field_name: &str) -> (r: Option<u64>)
    ensures
        r == field_u64(task@.fields, field_name@),
{
    if let Some(field) = find_field(task, field_name) {
        match &field.value {
            Some(wire::FieldValue::U64Val(value)) => Some(*value),
            _ => None,
        }
    } else {
        None
    }
}

fn read_field_value_string<'a>(task: &'a wire::Task, field_name: &str) -> (r: Option<&'a String>)
    ensures
        match r {
            Some(s) => field_string(task@.fields, field_name@) == Some(s@),
            None => field_string(task@.fields, field_name@) is None,
        },
{
    if let Some(field) = find_field(task, field_name) {
        match &field.value {
            Some(wire::FieldValue::DebugVal(value)) => Some(value),
            Some(wire::FieldValue::StrVal(value)) => Some(value),
            _ => None,
        }
    } else {
        None
    }
}

/// The protocol name of a task-kind discriminant.
pub open spec fn kind_label(kind: i32) -> Option<Seq<char>> {
    if kind == 0 {
        Some("SPAWN"@)
    } else if kind == 1 {
        Some("BLOCKING"@)
    } else {
        None
    }
}

/// Relies on the instrument protocol's task-kind enum: its integer decode
/// accepts exactly the discriminants 0 and 1, and its name rendering maps
/// those to the protocol names SPAWN and BLOCKING.
#[verifier::external_body]
fn kind_str(kind: i32) -> (r: Option<&'static str>)
    ensures
        match r {
            Some(s) => kind_label(kind) == Some(s@),
            None => kind_label(kind) is None,
        },
{
    console_api::tasks::task::Kind::try_from(kind).map(|k| k.as_str_name()).ok()
}

/// Whether a spawned-task announcement together with its statistics snapshot
/// decodes to a task record: the span id must be present and the snapshot
/// well formed.
pub open spec fn task_decodable(t: wire::TaskView, s: wire::Stats) -> bool {
    &&& t.id is Some
    &&& stats_decodable(s)
}

/// The decoded task record: the logical task id is read from the field named
/// `task.id`, the label from the field named `task.name`, the kind from the
/// protocol's name for the kind discriminant, and the location is copied.
pub open spec fn decode_task(app_id: u128, t: wire::TaskView, s: wire::Stats) -> TaskView
    recommends
        task_decodable(t, s),
{
    TaskView {
        app_id,
        id: t.id->0,
        tid: field_u64(t.fields, "task.id"@),
        name: field_string(t.fields, "task.name"@),
        kind: kind_label(t.kind),
        location: t.location,
        task_stats: decode_stats(s),
    }
}

/// Decode one spawned-task announcement and its statistics snapshot into a
/// task record of the table; `None` exactly when the pair is malformed.
pub fn map_to_domain_task(app_id: u128, task: &wire::Task, task_stats_recv: &wire::Stats) -> (r:
    Option<Task>)
    ensures
        match r {
            Some(t) => task_decodable(task@, *task_stats_recv) && t@ == decode_task(
                app_id,
                task@,
                *task_stats_recv,
            ),
            None => !task_decodable(task@, *task_stats_recv),
        },
{
    let id = match &task.id {
        Some(value) => *value,
        None => {
            return None;
        },
    };
    let task_stats = match TaskStats::from_wire(task_stats_recv) {
        Some(ts) => ts,
        None => {
            return None;
        },
    };
    let tid = read_field_value_u64(task, "task.id");
    let name = match read_field_value_string(task, "task.name") {
        Some(s) => Some(s.clone()),
        None => None,
    };
    let kind = match kind_str(task.kind) {
        Some(s) => Some(s.to_owned()),
        None => None,
    };
    let location = match &task.location {
        Some(loc) => Some(TaskLocation::from_wire(loc)),
        None => None,
    };
    Some(Task { app_id, id, tid, name, kind, location, task_stats })
}

} // verus!
