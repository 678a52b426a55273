use vstd::prelude::*;

use crate::wire;

verus! {

// Timestamps are modeled as nanoseconds since the epoch, durations as
// nanoseconds, both as `u64`. A wire instant or span decodes only when it is
// non-negative, carries a normalized sub-second part, and fits that model;
// a statistics snapshot holding anything else is treated as malformed and
// skipped by the decoder.

pub open spec fn ts_valid(t: wire::Timestamp) -> bool {
    &&& 0 <= t.seconds
    &&& 0 <= t.nanos < 1_000_000_000
    &&& t.seconds * 1_000_000_000 + t.nanos <= u64::MAX
}

pub open spec fn ts_value(t: wire::Timestamp) -> u64 {
    (t.seconds * 1_000_000_000 + t.nanos) as u64
}

pub open spec fn dur_valid(d: wire::Duration) -> bool {
    &&& 0 <= d.seconds
    &&& 0 <= d.nanos < 1_000_000_000
    &&& d.seconds * 1_000_000_000 + d.nanos <= u64::MAX
}

pub open spec fn dur_value(d: wire::Duration) -> u64 {
    (d.seconds * 1_000_000_000 + d.nanos) as u64
}

pub open spec fn opt_ts_valid(o: Option<wire::Timestamp>) -> bool {
    match o {
        Some(t) => ts_valid(t),
        None => true,
    }
}

pub open spec fn opt_ts_value(o: Option<wire::Timestamp>) -> Option<u64> {
    match o {
        Some(t) => Some(ts_value(t)),
        None => None,
    }
}

pub open spec fn opt_dur_valid(o: Option<wire::Duration>) -> bool {
    match o {
        Some(d) => dur_valid(d),
        None => true,
    }
}

/// Decode a wire instant to nanoseconds since the epoch; `None` when it does
/// not fit the model.
pub fn timestamp_nanos(t: wire::Timestamp) -> (r: Option<u64>)
    ensures
        r == if ts_valid(t) {
            Some(ts_value(t))
        } else {
            None::<u64>
        },
{
    if t.seconds < 0 || t.nanos < 0 || t.nanos >= 1_000_000_000 {
        return None;
    }
    let total: u128 = (t.seconds as u128) * 1_000_000_000 + (t.nanos as u128);
    if total <= u64::MAX as u128 {
        Some(total as u64)
    } else {
        None
    }
}

/// Decode a wire span to nanoseconds; `None` when it does not fit the model.
pub fn duration_nanos(d: wire::Duration) -> (r: Option<u64>)
    ensures
        r == if dur_valid(d) {
            Some(dur_value(d))
        } else {
            None::<u64>
        },
{
    if d.seconds < 0 || d.nanos < 0 || d.nanos >= 1_000_000_000 {
        return None;
    }
    let total: u128 = (d.seconds as u128) * 1_000_000_000 + (d.nanos as u128);
    if total <= u64::MAX as u128 {
        Some(total as u64)
    } else {
        None
    }
}

fn opt_timestamp_nanos(o: &Option<wire::Timestamp>) -> (r: Option<Option<u64>>)
    ensures
        r == if opt_ts_valid(*o) {
            Some(opt_ts_value(*o))
        } else {
            None::<Option<u64>>
        },
{
    match o {
        None => Some(None),
        Some(t) => match timestamp_nanos(*t) {
            Some(v) => Some(Some(v)),
            None => None,
        },
    }
}

/// The statistics kept for one live task. All instants are nanoseconds since
/// the epoch; all spans are nanoseconds.
#[derive(Debug, Clone, Copy, PartialEq, Eq, Structural)]
pub struct TaskStats {
    pub created_at: u64,
    pub dropped_at: Option<u64>,
    pub busy: u64,
    pub scheduled: u64,
    pub last_poll_started: Option<u64>,
    pub last_poll_ended: Option<u64>,
    pub idle: Option<u64>,
    pub total: Option<u64>,
    pub last_wake: Option<u64>,
}

/// A wire statistics snapshot decodes only when the creation instant and the
/// poll statistics are present and every carried instant and span fits the
/// nanosecond model.
pub open spec fn stats_decodable(s: wire::Stats) -> bool {
    &&& s.created_at is Some
    &&& ts_valid(s.created_at->0)
    &&& s.poll_stats is Some
    &&& opt_ts_valid(s.dropped_at)
    &&& opt_ts_valid(s.last_wake)
    &&& opt_dur_valid(s.scheduled_time)
    &&& opt_dur_valid(s.poll_stats->0.busy_time)
    &&& opt_ts_valid(s.poll_stats->0.last_poll_started)
    &&& opt_ts_valid(s.poll_stats->0.last_poll_ended)
}

/// The decoded statistics: the lifetime span is the distance from creation
/// to drop when dropped; the idle span is what remains of the lifetime after
/// the busy and scheduled spans, floored at zero; absent busy and scheduled
/// spans count as zero.
pub open spec fn decode_stats(s: wire::Stats) -> TaskStats
    recommends
        stats_decodable(s),
{
    let created = ts_value(s.created_at->0);
    let dropped = opt_ts_value(s.dropped_at);
    let total = match dropped {
        Some(d) => Some(if d >= created { (d - created) as u64 } else { 0u64 }),
        None => None,
    };
    let ps = s.poll_stats->0;
    let busy = match ps.busy_time {
        Some(b) => dur_value(b),
        None => 0u64,
    };
    let scheduled = match s.scheduled_time {
        Some(d) => dur_value(d),
        None => 0u64,
    };
    let idle = match total {
        Some(t) => Some(
            if t >= busy + scheduled {
                (t - (busy + scheduled)) as u64
            } else {
                0u64
            },
        ),
        None => None,
    };
    TaskStats {
        created_at: created,
        dropped_at: dropped,
        busy,
        scheduled,
        last_poll_started: opt_ts_value(ps.last_poll_started),
        last_poll_ended: opt_ts_value(ps.last_poll_ended),
        idle,
        total,
        last_wake: opt_ts_value(s.last_wake),
    }
}

impl TaskStats {
    /// Decode a wire statistics snapshot; `None` exactly on the malformed
    /// ones.
    pub fn from_wire(s: &wire::Stats) -> (r: Option<TaskStats>)
        ensures
            r == if stats_decodable(*s) {
                Some(decode_stats(*s))
            } else {
                None::<TaskStats>
            },
    {
        let created_at = match &s.created_at {
            Some(c) => match timestamp_nanos(*c) {
                Some(v) => v,
                None => {
                    return None;
                },
            },
            None => {
                return None;
            },
        };
        let ps = match &s.poll_stats {
            Some(ps) => *ps,
            None => {
                return None;
            },
        };
        let dropped_at = match opt_timestamp_nanos(&s.dropped_at) {
            Some(v) => v,
            None => {
                return None;
            },
        };
        let last_wake = match opt_timestamp_nanos(&s.last_wake) {
            Some(v) => v,
            None => {
                return None;
            },
        };
        let scheduled = match &s.scheduled_time {
            Some(d) => match duration_nanos(*d) {
                Some(v) => v,
                None => {
                    return None;
                },
            },
            None => 0,
        };
        let busy = match &ps.busy_time {
            Some(d) => match duration_nanos(*d) {
                Some(v) => v,
                None => {
                    return None;
                },
            },
            None => 0,
        };
        let last_poll_started = match opt_timestamp_nanos(&ps.last_poll_started) {
            Some(v) => v,
            None => {
                return None;
            },
        };
        let last_poll_ended = match opt_timestamp_nanos(&ps.last_poll_ended) {
            Some(v) => v,
            None => {
                return None;
            },
        };
        let total = match dropped_at {
            Some(d) => Some(
                if d >= created_at {
                    d - created_at
                } else {
                    0
                },
            ),
            None => None,
        };
        let idle = match total {
            Some(t) => {
                let used: u128 = busy as u128 + scheduled as u128;
                Some(
                    if t as u128 >= used {
                        (t as u128 - used) as u64
                    } else {
                        0
                    },
                )
            },
            None => None,
        };
        Some(
            TaskStats {
                created_at,
                dropped_at,
                busy,
                scheduled,
                last_poll_started,
                last_poll_ended,
                idle,
                total,
                last_wake,
            },
        )
    }
}

// Derived read-time spans, shown to the UI beside each task. `since` is the
// instant of the reading. The mathematical values are stated over `int`; the
// executable functions return them as `u64` and require, where a sum could
// exceed the machine word, that it does not.

/// `Some(a)` is later than `Some(b)` when `a > b`; a present instant is later
/// than an absent one; an absent instant is later than nothing.
pub open spec fn opt_after(a: Option<u64>, b: Option<u64>) -> bool {
    match (a, b) {
        (Some(x), Some(y)) => x > y,
        (Some(_), None) => true,
        _ => false,
    }
}

/// The task's lifetime up to `since`: the recorded lifetime once dropped,
/// otherwise the distance from creation to `since`, floored at zero.
pub open spec fn total_at(task_stats: TaskStats, since: u64) -> int {
    match task_stats.total {
        Some(t) => t as int,
        None => if since >= task_stats.created_at {
            since - task_stats.created_at
        } else {
            0
        },
    }
}

/// The busy span, extended by the poll in progress: when the last poll
/// started after it ended, the task is being polled at `since`, and the time
/// spent in that poll so far is added.
pub open spec fn busy_at(task_stats: TaskStats, since: u64) -> int {
    match task_stats.last_poll_started {
        Some(started) => if opt_after(task_stats.last_poll_started, task_stats.last_poll_ended) {
            task_stats.busy + if since >= started {
                since - started
            } else {
                0
            }
        } else {
            task_stats.busy as int
        },
        None => task_stats.busy as int,
    }
}

/// The scheduled span, extended by the pending wake: when the last wake came
/// after the last poll started, the task is scheduled but not yet polled at
/// `since`, and the time since that wake is added.
pub open spec fn scheduled_at(task_stats: TaskStats, since: u64) -> int {
    match task_stats.last_wake {
        Some(wake) => if opt_after(task_stats.last_wake, task_stats.last_poll_started) {
            task_stats.scheduled + if since >= wake {
                since - wake
            } else {
                0
            }
        } else {
            task_stats.scheduled as int
        },
        None => task_stats.scheduled as int,
    }
}

/// The idle span: the recorded one when present, otherwise what remains of
/// the lifetime after the busy and scheduled spans, floored at zero.
pub open spec fn idle_at(task_stats: TaskStats, since: u64) -> int {
    match task_stats.idle {
        Some(i) => i as int,
        None => {
            let rest = total_at(task_stats, since) - (busy_at(task_stats, since) + scheduled_at(
                task_stats,
                since,
            ));
            if rest >= 0 {
                rest
            } else {
                0
            }
        },
    }
}

fn busy_wide(task_stats: &TaskStats, since: u64) -> (r: u128)
    ensures
        r == busy_at(*task_stats, since),
{
    match task_stats.last_poll_started {
        Some(started) => {
            let in_progress: bool = match task_stats.last_poll_ended {
                Some(ended) => started > ended,
                None => true,
            };
            if in_progress {
                let current: u64 = if since >= started {
                    since - started
                } else {
                    0
                };
                task_stats.busy as u128 + current as u128
            } else {
                task_stats.busy as u128
            }
        },
        None => task_stats.busy as u128,
    }
}

fn scheduled_wide(task_stats: &TaskStats, since: u64) -> (r: u128)
    ensures
        r == scheduled_at(*task_stats, since),
{
    match task_stats.last_wake {
        Some(wake) => {
            let pending: bool = match task_stats.last_poll_started {
                Some(started) => wake > started,
                None => true,
            };
            if pending {
                let current: u64 = if since >= wake {
                    since - wake
                } else {
                    0
                };
                task_stats.scheduled as u128 + current as u128
            } else {
                task_stats.scheduled as u128
            }
        },
        None => task_stats.scheduled as u128,
    }
}

/// The task's lifetime up to `since`.
pub fn total(task_stats: &TaskStats, since: u64) -> (r: u64)
    ensures
        r == total_at(*task_stats, since),
{
    match task_stats.total {
        Some(t) => t,
        None => if since >= task_stats.created_at {
            since - task_stats.created_at
        } else {
            0
        },
    }
}

/// The busy span, extended by the poll in progress.
pub fn busy(task_stats: &TaskStats, since: u64) -> (r: u64)
    requires
        busy_at(*task_stats, since) <= u64::MAX,
    ensures
        r == busy_at(*task_stats, since),
{
    busy_wide(task_stats, since) as u64
}

/// The scheduled span, extended by the pending wake.
pub fn scheduled(task_stats: &TaskStats, since: u64) -> (r: u64)
    requires
        scheduled_at(*task_stats, since) <= u64::MAX,
    ensures
        r == scheduled_at(*task_stats, since),
{
    scheduled_wide(task_stats, since) as u64
}

/// The idle span at `since`.
pub fn idle(task_stats: &TaskStats, since: u64) -> (r: u64)
    ensures
        r == idle_at(*task_stats, since),
{
    match task_stats.idle {
        Some(i) => i,
        None => {
            let t = total(task_stats, since);
            let used: u128 = busy_wide(task_stats, since) + scheduled_wide(task_stats, since);
            if t as u128 >= used {
                (t as u128 - used) as u64
            } else {
                0
            }
        },
    }
}

/// The four derived spans in one reading, as published to the UI.
#[derive(Debug, Clone, Copy, PartialEq, Eq, Structural)]
pub struct StatsInfo {
    pub runtime: u64,
    pub busy: u64,
    pub scheduled: u64,
    pub idle: u64,
}

/// Whether every derived span at `since` fits the machine word.
pub open spec fn sample_fits(task_stats: TaskStats, since: u64) -> bool {
    &&& busy_at(task_stats, since) <= u64::MAX
    &&& scheduled_at(task_stats, since) <= u64::MAX
}

/// Compute all four derived spans, refusing a reading on which one of them
/// would not fit the machine word.
pub fn stats_info(task_stats: &TaskStats, since: u64) -> (r: Option<StatsInfo>)
    ensures
        match r {
            Some(info) => {
                &&& sample_fits(*task_stats, since)
                &&& info.runtime == total_at(*task_stats, since)
                &&& info.busy == busy_at(*task_stats, since)
                &&& info.scheduled == scheduled_at(*task_stats, since)
                &&& info.idle == idle_at(*task_stats, since)
            },
            None => !sample_fits(*task_stats, since),
        },
{
    let b = busy_wide(task_stats, since);
    let s = scheduled_wide(task_stats, since);
    if b > u64::MAX as u128 || s > u64::MAX as u128 {
        return None;
    }
    Some(
        StatsInfo {
            runtime: total(task_stats, since),
            busy: b as u64,
            scheduled: s as u64,
            idle: idle(task_stats, since),
        },
    )
}

/// The source location of a task, as kept in the task table.
#[derive(Debug, PartialEq, Eq)]
pub struct TaskLocation {
    pub file: Option<String>,
    pub module: Option<String>,
    pub line: Option<u32>,
    pub column: Option<u32>,
}

impl View for TaskLocation {
    type V = wire::LocationView;

    open spec fn view(&self) -> wire::LocationView {
        wire::LocationView {
            file: self.file.deep_view(),
            module: self.module.deep_view(),
            line: self.line,
            column: self.column,
        }
    }
}

impl DeepView for TaskLocation {
    type V = wire::LocationView;

    open spec fn deep_view(&self) -> wire::LocationView {
        self.view()
    }
}

impl TaskLocation {
    /// Copy a wire location into the task table's own record.
    pub fn from_wire(value: &wire::Location) -> (r: TaskLocation)
        ensures
            r@ == value@,
    {
        TaskLocation {
            file: value.file.clone(),
            module: value.module.clone(),
            line: value.line,
            column: value.column,
        }
    }
}

/// A live asynchronous task of one monitored application. The table of live
/// tasks is keyed by the pair of the owning application's id and the task's
/// span id.
#[derive(Debug, PartialEq, Eq)]
pub struct Task {
    pub app_id: u128,
    pub id: u64,
    pub tid: Option<u64>,
    pub name: Option<String>,
    pub kind: Option<String>,
    pub location: Option<TaskLocation>,
    pub task_stats: TaskStats,
}

/// Mathematical view of a task record.
pub ghost struct TaskView {
    pub app_id: u128,
    pub id: u64,
    pub tid: Option<u64>,
    pub name: Option<Seq<char>>,
    pub kind: Option<Seq<char>>,
    pub location: Option<wire::LocationView>,
    pub task_stats: TaskStats,
}

impl View for Task {
    type V = TaskView;

    open spec fn view(&self) -> TaskView {
        TaskView {
            app_id: self.app_id,
            id: self.id,
            tid: self.tid,
            name: self.name.deep_view(),
            kind: self.kind.deep_view(),
            location: self.location.deep_view(),
            task_stats: self.task_stats,
        }
    }
}

impl DeepView for Task {
    type V = TaskView;

    open spec fn deep_view(&self) -> TaskView {
        self.view()
    }
}

impl Clone for Task {
    fn clone(&self) -> (res: Self)
        ensures
            res@ == self@,
    {
        Task {
            app_id: self.app_id,
            id: self.id,
            tid: self.tid,
            name: self.name.clone(),
            kind: self.kind.clone(),
            location: self.location.clone(),
            task_stats: self.task_stats,
        }
    }
}

impl Task {
    /// The pair of owning application id and span id that keys the task
    /// table.
    pub fn id(&self) -> (r: (u128, u64))
        ensures
            r == (self.app_id, self.id),
    {
        (self.app_id, self.id)
    }
}

impl Clone for TaskLocation {
    fn clone(&self) -> (res: Self)
        ensures
            res@ == self@,
    {
        TaskLocation {
            file: self.file.clone(),
            module: self.module.clone(),
            line: self.line,
            column: self.column,
        }
    }
}

} // verus!
