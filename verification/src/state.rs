use vstd::prelude::*;

use crate::application::{Application, ApplicationRecord, ApplicationState};
use crate::connection::Connection;
use crate::error::Error;
use crate::store::{
    lemma_map_contains, lemma_map_index, lemma_map_push, lemma_map_remove, lemma_map_update,
    seq_kv_map, unique_keys,
};
use crate::mappers::{decode_task, map_to_domain_task};
use crate::task::{stats_decodable, Task, TaskView};
use crate::wire;

verus! {

// The readings of the two collections: each record carries its own key.

pub open spec fn app_kf() -> spec_fn(Application) -> u128 {
    |a: Application| a.id
}

pub open spec fn app_vf() -> spec_fn(Application) -> Application {
    |a: Application| a
}

pub open spec fn app_rec_vf() -> spec_fn(Application) -> ApplicationRecord {
    |a: Application| a.spec_record()
}

pub open spec fn task_kf() -> spec_fn(Task) -> (u128, u64) {
    |t: Task| (t.app_id, t.id)
}

pub open spec fn task_vf() -> spec_fn(Task) -> TaskView {
    |t: Task| t@
}

/// The persisted form of a sequence of applications, in order.
pub open spec fn record_seq(s: Seq<Application>) -> Seq<ApplicationRecord> {
    s.map_values(app_rec_vf())
}

/// What a collection file yielded at startup.
pub enum LoadOutcome<T> {
    /// The file was absent; the collection starts empty.
    Missing,
    /// The file was present but could not be decoded; carries the decoder's
    /// message.
    Malformed(String),
    /// The decoded records.
    Loaded(Vec<T>),
}

/// The authoritative in-memory model of the persistent store: the registry
/// of target applications and the table of live tasks, each paired with the
/// content of its backing file. Every mutation hands back the fresh snapshot
/// to be written through — the write-guard release of the store — so after
/// each mutation the backing file equals the in-memory collection, the
/// registry's one taken modulo the transient connection handles.
pub struct State {
    pub applications: Vec<Application>,
    pub tasks: Vec<Task>,
    /// Content of the applications file after the most recent write-through.
    pub disk_applications: Ghost<Map<u128, ApplicationRecord>>,
    /// Content of the tasks file after the most recent write-through.
    pub disk_tasks: Ghost<Map<(u128, u64), TaskView>>,
}

impl State {
    /// The registry as a map from application id to application.
    pub open spec fn apps(&self) -> Map<u128, Application> {
        seq_kv_map(self.applications@, app_kf(), app_vf())
    }

    /// The registry in persisted form.
    pub open spec fn app_records(&self) -> Map<u128, ApplicationRecord> {
        seq_kv_map(self.applications@, app_kf(), app_rec_vf())
    }

    /// The task table as a map from composite key to task view.
    pub open spec fn task_map(&self) -> Map<(u128, u64), TaskView> {
        seq_kv_map(self.tasks@, task_kf(), task_vf())
    }

    /// Both collections hold one record per key.
    pub open spec fn wf(&self) -> bool {
        &&& unique_keys(self.applications@, app_kf())
        &&& unique_keys(self.tasks@, task_kf())
    }

    /// The applications file equals the registry, modulo connection handles.
    pub open spec fn apps_flushed(&self) -> bool {
        self.disk_applications@ == self.app_records()
    }

    /// The tasks file equals the task table.
    pub open spec fn tasks_flushed(&self) -> bool {
        self.disk_tasks@ == self.task_map()
    }

    /// A fresh, empty store, as used when nothing could be loaded.
    pub fn new() -> (r: State)
        ensures
            r.wf(),
            r.applications@.len() == 0,
            r.tasks@.len() == 0,
            r.apps() == Map::<u128, Application>::empty(),
            r.task_map() == Map::<(u128, u64), TaskView>::empty(),
            r.apps_flushed(),
            r.tasks_flushed(),
    {
        let r = State {
            applications: Vec::new(),
            tasks: Vec::new(),
            disk_applications: Ghost(Map::empty()),
            disk_tasks: Ghost(Map::empty()),
        };
        proof {
            assert(r.apps() =~= Map::<u128, Application>::empty());
            assert(r.task_map() =~= Map::<(u128, u64), TaskView>::empty());
        }
        r
    }

    /// The index of the application with this id, if it is registered.
    pub(crate) fn find_app_index(&self, id: u128) -> (r: Option<usize>)
        requires
            self.wf(),
        ensures
            match r {
                Some(i) => {
                    &&& i < self.applications@.len()
                    &&& self.applications@[i as int].id == id
                    &&& self.apps().contains_key(id)
                    &&& self.apps()[id] == self.applications@[i as int]
                },
                None => !self.apps().contains_key(id),
            },
    {
        let mut i: usize = 0;
        while i < self.applications.len()
            invariant
                self.wf(),
                i <= self.applications@.len(),
                forall|j: int| 0 <= j < i ==> (#[trigger] self.applications@[j]).id != id,
            decreases self.applications@.len() - i,
        {
            if self.applications[i].id() == id {
                proof {
                    lemma_map_index(self.applications@, app_kf(), app_vf(), i as int);
                }
                return Some(i);
            }
            i = i + 1;
        }
        proof {
            lemma_map_contains(self.applications@, app_kf(), app_vf(), id);
        }
        None
    }

    /// The index of the task with this composite key, if present.
    fn find_task_index(&self, key: (u128, u64)) -> (r: Option<usize>)
        requires
            self.wf(),
        ensures
            match r {
                Some(i) => {
                    &&& i < self.tasks@.len()
                    &&& (self.tasks@[i as int].app_id, self.tasks@[i as int].id) == key
                    &&& self.task_map().contains_key(key)
                    &&& self.task_map()[key] == self.tasks@[i as int]@
                },
                None => !self.task_map().contains_key(key),
            },
    {
        let mut i: usize = 0;
        while i < self.tasks.len()
            invariant
                self.wf(),
                i <= self.tasks@.len(),
                forall|j: int|
                    0 <= j < i ==> ((#[trigger] self.tasks@[j]).app_id, self.tasks@[j].id) != key,
            decreases self.tasks@.len() - i,
        {
            let t = &self.tasks[i];
            if t.app_id == key.0 && t.id == key.1 {
                proof {
                    lemma_map_index(self.tasks@, task_kf(), task_vf(), i as int);
                }
                return Some(i);
            }
            i = i + 1;
        }
        proof {
            lemma_map_contains(self.tasks@, task_kf(), task_vf(), key);
        }
        None
    }

    /// The persisted form of the whole registry, in storage order.
    fn snapshot_applications(&self) -> (r: Vec<ApplicationRecord>)
        ensures
            r@ == record_seq(self.applications@),
    {
        let mut r: Vec<ApplicationRecord> = Vec::new();
        let mut i: usize = 0;
        while i < self.applications.len()
            invariant
                i <= self.applications@.len(),
                r@ =~= record_seq(self.applications@.take(i as int)),
            decreases self.applications@.len() - i,
        {
            r.push(self.applications[i].record());
            proof {
                assert(self.applications@.take(i + 1 as int) =~= self.applications@.take(
                    i as int,
                ).push(self.applications@[i as int]));
                assert(record_seq(self.applications@.take(i + 1 as int)) =~= record_seq(
                    self.applications@.take(i as int),
                ).push(self.applications@[i as int].spec_record()));
            }
            i = i + 1;
        }
        proof {
            assert(self.applications@.take(self.applications@.len() as int)
                =~= self.applications@);
        }
        r
    }

    /// A detached copy of every task, in storage order.
    pub fn get_tasks(&self) -> (r: Vec<Task>)
        ensures
            r.deep_view() == self.tasks.deep_view(),
    {
        let mut r: Vec<Task> = Vec::new();
        let mut i: usize = 0;
        while i < self.tasks.len()
            invariant
                i <= self.tasks@.len(),
                r.deep_view() =~= self.tasks.deep_view().take(i as int),
            decreases self.tasks@.len() - i,
        {
            r.push(self.tasks[i].clone());
            proof {
                assert(self.tasks.deep_view().take(i + 1 as int) =~= self.tasks.deep_view().take(
                    i as int,
                ).push(self.tasks@[i as int]@));
            }
            i = i + 1;
        }
        proof {
            assert(self.tasks.deep_view().take(self.tasks@.len() as int)
                =~= self.tasks.deep_view());
        }
        r
    }

    /// A detached copy of the registry in persisted form, as listed to the
    /// UI and walked at reconnect.
    pub fn get_current_applications_list(&self) -> (r: Vec<ApplicationRecord>)
        ensures
            r@ == record_seq(self.applications@),
    {
        self.snapshot_applications()
    }

    /// Insert an application into the registry, shadowing any record with
    /// the same id. Does not write through; the caller does.
    fn insert_app(&mut self, application: Application)
        requires
            old(self).wf(),
        ensures
            final(self).wf(),
            final(self).apps() == old(self).apps().insert(application.id, application),
            final(self).app_records() == old(self).app_records().insert(
                application.id,
                application.spec_record(),
            ),
            final(self).tasks@ == old(self).tasks@,
            final(self).disk_applications == old(self).disk_applications,
            final(self).disk_tasks == old(self).disk_tasks,
    {
        let ghost s0 = self.applications@;
        let id = application.id();
        match self.find_app_index(id) {
            Some(i) => {
                proof {
                    lemma_map_update(s0, app_kf(), app_vf(), i as int, application);
                    lemma_map_update(s0, app_kf(), app_rec_vf(), i as int, application);
                }
                self.applications.set(i, application);
            },
            None => {
                proof {
                    lemma_map_push(s0, app_kf(), app_vf(), application);
                    lemma_map_push(s0, app_kf(), app_rec_vf(), application);
                    lemma_map_contains(s0, app_kf(), app_vf(), application.id);
                }
                self.applications.push(application);
            },
        }
    }

    /// Register an application: insert it into the registry, shadowing any
    /// record with the same id, and write the registry through. Returns the
    /// written snapshot.
    pub fn store_app(&mut self, application: Application) -> (r: Vec<ApplicationRecord>)
        requires
            old(self).wf(),
        ensures
            final(self).wf(),
            final(self).apps() == old(self).apps().insert(application.id, application),
            final(self).tasks@ == old(self).tasks@,
            final(self).disk_tasks == old(self).disk_tasks,
            final(self).apps_flushed(),
            r@ == record_seq(final(self).applications@),
    {
        self.insert_app(application);
        self.disk_applications = Ghost(self.app_records());
        self.snapshot_applications()
    }

    /// Disable an application: detach its connection handle for the caller
    /// to send `Disconnect` on, set it `Disabled`, and write the registry
    /// through. A missing id and a second call change nothing; the registry
    /// is written through either way, as the write guard flushes on release
    /// whether or not the held map changed.
    pub fn disable_app(&mut self, uuid: u128) -> (r: (Option<Connection>, Vec<ApplicationRecord>))
        requires
            old(self).wf(),
        ensures
            final(self).wf(),
            final(self).tasks@ == old(self).tasks@,
            final(self).disk_tasks == old(self).disk_tasks,
            final(self).apps_flushed(),
            r.1@ == record_seq(final(self).applications@),
            match old(self).apps().contains_key(uuid) {
                true => {
                    &&& final(self).apps() == old(self).apps().insert(
                        uuid,
                        Application {
                            state: ApplicationState::Disabled,
                            connection: None,
                            ..old(self).apps()[uuid]
                        },
                    )
                    &&& r.0 == old(self).apps()[uuid].connection
                },
                false => final(self).apps() == old(self).apps() && r.0 is None,
            },
    {
        let ghost s0 = self.applications@;
        let connection: Option<Connection> = match self.find_app_index(uuid) {
            Some(i) => {
                let mut app = self.applications.remove(i);
                let conn = app.disable();
                proof {
                    assert(s0.remove(i as int).insert(i as int, app) =~= s0.update(i as int, app));
                    lemma_map_update(s0, app_kf(), app_vf(), i as int, app);
                    lemma_map_update(s0, app_kf(), app_rec_vf(), i as int, app);
                }
                self.applications.insert(i, app);
                conn
            },
            None => None,
        };
        self.disk_applications = Ghost(self.app_records());
        let snapshot = self.snapshot_applications();
        (connection, snapshot)
    }

    /// The composite keys owned by one application.
    pub open spec fn owned_keys(app_id: u128) -> Set<(u128, u64)> {
        Set::new(|k: (u128, u64)| k.0 == app_id)
    }

    /// Delete an application: remove it from the registry, collect every
    /// task it owned out of the task table, and write both collections
    /// through. Returns the two written snapshots.
    pub fn delete_app(&mut self, uuid: u128) -> (r: (Vec<ApplicationRecord>, Vec<Task>))
        requires
            old(self).wf(),
        ensures
            final(self).wf(),
            final(self).apps() == old(self).apps().remove(uuid),
            final(self).task_map() == old(self).task_map().remove_keys(State::owned_keys(uuid)),
            final(self).apps_flushed(),
            final(self).tasks_flushed(),
            r.0@ == record_seq(final(self).applications@),
            r.1.deep_view() == final(self).tasks.deep_view(),
    {
        let ghost s0 = self.applications@;
        match self.find_app_index(uuid) {
            Some(i) => {
                proof {
                    lemma_map_remove(s0, app_kf(), app_vf(), i as int);
                    lemma_map_remove(s0, app_kf(), app_rec_vf(), i as int);
                }
                self.applications.remove(i);
            },
            None => {
                proof {
                    lemma_map_contains(self.applications@, app_kf(), app_vf(), uuid);
                    lemma_map_contains(self.applications@, app_kf(), app_rec_vf(), uuid);
                    assert(self.apps().remove(uuid) =~= self.apps());
                    assert(self.app_records().remove(uuid) =~= self.app_records());
                }
            },
        }
        let ghost t0 = self.tasks@;
        let ghost owned = State::owned_keys(uuid);
        let mut kept: Vec<Task> = Vec::new();
        let mut i: usize = 0;
        while i < self.tasks.len()
            invariant
                unique_keys(t0, task_kf()),
                unique_keys(kept@, task_kf()),
                self.tasks@ == t0,
                i <= t0.len(),
                owned == State::owned_keys(uuid),
                seq_kv_map(kept@, task_kf(), task_vf()) =~= seq_kv_map(
                    t0.take(i as int),
                    task_kf(),
                    task_vf(),
                ).remove_keys(owned),
                forall|m: int|
                    0 <= m < kept@.len() ==> exists|n: int|
                        0 <= n < i && task_kf()(#[trigger] kept@[m]) == task_kf()(t0[n]),
            decreases t0.len() - i,
        {
            let t = &self.tasks[i];
            let ghost k = task_kf()(t0[i as int]);
            proof {
                assert(t0.take(i + 1 as int) =~= t0.take(i as int).push(t0[i as int]));
                lemma_map_push(t0.take(i as int), task_kf(), task_vf(), t0[i as int]);
            }
            if t.app_id != uuid {
                proof {
                    // The incoming key is fresh among the kept records: it
                    // cannot have come from an earlier index, keys being
                    // unique in the table.
                    assert(forall|m: int|
                        0 <= m < kept@.len() ==> task_kf()(#[trigger] kept@[m]) != k);
                    lemma_map_push(kept@, task_kf(), task_vf(), t0[i as int]);
                    assert(seq_kv_map(kept@, task_kf(), task_vf()).insert(
                        k,
                        task_vf()(t0[i as int]),
                    ) =~= seq_kv_map(t0.take(i + 1 as int), task_kf(), task_vf()).remove_keys(
                        owned,
                    ));
                }
                let copy = t.clone();
                proof {
                    assert(task_kf()(copy) == k);
                    assert(task_vf()(copy) == task_vf()(t0[i as int]));
                    lemma_map_push(kept@, task_kf(), task_vf(), copy);
                }
                kept.push(copy);
            } else {
                proof {
                    assert(seq_kv_map(kept@, task_kf(), task_vf()) =~= seq_kv_map(
                        t0.take(i + 1 as int),
                        task_kf(),
                        task_vf(),
                    ).remove_keys(owned));
                }
            }
            i = i + 1;
        }
        proof {
            assert(t0.take(t0.len() as int) =~= t0);
        }
        self.tasks = kept;
        self.disk_applications = Ghost(self.app_records());
        self.disk_tasks = Ghost(self.task_map());
        let snapshot_apps = self.snapshot_applications();
        let snapshot_tasks = self.get_tasks();
        (snapshot_apps, snapshot_tasks)
    }

    /// The composite keys whose owning application is not in the registry.
    pub open spec fn orphan_keys(apps: Map<u128, Application>) -> Set<(u128, u64)> {
        Set::new(|k: (u128, u64)| !apps.contains_key(k.0))
    }

    /// Drop every task whose owning application is not registered, and
    /// write the table through. Run once at startup, so that whatever the
    /// collection files held, every task in the table has an owner.
    /// Returns the written snapshot.
    pub(crate) fn prune_orphan_tasks(&mut self) -> (r: Vec<Task>)
        requires
            old(self).wf(),
        ensures
            final(self).wf(),
            final(self).applications@ == old(self).applications@,
            final(self).disk_applications == old(self).disk_applications,
            final(self).task_map() == old(self).task_map().remove_keys(
                State::orphan_keys(old(self).apps()),
            ),
            forall|k: (u128, u64)|
                #[trigger] final(self).task_map().contains_key(k) ==> final(self).apps().contains_key(
                    k.0,
                ),
            final(self).tasks_flushed(),
            r.deep_view() == final(self).tasks.deep_view(),
    {
        let ghost a0 = self.applications@;
        let ghost t0 = self.tasks@;
        let ghost orphans = State::orphan_keys(self.apps());
        let mut kept: Vec<Task> = Vec::new();
        let mut i: usize = 0;
        while i < self.tasks.len()
            invariant
                self.wf(),
                unique_keys(kept@, task_kf()),
                self.applications@ == a0,
                self.tasks@ == t0,
                i <= t0.len(),
                orphans == State::orphan_keys(seq_kv_map(a0, app_kf(), app_vf())),
                seq_kv_map(kept@, task_kf(), task_vf()) =~= seq_kv_map(
                    t0.take(i as int),
                    task_kf(),
                    task_vf(),
                ).remove_keys(orphans),
                forall|m: int|
                    0 <= m < kept@.len() ==> exists|n: int|
                        0 <= n < i && task_kf()(#[trigger] kept@[m]) == task_kf()(t0[n]),
            decreases t0.len() - i,
        {
            let t = &self.tasks[i];
            let ghost k = task_kf()(t0[i as int]);
            proof {
                assert(t0.take(i + 1 as int) =~= t0.take(i as int).push(t0[i as int]));
                lemma_map_push(t0.take(i as int), task_kf(), task_vf(), t0[i as int]);
            }
            let owner_known = match self.find_app_index(t.app_id) {
                Some(_) => true,
                None => false,
            };
            if owner_known {
                proof {
                    // The incoming key is fresh among the kept records: it
                    // cannot have come from an earlier index, keys being
                    // unique in the table.
                    assert(forall|m: int|
                        0 <= m < kept@.len() ==> task_kf()(#[trigger] kept@[m]) != k);
                    lemma_map_push(kept@, task_kf(), task_vf(), t0[i as int]);
                    assert(!orphans.contains(k));
                    assert(seq_kv_map(kept@, task_kf(), task_vf()).insert(
                        k,
                        task_vf()(t0[i as int]),
                    ) =~= seq_kv_map(t0.take(i + 1 as int), task_kf(), task_vf()).remove_keys(
                        orphans,
                    ));
                }
                let copy = t.clone();
                proof {
                    assert(task_kf()(copy) == k);
                    assert(task_vf()(copy) == task_vf()(t0[i as int]));
                    lemma_map_push(kept@, task_kf(), task_vf(), copy);
                }
                kept.push(copy);
            } else {
                proof {
                    assert(orphans.contains(k));
                    assert(seq_kv_map(kept@, task_kf(), task_vf()) =~= seq_kv_map(
                        t0.take(i + 1 as int),
                        task_kf(),
                        task_vf(),
                    ).remove_keys(orphans));
                }
            }
            i = i + 1;
        }
        proof {
            assert(t0.take(t0.len() as int) =~= t0);
        }
        self.tasks = kept;
        self.disk_tasks = Ghost(self.task_map());
        self.get_tasks()
    }

    /// Refresh the sampled process metrics of an enabled application and
    /// write the registry through; an update for a missing or disabled
    /// application changes nothing. Returns the written snapshot where one
    /// was written.
    pub fn handle_app_update(&mut self, app_id: u128, update: crate::connection::AppUpdate) -> (r:
        Option<Vec<ApplicationRecord>>)
        requires
            old(self).wf(),
        ensures
            final(self).wf(),
            final(self).tasks@ == old(self).tasks@,
            final(self).disk_tasks == old(self).disk_tasks,
            match r {
                Some(snapshot) => {
                    &&& old(self).apps().contains_key(app_id)
                    &&& old(self).apps()[app_id].state is Enabled
                    &&& final(self).apps() == old(self).apps().insert(
                        app_id,
                        Application {
                            cpu_usage: update.cpu_usage,
                            memory_usage: update.memory_usage,
                            ..old(self).apps()[app_id]
                        },
                    )
                    &&& final(self).apps_flushed()
                    &&& snapshot@ == record_seq(final(self).applications@)
                },
                None => {
                    &&& !(old(self).apps().contains_key(app_id) && old(self).apps()[app_id].state
                        is Enabled)
                    &&& *final(self) == *old(self)
                },
            },
    {
        let ghost s0 = self.applications@;
        match self.find_app_index(app_id) {
            Some(i) => {
                let enabled = match self.applications[i].state() {
                    ApplicationState::Enabled => true,
                    ApplicationState::Disabled => false,
                };
                if enabled {
                    let mut app = self.applications.remove(i);
                    app.cpu_usage = update.cpu_usage;
                    app.memory_usage = update.memory_usage;
                    proof {
                        assert(s0.remove(i as int).insert(i as int, app) =~= s0.update(
                            i as int,
                            app,
                        ));
                        lemma_map_update(s0, app_kf(), app_vf(), i as int, app);
                        lemma_map_update(s0, app_kf(), app_rec_vf(), i as int, app);
                    }
                    self.applications.insert(i, app);
                    self.disk_applications = Ghost(self.app_records());
                    Some(self.snapshot_applications())
                } else {
                    None
                }
            },
            None => None,
        }
    }

    /// Adopt a re-probed process id for a registered application and write
    /// the registry through; a probe that resolved nothing leaves the old
    /// pid standing. Returns the written snapshot where one was written.
    pub fn reconcile_pid(&mut self, app_id: u128, probe: Option<u32>) -> (r: Option<
        Vec<ApplicationRecord>,
    >)
        requires
            old(self).wf(),
        ensures
            final(self).wf(),
            final(self).tasks@ == old(self).tasks@,
            final(self).disk_tasks == old(self).disk_tasks,
            match r {
                Some(snapshot) => {
                    &&& probe is Some
                    &&& old(self).apps().contains_key(app_id)
                    &&& final(self).apps() == old(self).apps().insert(
                        app_id,
                        Application { pid: probe->0, ..old(self).apps()[app_id] },
                    )
                    &&& final(self).apps_flushed()
                    &&& snapshot@ == record_seq(final(self).applications@)
                },
                None => {
                    &&& probe is None || !old(self).apps().contains_key(app_id)
                    &&& *final(self) == *old(self)
                },
            },
    {
        let pid = match probe {
            Some(p) => p,
            None => {
                return None;
            },
        };
        let ghost s0 = self.applications@;
        match self.find_app_index(app_id) {
            Some(i) => {
                let mut app = self.applications.remove(i);
                app.pid = pid;
                proof {
                    assert(s0.remove(i as int).insert(i as int, app) =~= s0.update(i as int, app));
                    lemma_map_update(s0, app_kf(), app_vf(), i as int, app);
                    lemma_map_update(s0, app_kf(), app_rec_vf(), i as int, app);
                }
                self.applications.insert(i, app);
                self.disk_applications = Ghost(self.app_records());
                Some(self.snapshot_applications())
            },
            None => None,
        }
    }
}

// The readings used when a collection file is loaded at startup.

pub open spec fn rec_kf() -> spec_fn(ApplicationRecord) -> u128 {
    |r: ApplicationRecord| r.id
}

pub open spec fn rec_app_vf() -> spec_fn(ApplicationRecord) -> Application {
    |r: ApplicationRecord| Application::spec_from_record(r)
}

impl State {
    /// Insert one task under its composite key, shadowing any prior record
    /// with that key. Does not write through; the caller does, once.
    fn insert_task(&mut self, task: Task)
        requires
            old(self).wf(),
        ensures
            final(self).wf(),
            final(self).applications@ == old(self).applications@,
            final(self).disk_applications == old(self).disk_applications,
            final(self).disk_tasks == old(self).disk_tasks,
            final(self).task_map() == old(self).task_map().insert((task.app_id, task.id), task@),
    {
        let ghost t0 = self.tasks@;
        let key = task.id();
        match self.find_task_index(key) {
            Some(i) => {
                proof {
                    lemma_map_update(t0, task_kf(), task_vf(), i as int, task);
                }
                self.tasks.set(i, task);
            },
            None => {
                proof {
                    lemma_map_push(t0, task_kf(), task_vf(), task);
                    lemma_map_contains(t0, task_kf(), task_vf(), (task.app_id, task.id));
                }
                self.tasks.push(task);
            },
        }
    }

    /// Remove the task under a composite key, if present. Does not write
    /// through; the caller does, once.
    fn remove_task(&mut self, key: (u128, u64))
        requires
            old(self).wf(),
        ensures
            final(self).wf(),
            final(self).applications@ == old(self).applications@,
            final(self).disk_applications == old(self).disk_applications,
            final(self).disk_tasks == old(self).disk_tasks,
            final(self).task_map() == old(self).task_map().remove(key),
    {
        let ghost t0 = self.tasks@;
        match self.find_task_index(key) {
            Some(i) => {
                proof {
                    lemma_map_remove(t0, task_kf(), task_vf(), i as int);
                }
                self.tasks.remove(i);
            },
            None => {
                proof {
                    assert(self.task_map().remove(key) =~= self.task_map());
                }
            },
        }
    }

    /// Build the store from what the collection files yielded: an absent
    /// file is an empty collection; a file that would not decode is a fatal
    /// load error, the applications file checked first. On success the store
    /// holds exactly the loaded records — applications without connection
    /// handles — and the files are its write-through images.
    pub fn load(applications: LoadOutcome<ApplicationRecord>, tasks: LoadOutcome<Task>) -> (r:
        Result<State, Error>)
        ensures
            match r {
                Ok(st) => {
                    &&& !(applications is Malformed) && !(tasks is Malformed)
                    &&& st.wf()
                    &&& st.apps_flushed()
                    &&& st.tasks_flushed()
                    &&& st.apps() == match applications {
                        LoadOutcome::Loaded(v) => seq_kv_map(v@, rec_kf(), rec_app_vf()),
                        _ => Map::<u128, Application>::empty(),
                    }
                    &&& st.task_map() == match tasks {
                        LoadOutcome::Loaded(v) => seq_kv_map(v@, task_kf(), task_vf()),
                        _ => Map::<(u128, u64), TaskView>::empty(),
                    }
                },
                Err(e) => match applications {
                    LoadOutcome::Malformed(m) => e == Error::Serde(m),
                    _ => tasks matches LoadOutcome::Malformed(m) && e == Error::Serde(m),
                },
            },
    {
        let mut st = State::new();
        match applications {
            LoadOutcome::Missing => {},
            LoadOutcome::Malformed(m) => {
                return Err(Error::Serde(m));
            },
            LoadOutcome::Loaded(records) => {
                let ghost v0 = records@;
                proof {
                    assert(v0.take(0) =~= Seq::<ApplicationRecord>::empty());
                    assert(st.apps() =~= seq_kv_map(v0.take(0), rec_kf(), rec_app_vf()));
                }
                let mut i: usize = 0;
                while i < records.len()
                    invariant
                        st.wf(),
                        i <= records@.len(),
                        records@ == v0,
                        st.tasks@.len() == 0,
                        st.apps() == seq_kv_map(v0.take(i as int), rec_kf(), rec_app_vf()),
                    decreases records@.len() - i,
                {
                    let record = records[i].clone();
                    let app = Application::from_record(record);
                    proof {
                        assert(v0.take(i + 1 as int) =~= v0.take(i as int).push(v0[i as int]));
                        lemma_map_push(v0.take(i as int), rec_kf(), rec_app_vf(), v0[i as int]);
                        assert(app_kf()(app) == rec_kf()(v0[i as int]));
                        assert(app_vf()(app) == rec_app_vf()(v0[i as int]));
                    }
                    st.insert_app(app);
                    i = i + 1;
                }
                proof {
                    assert(v0.take(v0.len() as int) =~= v0);
                }
            },
        }
        match tasks {
            LoadOutcome::Missing => {},
            LoadOutcome::Malformed(m) => {
                return Err(Error::Serde(m));
            },
            LoadOutcome::Loaded(loaded) => {
                let ghost apps_before = st.apps();
                proof {
                    assert(loaded@.take(0) =~= Seq::<Task>::empty());
                    assert(st.task_map() =~= seq_kv_map(loaded@.take(0), task_kf(), task_vf()));
                }
                let mut i: usize = 0;
                while i < loaded.len()
                    invariant
                        st.wf(),
                        i <= loaded@.len(),
                        st.apps() == apps_before,
                        st.task_map() == seq_kv_map(loaded@.take(i as int), task_kf(), task_vf()),
                    decreases loaded@.len() - i,
                {
                    let task = loaded[i].clone();
                    proof {
                        assert(loaded@.take(i + 1 as int) =~= loaded@.take(i as int).push(
                            loaded@[i as int],
                        ));
                        lemma_map_push(
                            loaded@.take(i as int),
                            task_kf(),
                            task_vf(),
                            loaded@[i as int],
                        );
                        assert(task_kf()(task) == task_kf()(loaded@[i as int]));
                        assert(task_vf()(task) == task_vf()(loaded@[i as int]));
                    }
                    st.insert_task(task);
                    i = i + 1;
                }
                proof {
                    assert(loaded@.take(loaded@.len() as int) =~= loaded@);
                }
            },
        }
        st.disk_applications = Ghost(st.app_records());
        st.disk_tasks = Ghost(st.task_map());
        Ok(st)
    }
}

// What one task update does to the task table, stated as a fold over the
// update's two parts.

/// The first statistics snapshot recorded for a span id in an update.
pub open spec fn stats_lookup(stats: Seq<(u64, wire::Stats)>, id: u64) -> Option<wire::Stats>
    decreases stats.len(),
{
    if stats.len() == 0 {
        None
    } else if stats[0].0 == id {
        Some(stats[0].1)
    } else {
        stats_lookup(stats.drop_first(), id)
    }
}

/// Insert one announced task under its composite key: skipped when it
/// carries no span id, when the update carries no statistics snapshot for
/// it, or when that snapshot is malformed.
pub open spec fn insert_one_task(
    m: Map<(u128, u64), TaskView>,
    app_id: u128,
    t: wire::TaskView,
    stats: Seq<(u64, wire::Stats)>,
) -> Map<(u128, u64), TaskView> {
    match t.id {
        Some(sid) => match stats_lookup(stats, sid) {
            Some(st) => if stats_decodable(st) {
                m.insert((app_id, sid), decode_task(app_id, t, st))
            } else {
                m
            },
            None => m,
        },
        None => m,
    }
}

/// Insert the announced tasks, first to last.
pub open spec fn insert_new_tasks(
    m: Map<(u128, u64), TaskView>,
    app_id: u128,
    new_tasks: Seq<wire::TaskView>,
    stats: Seq<(u64, wire::Stats)>,
) -> Map<(u128, u64), TaskView>
    decreases new_tasks.len(),
{
    if new_tasks.len() == 0 {
        m
    } else {
        insert_new_tasks(
            insert_one_task(m, app_id, new_tasks[0], stats),
            app_id,
            new_tasks.drop_first(),
            stats,
        )
    }
}

/// Remove every task whose statistics snapshot carries a drop instant,
/// first to last.
pub open spec fn remove_dropped(
    m: Map<(u128, u64), TaskView>,
    app_id: u128,
    stats: Seq<(u64, wire::Stats)>,
) -> Map<(u128, u64), TaskView>
    decreases stats.len(),
{
    if stats.len() == 0 {
        m
    } else {
        let m1 = if stats[0].1.dropped_at is Some {
            m.remove((app_id, stats[0].0))
        } else {
            m
        };
        remove_dropped(m1, app_id, stats.drop_first())
    }
}

/// What one task update does to the task table: nothing for a missing or
/// disabled application; otherwise the announced tasks are inserted, then
/// the dropped ones removed.
pub open spec fn apply_task_update(
    m: Map<(u128, u64), TaskView>,
    apps: Map<u128, Application>,
    app_id: u128,
    u: wire::TaskUpdateView,
) -> Map<(u128, u64), TaskView> {
    if apps.contains_key(app_id) && apps[app_id].state is Enabled {
        remove_dropped(
            insert_new_tasks(m, app_id, u.new_tasks, u.stats_update),
            app_id,
            u.stats_update,
        )
    } else {
        m
    }
}

proof fn lemma_insert_new_tasks_snoc(
    m: Map<(u128, u64), TaskView>,
    app_id: u128,
    s: Seq<wire::TaskView>,
    x: wire::TaskView,
    stats: Seq<(u64, wire::Stats)>,
)
    ensures
        insert_new_tasks(m, app_id, s.push(x), stats) == insert_one_task(
            insert_new_tasks(m, app_id, s, stats),
            app_id,
            x,
            stats,
        ),
    decreases s.len(),
{
    if s.len() == 0 {
        assert(s.push(x)[0] == x);
        assert(s.push(x).drop_first() =~= Seq::<wire::TaskView>::empty());
        assert(insert_new_tasks(m, app_id, s.push(x), stats) == insert_new_tasks(
            insert_one_task(m, app_id, x, stats),
            app_id,
            Seq::<wire::TaskView>::empty(),
            stats,
        ));
        assert(insert_new_tasks(m, app_id, s, stats) == m);
    } else {
        assert(s.push(x)[0] == s[0]);
        assert(s.push(x).drop_first() =~= s.drop_first().push(x));
        let m1 = insert_one_task(m, app_id, s[0], stats);
        assert(insert_new_tasks(m, app_id, s.push(x), stats) == insert_new_tasks(
            m1,
            app_id,
            s.drop_first().push(x),
            stats,
        ));
        lemma_insert_new_tasks_snoc(m1, app_id, s.drop_first(), x, stats);
        assert(insert_new_tasks(m, app_id, s, stats) == insert_new_tasks(
            m1,
            app_id,
            s.drop_first(),
            stats,
        ));
    }
}

proof fn lemma_remove_dropped_snoc(
    m: Map<(u128, u64), TaskView>,
    app_id: u128,
    s: Seq<(u64, wire::Stats)>,
    x: (u64, wire::Stats),
)
    ensures
        remove_dropped(m, app_id, s.push(x)) == {
            let m1 = remove_dropped(m, app_id, s);
            if x.1.dropped_at is Some {
                m1.remove((app_id, x.0))
            } else {
                m1
            }
        },
    decreases s.len(),
{
    if s.len() == 0 {
        assert(s.push(x)[0] == x);
        assert(s.push(x).drop_first() =~= Seq::<(u64, wire::Stats)>::empty());
        let mx = if x.1.dropped_at is Some {
            m.remove((app_id, x.0))
        } else {
            m
        };
        assert(remove_dropped(m, app_id, s.push(x)) == remove_dropped(
            mx,
            app_id,
            Seq::<(u64, wire::Stats)>::empty(),
        ));
        assert(remove_dropped(m, app_id, s) == m);
    } else {
        assert(s.push(x)[0] == s[0]);
        assert(s.push(x).drop_first() =~= s.drop_first().push(x));
        let m1 = if s[0].1.dropped_at is Some {
            m.remove((app_id, s[0].0))
        } else {
            m
        };
        assert(remove_dropped(m, app_id, s.push(x)) == remove_dropped(
            m1,
            app_id,
            s.drop_first().push(x),
        ));
        lemma_remove_dropped_snoc(m1, app_id, s.drop_first(), x);
        assert(remove_dropped(m, app_id, s) == remove_dropped(m1, app_id, s.drop_first()));
    }
}

/// The first statistics snapshot recorded for a span id, as the update
/// carries them.
fn lookup_stats(stats: &Vec<(u64, wire::Stats)>, id: u64) -> (r: Option<wire::Stats>)
    ensures
        r == stats_lookup(stats@, id),
{
    let ghost s = stats@;
    proof {
        assert(s.skip(0) =~= s);
    }
    let mut i: usize = 0;
    while i < stats.len()
        invariant
            i <= s.len(),
            stats@ == s,
            stats_lookup(s, id) == stats_lookup(s.skip(i as int), id),
        decreases s.len() - i,
    {
        proof {
            assert(s.skip(i as int)[0] == s[i as int]);
            assert(s.skip(i as int).drop_first() =~= s.skip(i as int + 1));
        }
        if stats[i].0 == id {
            return Some(stats[i].1);
        }
        i = i + 1;
    }
    None
}

impl State {
    /// Reconcile one task update for a target: for an application that is
    /// missing or disabled the update is dropped whole; otherwise each
    /// announced task that decodes is inserted under its composite key,
    /// shadowing any prior record, then each task whose statistics snapshot
    /// carries a drop instant is removed, and the table is written through.
    /// Returns the written snapshot where one was written.
    pub fn handle_task_update(&mut self, app_id: u128, task_update: wire::TaskUpdate) -> (r: Option<
        Vec<Task>,
    >)
        requires
            old(self).wf(),
        ensures
            final(self).wf(),
            final(self).applications@ == old(self).applications@,
            final(self).disk_applications == old(self).disk_applications,
            final(self).task_map() == apply_task_update(
                old(self).task_map(),
                old(self).apps(),
                app_id,
                task_update@,
            ),
            match r {
                Some(snapshot) => {
                    &&& old(self).apps().contains_key(app_id)
                    &&& old(self).apps()[app_id].state is Enabled
                    &&& final(self).tasks_flushed()
                    &&& snapshot.deep_view() == final(self).tasks.deep_view()
                },
                None => {
                    &&& !(old(self).apps().contains_key(app_id) && old(self).apps()[app_id].state
                        is Enabled)
                    &&& *final(self) == *old(self)
                },
            },
    {
        let enabled = match self.find_app_index(app_id) {
            Some(i) => match self.applications[i].state() {
                ApplicationState::Enabled => true,
                ApplicationState::Disabled => false,
            },
            None => false,
        };
        if !enabled {
            return None;
        }
        let ghost m0 = self.task_map();
        let ghost apps0 = self.apps();
        let ghost u = task_update@;
        let new_tasks = &task_update.new_tasks;
        let stats_vec = &task_update.stats_update;
        proof {
            assert(new_tasks.deep_view().take(0) =~= Seq::<wire::TaskView>::empty());
        }
        let mut ti: usize = 0;
        while ti < new_tasks.len()
            invariant
                self.wf(),
                ti <= new_tasks@.len(),
                new_tasks.deep_view() == u.new_tasks,
                stats_vec@ == u.stats_update,
                new_tasks@.len() == u.new_tasks.len(),
                self.applications@ == old(self).applications@,
                self.disk_applications == old(self).disk_applications,
                self.disk_tasks == old(self).disk_tasks,
                self.task_map() == insert_new_tasks(
                    m0,
                    app_id,
                    u.new_tasks.take(ti as int),
                    u.stats_update,
                ),
            decreases new_tasks@.len() - ti,
        {
            let task = &new_tasks[ti];
            proof {
                assert(u.new_tasks[ti as int] == new_tasks@[ti as int]@);
                assert(u.new_tasks.take(ti + 1 as int) =~= u.new_tasks.take(ti as int).push(
                    u.new_tasks[ti as int],
                ));
                lemma_insert_new_tasks_snoc(
                    m0,
                    app_id,
                    u.new_tasks.take(ti as int),
                    u.new_tasks[ti as int],
                    u.stats_update,
                );
            }
            let sid = match task.id {
                Some(sid) => Some(sid),
                None => None,
            };
            if let Some(sid) = sid {
                if let Some(st) = lookup_stats(stats_vec, sid) {
                    if let Some(t) = map_to_domain_task(app_id, task, &st) {
                        proof {
                            assert(t@ == decode_task(app_id, task@, st));
                            assert((t.app_id, t.id) == (app_id, sid));
                        }
                        self.insert_task(t);
                    }
                }
            }
            ti = ti + 1;
        }
        proof {
            assert(u.new_tasks.take(u.new_tasks.len() as int) =~= u.new_tasks);
        }
        let ghost m1 = self.task_map();
        proof {
            assert(u.stats_update.take(0) =~= Seq::<(u64, wire::Stats)>::empty());
        }
        let mut si: usize = 0;
        while si < stats_vec.len()
            invariant
                self.wf(),
                si <= stats_vec@.len(),
                stats_vec@ == u.stats_update,
                self.applications@ == old(self).applications@,
                self.disk_applications == old(self).disk_applications,
                self.disk_tasks == old(self).disk_tasks,
                self.task_map() == remove_dropped(m1, app_id, u.stats_update.take(si as int)),
            decreases stats_vec@.len() - si,
        {
            let pair = stats_vec[si];
            proof {
                assert(u.stats_update.take(si + 1 as int) =~= u.stats_update.take(si as int).push(
                    u.stats_update[si as int],
                ));
                lemma_remove_dropped_snoc(
                    m1,
                    app_id,
                    u.stats_update.take(si as int),
                    u.stats_update[si as int],
                );
            }
            if pair.1.dropped_at.is_some() {
                self.remove_task((app_id, pair.0));
            }
            si = si + 1;
        }
        proof {
            assert(u.stats_update.take(u.stats_update.len() as int) =~= u.stats_update);
        }
        self.disk_tasks = Ghost(self.task_map());
        Some(self.get_tasks())
    }

    /// Enable a registered application and attach the supervisor's command
    /// handle, then write the registry through. An unknown id changes
    /// nothing and the handle is dropped. Returns the written snapshot where
    /// one was written.
    pub fn enable_app(&mut self, id: u128, connection: Connection) -> (r: Option<
        Vec<ApplicationRecord>,
    >)
        requires
            old(self).wf(),
        ensures
            final(self).wf(),
            final(self).tasks@ == old(self).tasks@,
            final(self).disk_tasks == old(self).disk_tasks,
            match r {
                Some(snapshot) => {
                    &&& old(self).apps().contains_key(id)
                    &&& final(self).apps() == old(self).apps().insert(
                        id,
                        Application {
                            state: ApplicationState::Enabled,
                            connection: Some(connection),
                            ..old(self).apps()[id]
                        },
                    )
                    &&& final(self).apps_flushed()
                    &&& snapshot@ == record_seq(final(self).applications@)
                },
                None => !old(self).apps().contains_key(id) && *final(self) == *old(self),
            },
    {
        let ghost s0 = self.applications@;
        match self.find_app_index(id) {
            Some(i) => {
                let mut app = self.applications.remove(i);
                app.enable(connection);
                proof {
                    assert(s0.remove(i as int).insert(i as int, app) =~= s0.update(i as int, app));
                    lemma_map_update(s0, app_kf(), app_vf(), i as int, app);
                    lemma_map_update(s0, app_kf(), app_rec_vf(), i as int, app);
                }
                self.applications.insert(i, app);
                self.disk_applications = Ghost(self.app_records());
                Some(self.snapshot_applications())
            },
            None => None,
        }
    }

    /// Set every application `Disabled`, detaching all connection handles,
    /// and write the registry through. This is the registry's shape right
    /// before the targets are reconnected: no supervisor is live yet.
    /// Returns the written snapshot.
    pub fn disable_all(&mut self) -> (r: Vec<ApplicationRecord>)
        requires
            old(self).wf(),
        ensures
            final(self).wf(),
            final(self).tasks@ == old(self).tasks@,
            final(self).disk_tasks == old(self).disk_tasks,
            final(self).apps_flushed(),
            r@ == record_seq(final(self).applications@),
            final(self).applications@.len() == old(self).applications@.len(),
            forall|j: int|
                0 <= j < old(self).applications@.len() ==> final(self).applications@[j]
                    == (Application {
                    state: ApplicationState::Disabled,
                    connection: None,
                    ..old(self).applications@[j]
                }),
            final(self).apps().dom() =~= old(self).apps().dom(),
            forall|id: u128|
                #[trigger] old(self).apps().contains_key(id) ==> final(self).apps()[id]
                    == (Application {
                    state: ApplicationState::Disabled,
                    connection: None,
                    ..old(self).apps()[id]
                }),
    {
        let ghost s0 = self.applications@;
        let mut i: usize = 0;
        while i < self.applications.len()
            invariant
                self.applications@.len() == s0.len(),
                i <= s0.len(),
                unique_keys(s0, app_kf()),
                forall|j: int|
                    0 <= j < i ==> self.applications@[j] == (Application {
                        state: ApplicationState::Disabled,
                        connection: None,
                        ..s0[j]
                    }),
                forall|j: int| i <= j < s0.len() ==> self.applications@[j] == s0[j],
                self.tasks@ == old(self).tasks@,
                self.disk_applications == old(self).disk_applications,
                self.disk_tasks == old(self).disk_tasks,
            decreases s0.len() - i,
        {
            let ghost sc = self.applications@;
            let mut app = self.applications.remove(i);
            app.state = ApplicationState::Disabled;
            let dropped = app.connection.take();
            self.applications.insert(i, app);
            proof {
                assert(self.applications@ =~= sc.update(i as int, app));
            }
            i = i + 1;
        }
        proof {
            assert(forall|j: int|
                0 <= j < self.applications@.len() ==> (#[trigger] self.applications@[j]).id
                    == s0[j].id);
            assert(unique_keys(self.applications@, app_kf()));
            assert forall|id: u128| #[trigger]
                seq_kv_map(s0, app_kf(), app_vf()).contains_key(id) implies seq_kv_map(
                self.applications@,
                app_kf(),
                app_vf(),
            ).contains_key(id) && seq_kv_map(self.applications@, app_kf(), app_vf())[id]
                == (Application {
                state: ApplicationState::Disabled,
                connection: None,
                ..seq_kv_map(s0, app_kf(), app_vf())[id]
            }) by {
                lemma_map_contains(s0, app_kf(), app_vf(), id);
                let j = choose|j: int| 0 <= j < s0.len() && app_kf()(s0[j]) == id;
                lemma_map_index(s0, app_kf(), app_vf(), j);
                lemma_map_index(self.applications@, app_kf(), app_vf(), j);
                lemma_map_contains(self.applications@, app_kf(), app_vf(), id);
            }
            assert forall|id: u128| #[trigger]
                seq_kv_map(self.applications@, app_kf(), app_vf()).contains_key(id) implies
                seq_kv_map(s0, app_kf(), app_vf()).contains_key(id) by {
                lemma_map_contains(self.applications@, app_kf(), app_vf(), id);
                lemma_map_contains(s0, app_kf(), app_vf(), id);
            }
            assert(self.apps().dom() =~= seq_kv_map(s0, app_kf(), app_vf()).dom());
        }
        self.disk_applications = Ghost(self.app_records());
        self.snapshot_applications()
    }
}

// Laws of the task-update transition.

/// A task update for a missing or disabled application is dropped whole:
/// the task table does not change. In particular, once an application is
/// disabled, every further task update for it is a no-op.
pub proof fn lemma_update_ignored_for_disabled(
    m: Map<(u128, u64), TaskView>,
    apps: Map<u128, Application>,
    app_id: u128,
    u: wire::TaskUpdateView,
)
    requires
        !(apps.contains_key(app_id) && apps[app_id].state is Enabled),
    ensures
        apply_task_update(m, apps, app_id, u) == m,
{
}

proof fn lemma_insert_new_tasks_keys(
    m: Map<(u128, u64), TaskView>,
    app_id: u128,
    s: Seq<wire::TaskView>,
    stats: Seq<(u64, wire::Stats)>,
)
    ensures
        forall|k: (u128, u64)|
            #[trigger] insert_new_tasks(m, app_id, s, stats).contains_key(k) ==> m.contains_key(k)
                || k.0 == app_id,
    decreases s.len(),
{
    if s.len() > 0 {
        let m1 = insert_one_task(m, app_id, s[0], stats);
        lemma_insert_new_tasks_keys(m1, app_id, s.drop_first(), stats);
        assert forall|k: (u128, u64)| #[trigger]
            insert_new_tasks(m, app_id, s, stats).contains_key(k) implies m.contains_key(k) || k.0
            == app_id by {
            assert(insert_new_tasks(m1, app_id, s.drop_first(), stats).contains_key(k));
        }
    }
}

proof fn lemma_remove_dropped_keys(
    m: Map<(u128, u64), TaskView>,
    app_id: u128,
    stats: Seq<(u64, wire::Stats)>,
)
    ensures
        forall|k: (u128, u64)|
            #[trigger] remove_dropped(m, app_id, stats).contains_key(k) ==> m.contains_key(k),
    decreases stats.len(),
{
    if stats.len() > 0 {
        let m1 = if stats[0].1.dropped_at is Some {
            m.remove((app_id, stats[0].0))
        } else {
            m
        };
        lemma_remove_dropped_keys(m1, app_id, stats.drop_first());
        assert forall|k: (u128, u64)| #[trigger]
            remove_dropped(m, app_id, stats).contains_key(k) implies m.contains_key(k) by {
            assert(remove_dropped(m1, app_id, stats.drop_first()).contains_key(k));
        }
    }
}

/// A task update inserts keys only for the application it addresses: every
/// key it adds to the table is owned by that application, and a disabled or
/// unknown application gains none.
pub proof fn lemma_update_adds_only_owned_keys(
    m: Map<(u128, u64), TaskView>,
    apps: Map<u128, Application>,
    app_id: u128,
    u: wire::TaskUpdateView,
)
    ensures
        forall|k: (u128, u64)|
            #[trigger] apply_task_update(m, apps, app_id, u).contains_key(k) ==> m.contains_key(k)
                || k.0 == app_id,
    decreases u.new_tasks.len(),
{
    if apps.contains_key(app_id) && apps[app_id].state is Enabled {
        lemma_insert_new_tasks_keys(m, app_id, u.new_tasks, u.stats_update);
        lemma_remove_dropped_keys(
            insert_new_tasks(m, app_id, u.new_tasks, u.stats_update),
            app_id,
            u.stats_update,
        );
    }
}

/// The composite keys that a statistics part drops for one application.
pub open spec fn dropped_keys(app_id: u128, s: Seq<(u64, wire::Stats)>) -> Set<(u128, u64)> {
    Set::new(
        |k: (u128, u64)|
            exists|i: int|
                0 <= i < s.len() && (#[trigger] s[i]).1.dropped_at is Some && k == (app_id, s[i].0),
    )
}

proof fn lemma_remove_dropped_is_remove_keys(
    m: Map<(u128, u64), TaskView>,
    app_id: u128,
    s: Seq<(u64, wire::Stats)>,
)
    ensures
        remove_dropped(m, app_id, s) =~= m.remove_keys(dropped_keys(app_id, s)),
    decreases s.len(),
{
    if s.len() == 0 {
        assert(remove_dropped(m, app_id, s) =~= m.remove_keys(dropped_keys(app_id, s)));
    } else {
        let m1 = if s[0].1.dropped_at is Some {
            m.remove((app_id, s[0].0))
        } else {
            m
        };
        lemma_remove_dropped_is_remove_keys(m1, app_id, s.drop_first());
        assert forall|k: (u128, u64)|
            remove_dropped(m, app_id, s).contains_key(k) <==> m.remove_keys(
                dropped_keys(app_id, s),
            ).contains_key(k) by {
            if dropped_keys(app_id, s.drop_first()).contains(k) {
                let i = choose|i: int|
                    0 <= i < s.drop_first().len() && (#[trigger] s.drop_first()[i]).1.dropped_at
                        is Some && k == (app_id, s.drop_first()[i].0);
                assert(s[i + 1] == s.drop_first()[i]);
                assert(dropped_keys(app_id, s).contains(k));
            }
            if dropped_keys(app_id, s).contains(k) {
                let i = choose|i: int|
                    0 <= i < s.len() && (#[trigger] s[i]).1.dropped_at is Some && k == (
                        app_id,
                        s[i].0,
                    );
                if i == 0 {
                    assert(s[0].1.dropped_at is Some && k == (app_id, s[0].0));
                } else {
                    assert(s.drop_first()[i - 1] == s[i]);
                    assert(dropped_keys(app_id, s.drop_first()).contains(k));
                }
            }
        }
    }
}

/// After an application is disabled, any further task update for it is a
/// no-op: against a registry in which the application stands disabled, the
/// update leaves the task table untouched.
pub proof fn lemma_update_after_disable(
    m: Map<(u128, u64), TaskView>,
    apps: Map<u128, Application>,
    app_id: u128,
    a: Application,
    u: wire::TaskUpdateView,
)
    requires
        a.state is Disabled,
    ensures
        apply_task_update(m, apps.insert(app_id, a), app_id, u) == m,
{
}

/// Removing tasks through drop instants is idempotent: an update that
/// announces no tasks leaves, applied a second time, the table exactly as
/// after the first application.
pub proof fn lemma_dropped_removal_idempotent(
    m: Map<(u128, u64), TaskView>,
    apps: Map<u128, Application>,
    app_id: u128,
    u: wire::TaskUpdateView,
)
    requires
        u.new_tasks.len() == 0,
    ensures
        apply_task_update(apply_task_update(m, apps, app_id, u), apps, app_id, u)
            == apply_task_update(m, apps, app_id, u),
{
    if apps.contains_key(app_id) && apps[app_id].state is Enabled {
        let m1 = apply_task_update(m, apps, app_id, u);
        assert(m1 == remove_dropped(m, app_id, u.stats_update));
        lemma_remove_dropped_is_remove_keys(m, app_id, u.stats_update);
        lemma_remove_dropped_is_remove_keys(m1, app_id, u.stats_update);
        assert(m1.remove_keys(dropped_keys(app_id, u.stats_update)) =~= m1);
    }
}

// Laws of persistence: loading the written snapshots restores the store.

/// An application with its connection handle detached.
pub open spec fn strip_connection() -> spec_fn(Application) -> Application {
    |a: Application| Application { connection: None, ..a }
}

/// Loading the written registry snapshot yields the registry itself, each
/// application up to its transient connection handle.
pub proof fn lemma_registry_round_trip(s: Seq<Application>)
    ensures
        seq_kv_map(record_seq(s), rec_kf(), rec_app_vf()) == seq_kv_map(
            s,
            app_kf(),
            app_vf(),
        ).map_values(strip_connection()),
    decreases s.len(),
{
    if s.len() == 0 {
        assert(seq_kv_map(record_seq(s), rec_kf(), rec_app_vf()) =~= seq_kv_map(
            s,
            app_kf(),
            app_vf(),
        ).map_values(strip_connection()));
    } else {
        assert(record_seq(s).drop_last() =~= record_seq(s.drop_last()));
        assert(record_seq(s).last() == s.last().spec_record());
        lemma_registry_round_trip(s.drop_last());
        assert(seq_kv_map(record_seq(s), rec_kf(), rec_app_vf()) =~= seq_kv_map(
            s,
            app_kf(),
            app_vf(),
        ).map_values(strip_connection()));
    }
}

/// Two task sequences equal view by view — as a written snapshot is to the
/// table it copied — read as the same map.
pub proof fn lemma_task_map_respects_views(s1: Seq<Task>, s2: Seq<Task>)
    requires
        s1.len() == s2.len(),
        forall|i: int| 0 <= i < s1.len() ==> s1[i]@ == s2[i]@,
    ensures
        seq_kv_map(s1, task_kf(), task_vf()) == seq_kv_map(s2, task_kf(), task_vf()),
    decreases s1.len(),
{
    if s1.len() > 0 {
        lemma_task_map_respects_views(s1.drop_last(), s2.drop_last());
        assert(s1.last()@ == s2.last()@);
        assert(s1.last().app_id == s2.last().app_id && s1.last().id == s2.last().id);
        assert(seq_kv_map(s1, task_kf(), task_vf()) =~= seq_kv_map(s2, task_kf(), task_vf()));
    }
}

} // verus!
