use vstd::prelude::*;

use crate::application::{
    fresh_id, AppUrl, Application, ApplicationRecord, ApplicationState,
};
use crate::connection::{Connection, Event};
use crate::connection_manager::ConnectionManager;
use crate::error::Error;
use crate::state::{apply_task_update, rec_app_vf, rec_kf, record_seq, LoadOutcome, State};
use crate::store::seq_kv_map;
use crate::task::{Task, TaskView};

verus! {

/// The engine behind the monitor: the registry of live supervisors and the
/// authoritative store, wired together. The embedding shell owns the event
/// channel, the supervisor tasks and every await; all decisions about the
/// shared state are made here.
pub struct StateManager {
    pub connection_manager: ConnectionManager,
    pub state: State,
}

/// The first connection provided for an id.
pub open spec fn conn_lookup(s: Seq<(u128, Connection)>, id: u128) -> Option<Connection>
    decreases s.len(),
{
    if s.len() == 0 {
        None
    } else if s[0].0 == id {
        Some(s[0].1)
    } else {
        conn_lookup(s.drop_first(), id)
    }
}

proof fn lemma_conn_lookup_none(s: Seq<(u128, Connection)>, id: u128)
    ensures
        (conn_lookup(s, id) is None) <==> (forall|i: int|
            0 <= i < s.len() ==> (#[trigger] s[i]).0 != id),
    decreases s.len(),
{
    if s.len() > 0 {
        lemma_conn_lookup_none(s.drop_first(), id);
        if s[0].0 != id {
            assert forall|i: int| 1 <= i < s.len() implies (#[trigger] s[i]).0 != id || !(
            conn_lookup(s, id) is None) by {
                assert(s.drop_first()[i - 1] == s[i]);
            }
            if forall|i: int| 0 <= i < s.len() ==> (#[trigger] s[i]).0 != id {
                assert forall|i: int|
                    0 <= i < s.drop_first().len() implies (#[trigger] s.drop_first()[i]).0
                    != id by {
                    assert(s.drop_first()[i] == s[i + 1]);
                }
            }
        }
    }
}

impl StateManager {
    pub open spec fn wf(&self) -> bool {
        &&& self.connection_manager.wf()
        &&& self.state.wf()
    }

    /// Every application in state `Enabled` has its id among the live
    /// supervisors.
    pub open spec fn enabled_implies_live(&self) -> bool {
        forall|id: u128|
            #[trigger] self.state.apps().contains_key(id) && self.state.apps()[id].state
                is Enabled ==> self.connection_manager.live().contains(id)
    }

    /// Every task in the table belongs to a registered application.
    pub open spec fn tasks_have_owner(&self) -> bool {
        forall|k: (u128, u64)|
            #[trigger] self.state.task_map().contains_key(k) ==> self.state.apps().contains_key(
                k.0,
            )
    }

    /// The invariants of the running system: well-formed collections, a
    /// live supervisor behind every enabled application, and an owner
    /// behind every task. Established by the reconnect pass at startup and
    /// preserved by every operation.
    pub open spec fn consistent(&self) -> bool {
        &&& self.wf()
        &&& self.enabled_implies_live()
        &&& self.tasks_have_owner()
    }

    /// Bring the engine up from what startup found: the storage
    /// directory's fate and the two collection files' load outcomes. A
    /// storage directory that could not be created is fatal; a collection
    /// that would not decode is logged by the shell and replaced by a
    /// fresh, empty store; otherwise the loaded records stand, except that
    /// a task whose owning application is not among the loaded ones is
    /// pruned — whatever the files held, every task in the table has an
    /// owner. No supervisor is live yet.
    pub fn new(
        applications: LoadOutcome<ApplicationRecord>,
        tasks: LoadOutcome<Task>,
        storage_error: Option<String>,
    ) -> (r: Result<StateManager, Error>)
        ensures
            match r {
                Err(e) => storage_error matches Some(path) && e == (Error::CannotCreateStorage {
                    path,
                }),
                Ok(sm) => {
                    &&& storage_error is None
                    &&& sm.wf()
                    &&& sm.tasks_have_owner()
                    &&& sm.connection_manager.live() == Set::<u128>::empty()
                    &&& sm.state.apps_flushed()
                    &&& sm.state.tasks_flushed()
                    &&& if applications is Malformed || tasks is Malformed {
                        sm.state.apps() == Map::<u128, Application>::empty()
                            && sm.state.task_map() == Map::<(u128, u64), TaskView>::empty()
                    } else {
                        sm.state.apps() == (match applications {
                            LoadOutcome::Loaded(v) => seq_kv_map(v@, rec_kf(), rec_app_vf()),
                            _ => Map::<u128, Application>::empty(),
                        }) && sm.state.task_map() == (match tasks {
                            LoadOutcome::Loaded(v) => seq_kv_map(
                                v@,
                                crate::state::task_kf(),
                                crate::state::task_vf(),
                            ).remove_keys(State::orphan_keys(sm.state.apps())),
                            _ => Map::<(u128, u64), TaskView>::empty(),
                        })
                    }
                },
            },
    {
        if let Some(path) = storage_error {
            return Err(Error::CannotCreateStorage { path });
        }
        let mut state = match State::load(applications, tasks) {
            Ok(s) => s,
            Err(_load_error) => State::new(),
        };
        let _pruned = state.prune_orphan_tasks();
        proof {
            assert(Map::<(u128, u64), TaskView>::empty().remove_keys(
                State::orphan_keys(state.apps()),
            ) =~= Map::<(u128, u64), TaskView>::empty());
        }
        Ok(StateManager { connection_manager: ConnectionManager::new(), state })
    }

    /// Register and enable a new application under a given id: resolve it
    /// against the probe results, record its supervisor, attach the
    /// command handle, and store it. Fails with `PIDNotFound` exactly when
    /// the URL has no explicit port or the probe resolved nothing, and
    /// with `ApplicationAlreadyConnected` when a supervisor is already
    /// live for the id; a failure changes nothing.
    pub fn register_application(
        &mut self,
        id: u128,
        title: String,
        url: AppUrl,
        pid: Option<u32>,
        start_time: Option<u64>,
        connection: Connection,
    ) -> (r: Result<u128, Error>)
        requires
            old(self).wf(),
        ensures
            final(self).wf(),
            old(self).consistent() ==> final(self).consistent(),
            final(self).state.tasks@ == old(self).state.tasks@,
            final(self).state.disk_tasks == old(self).state.disk_tasks,
            match r {
                Ok(rid) => {
                    &&& rid == id
                    &&& url.port is Some && pid is Some && start_time is Some
                    &&& !old(self).connection_manager.live().contains(id)
                    &&& final(self).connection_manager.live() == old(
                        self,
                    ).connection_manager.live().insert(id)
                    &&& final(self).state.apps() == old(self).state.apps().insert(
                        id,
                        Application {
                            pid: pid->0,
                            id,
                            title,
                            url,
                            start_time: start_time->0,
                            state: ApplicationState::Enabled,
                            cpu_usage: 0,
                            memory_usage: 0,
                            connection: Some(connection),
                        },
                    )
                    &&& final(self).state.apps_flushed()
                },
                Err(e) => {
                    &&& *final(self) == *old(self)
                    &&& if url.port is None || pid is None || start_time is None {
                        e == (Error::PIDNotFound { url: url.text })
                    } else {
                        old(self).connection_manager.live().contains(id) && e
                            == Error::ApplicationAlreadyConnected(id)
                    }
                },
            },
    {
        let mut application = match Application::with_id(id, title, url, pid, start_time) {
            Ok(app) => app,
            Err(e) => {
                return Err(e);
            },
        };
        match self.connection_manager.connect_app(id) {
            Ok(()) => {},
            Err(e) => {
                return Err(e);
            },
        }
        application.enable(connection);
        let _snapshot = self.state.store_app(application);
        proof {
            if old(self).consistent() {
                assert forall|id2: u128| #[trigger]
                    self.state.apps().contains_key(id2) && self.state.apps()[id2].state
                        is Enabled implies self.connection_manager.live().contains(id2) by {
                    if id2 != id {
                        assert(old(self).state.apps().contains_key(id2));
                    }
                }
                assert forall|k: (u128, u64)| #[trigger]
                    self.state.task_map().contains_key(k) implies self.state.apps().contains_key(
                    k.0,
                ) by {
                    assert(old(self).state.task_map().contains_key(k));
                    assert(old(self).state.apps().contains_key(k.0));
                }
            }
        }
        Ok(id)
    }

    /// Register and enable a new application under a freshly drawn id. The
    /// shell creates the supervisor's command channel first and hands the
    /// send half in; on success it spawns the supervisor, on failure it
    /// drops the channel.
    pub fn add_application(
        &mut self,
        title: String,
        url: AppUrl,
        pid: Option<u32>,
        start_time: Option<u64>,
        connection: Connection,
    ) -> (r: Result<u128, Error>)
        requires
            old(self).wf(),
        ensures
            final(self).wf(),
            old(self).consistent() ==> final(self).consistent(),
            final(self).state.tasks@ == old(self).state.tasks@,
            final(self).state.disk_tasks == old(self).state.disk_tasks,
            (url.port is Some && pid is Some && start_time is Some && old(
                self,
            ).connection_manager.live() == Set::<u128>::empty()) ==> r is Ok,
            match r {
                Ok(rid) => {
                    &&& url.port is Some && pid is Some && start_time is Some
                    &&& !old(self).connection_manager.live().contains(rid)
                    &&& final(self).connection_manager.live() == old(
                        self,
                    ).connection_manager.live().insert(rid)
                    &&& final(self).state.apps() == old(self).state.apps().insert(
                        rid,
                        Application {
                            pid: pid->0,
                            id: rid,
                            title,
                            url,
                            start_time: start_time->0,
                            state: ApplicationState::Enabled,
                            cpu_usage: 0,
                            memory_usage: 0,
                            connection: Some(connection),
                        },
                    )
                    &&& final(self).state.apps_flushed()
                },
                Err(e) => {
                    &&& *final(self) == *old(self)
                    &&& (e == (Error::PIDNotFound { url: url.text })
                        || e matches Error::ApplicationAlreadyConnected(_))
                    &&& (url.port is None || pid is None || start_time is None) ==> e
                        == (Error::PIDNotFound { url: url.text })
                    &&& e matches Error::ApplicationAlreadyConnected(cid) ==> old(
                        self,
                    ).connection_manager.live().contains(cid)
                },
            },
    {
        let id = fresh_id();
        self.register_application(id, title, url, pid, start_time, connection)
    }

    /// Disable an application: detach and return its command handle for
    /// the shell to send `Disconnect` on, and hand back the written
    /// registry snapshot.
    pub fn disable_application(&mut self, uuid: u128) -> (r: (
        Option<Connection>,
        Vec<ApplicationRecord>,
    ))
        requires
            old(self).wf(),
        ensures
            final(self).wf(),
            old(self).consistent() ==> final(self).consistent(),
            final(self).connection_manager == old(self).connection_manager,
            final(self).state.tasks@ == old(self).state.tasks@,
            final(self).state.disk_tasks == old(self).state.disk_tasks,
            final(self).state.apps_flushed(),
            r.1@ == record_seq(final(self).state.applications@),
            match old(self).state.apps().contains_key(uuid) {
                true => {
                    &&& final(self).state.apps() == old(self).state.apps().insert(
                        uuid,
                        Application {
                            state: ApplicationState::Disabled,
                            connection: None,
                            ..old(self).state.apps()[uuid]
                        },
                    )
                    &&& r.0 == old(self).state.apps()[uuid].connection
                },
                false => final(self).state.apps() == old(self).state.apps() && r.0 is None,
            },
    {
        let r = self.state.disable_app(uuid);
        proof {
            if old(self).consistent() {
                assert forall|id2: u128| #[trigger]
                    self.state.apps().contains_key(id2) && self.state.apps()[id2].state
                        is Enabled implies self.connection_manager.live().contains(id2) by {
                    assert(old(self).state.apps().contains_key(id2));
                    assert(old(self).state.apps()[id2].state is Enabled);
                }
                assert forall|k: (u128, u64)| #[trigger]
                    self.state.task_map().contains_key(k) implies self.state.apps().contains_key(
                    k.0,
                ) by {
                    assert(old(self).state.task_map().contains_key(k));
                    assert(old(self).state.apps().contains_key(k.0));
                }
            }
        }
        r
    }

    /// Delete an application: forget its supervisor — dropping the shell's
    /// handles is the shutdown signal — remove it from the registry with
    /// every task it owned, and hand back the two written snapshots.
    pub fn delete_connection(&mut self, uuid: u128) -> (r: (
        Vec<ApplicationRecord>,
        Vec<Task>,
    ))
        requires
            old(self).wf(),
        ensures
            final(self).wf(),
            old(self).consistent() ==> final(self).consistent(),
            final(self).connection_manager.live() == old(self).connection_manager.live().remove(
                uuid,
            ),
            final(self).state.apps() == old(self).state.apps().remove(uuid),
            final(self).state.task_map() == old(self).state.task_map().remove_keys(
                State::owned_keys(uuid),
            ),
            final(self).state.apps_flushed(),
            final(self).state.tasks_flushed(),
            r.0@ == record_seq(final(self).state.applications@),
            r.1.deep_view() == final(self).state.tasks.deep_view(),
    {
        self.connection_manager.disconnect_app(uuid);
        let r = self.state.delete_app(uuid);
        proof {
            if old(self).consistent() {
                assert forall|id2: u128| #[trigger]
                    self.state.apps().contains_key(id2) && self.state.apps()[id2].state
                        is Enabled implies self.connection_manager.live().contains(id2) by {
                    assert(old(self).state.apps().contains_key(id2));
                }
                assert forall|k: (u128, u64)| #[trigger]
                    self.state.task_map().contains_key(k) implies self.state.apps().contains_key(
                    k.0,
                ) by {
                    assert(old(self).state.task_map().contains_key(k));
                    assert(!State::owned_keys(uuid).contains(k));
                }
            }
        }
        r
    }

    /// Adopt a re-probed process id for a registered application, as done
    /// once per application at startup before the reconnect pass; a probe
    /// that resolved nothing leaves the old pid standing. Returns the
    /// written snapshot where one was written.
    pub fn reconcile_pid(&mut self, app_id: u128, probe: Option<u32>) -> (r: Option<
        Vec<ApplicationRecord>,
    >)
        requires
            old(self).wf(),
        ensures
            final(self).wf(),
            old(self).consistent() ==> final(self).consistent(),
            old(self).tasks_have_owner() ==> final(self).tasks_have_owner(),
            final(self).connection_manager == old(self).connection_manager,
            final(self).state.tasks@ == old(self).state.tasks@,
            final(self).state.disk_tasks == old(self).state.disk_tasks,
            match r {
                Some(snapshot) => {
                    &&& probe is Some
                    &&& old(self).state.apps().contains_key(app_id)
                    &&& final(self).state.apps() == old(self).state.apps().insert(
                        app_id,
                        Application { pid: probe->0, ..old(self).state.apps()[app_id] },
                    )
                    &&& final(self).state.apps_flushed()
                    &&& snapshot@ == record_seq(final(self).state.applications@)
                },
                None => {
                    &&& probe is None || !old(self).state.apps().contains_key(app_id)
                    &&& final(self).state == old(self).state
                },
            },
    {
        let r = self.state.reconcile_pid(app_id, probe);
        proof {
            if old(self).wf() {
                if old(self).enabled_implies_live() {
                    assert forall|id2: u128| #[trigger]
                        self.state.apps().contains_key(id2) && self.state.apps()[id2].state
                            is Enabled implies self.connection_manager.live().contains(id2) by {
                        assert(old(self).state.apps().contains_key(id2));
                        assert(old(self).state.apps()[id2].state is Enabled);
                    }
                }
                if old(self).tasks_have_owner() {
                    assert forall|k: (u128, u64)| #[trigger]
                        self.state.task_map().contains_key(
                            k,
                        ) implies self.state.apps().contains_key(k.0) by {
                        assert(old(self).state.task_map().contains_key(k));
                        assert(old(self).state.apps().contains_key(k.0));
                    }
                }
            }
        }
        r
    }

    /// Reconnect every persisted application at startup. The shell walks
    /// the loaded registry, creates one command channel per application and
    /// spawns its supervisor, then hands all the send halves in here, one
    /// per id. Each application with a connection on the list is recorded
    /// live and enabled with its handle; each without one — its spawn
    /// failed — remains registered but disabled. This pass establishes the
    /// running system's invariants: before it, no supervisor is live.
    pub fn reconnect_all_apps(&mut self, connections: Vec<(u128, Connection)>)
        requires
            old(self).wf(),
            old(self).connection_manager.live() == Set::<u128>::empty(),
            old(self).tasks_have_owner(),
            forall|i: int, j: int|
                0 <= i < j < connections@.len() ==> (#[trigger] connections@[i]).0 != (
                #[trigger] connections@[j]).0,
        ensures
            final(self).consistent(),
            final(self).state.tasks@ == old(self).state.tasks@,
            final(self).state.disk_tasks == old(self).state.disk_tasks,
            final(self).state.apps_flushed(),
            final(self).state.apps().dom() == old(self).state.apps().dom(),
            forall|id: u128|
                #[trigger] old(self).state.apps().contains_key(id) ==> final(self).state.apps()[id]
                    == (match conn_lookup(connections@, id) {
                    Some(conn) => Application {
                        state: ApplicationState::Enabled,
                        connection: Some(conn),
                        ..old(self).state.apps()[id]
                    },
                    None => Application {
                        state: ApplicationState::Disabled,
                        connection: None,
                        ..old(self).state.apps()[id]
                    },
                }),
            final(self).connection_manager.live() == Set::new(
                |id: u128|
                    old(self).state.apps().contains_key(id) && conn_lookup(connections@, id)
                        is Some,
            ),
    {
        let ghost apps0 = old(self).state.apps();
        let ghost c0 = connections@;
        let _ = self.state.disable_all();
        proof {
            assert(c0.take(c0.len() as int) =~= c0);
            assert(self.state.apps().dom() =~= apps0.dom());
            assert forall|id: u128| #[trigger] apps0.contains_key(id) implies conn_lookup(
                c0.skip(c0.len() as int),
                id,
            ) is None by {
                assert(c0.skip(c0.len() as int).len() == 0);
            }
            assert(self.connection_manager.live() =~= Set::new(
                |id: u128| apps0.contains_key(id) && conn_lookup(c0.skip(c0.len() as int), id)
                    is Some,
            ));
        }
        let mut connections = connections;
        while connections.len() > 0
            invariant
                self.wf(),
                connections@.len() <= c0.len(),
                c0.take(connections@.len() as int) == connections@,
                forall|i: int, j: int|
                    0 <= i < j < c0.len() ==> (#[trigger] c0[i]).0 != (#[trigger] c0[j]).0,
                self.state.tasks@ == old(self).state.tasks@,
                self.state.disk_tasks == old(self).state.disk_tasks,
                self.state.apps_flushed(),
                apps0 == old(self).state.apps(),
                self.state.apps().dom() =~= apps0.dom(),
                forall|id: u128|
                    #[trigger] apps0.contains_key(id) ==> self.state.apps()[id] == (
                    match conn_lookup(c0.skip(connections@.len() as int), id) {
                        Some(conn) => Application {
                            state: ApplicationState::Enabled,
                            connection: Some(conn),
                            ..apps0[id]
                        },
                        None => Application {
                            state: ApplicationState::Disabled,
                            connection: None,
                            ..apps0[id]
                        },
                    }),
                self.connection_manager.live() == Set::new(
                    |id: u128|
                        apps0.contains_key(id) && conn_lookup(
                            c0.skip(connections@.len() as int),
                            id,
                        ) is Some,
                ),
            decreases connections@.len(),
        {
            let ghost k = connections@.len() as int;
            let ghost live_before = self.connection_manager.live();
            let pair = match connections.pop() {
                Some(p) => p,
                None => {
                    proof {
                        assert(false);
                    }
                    return ;
                },
            };
            let (id, conn) = pair;
            proof {
                assert(pair == c0[k - 1]);
                assert(c0.skip(k - 1)[0] == c0[k - 1]);
                assert(c0.skip(k - 1).drop_first() =~= c0.skip(k));
                assert(c0.take(k - 1) =~= connections@);
                // Uniqueness: no later pair carries this id, so its lookup
                // in the already-processed suffix is empty.
                assert forall|i: int| 0 <= i < c0.skip(k).len() implies (#[trigger] c0.skip(
                    k,
                )[i]).0 != id by {
                    assert(c0.skip(k)[i] == c0[k + i]);
                }
                lemma_conn_lookup_none(c0.skip(k), id);
                assert(conn_lookup(c0.skip(k), id) is None);
                assert(conn_lookup(c0.skip(k - 1), id) == Some(conn));
                assert forall|id2: u128| id2 != id implies conn_lookup(c0.skip(k - 1), id2)
                    == conn_lookup(c0.skip(k), id2) by {}
            }
            let registered = match self.state.find_app_index(id) {
                Some(_) => true,
                None => false,
            };
            if registered {
                proof {
                    assert(!live_before.contains(id));
                }
                let _ = self.connection_manager.connect_app(id);
                let _ = self.state.enable_app(id, conn);
                proof {
                    assert(self.state.apps().dom() =~= apps0.dom());
                    assert(self.connection_manager.live() =~= Set::new(
                        |id2: u128|
                            apps0.contains_key(id2) && conn_lookup(c0.skip(k - 1), id2) is Some,
                    ));
                }
            } else {
                proof {
                    assert(!apps0.contains_key(id));
                    assert(self.connection_manager.live() =~= Set::new(
                        |id2: u128|
                            apps0.contains_key(id2) && conn_lookup(c0.skip(k - 1), id2) is Some,
                    ));
                }
            }
        }
        proof {
            assert(c0.skip(0) =~= c0);
            assert forall|id2: u128| #[trigger]
                self.state.apps().contains_key(id2) && self.state.apps()[id2].state
                    is Enabled implies self.connection_manager.live().contains(id2) by {
                assert(apps0.contains_key(id2));
            }
            assert forall|k2: (u128, u64)| #[trigger]
                self.state.task_map().contains_key(k2) implies self.state.apps().contains_key(
                k2.0,
            ) by {
                assert(old(self).state.task_map().contains_key(k2));
                assert(apps0.contains_key(k2.0));
            }
        }
    }

    /// Route one supervisor event to the store: a task update is
    /// reconciled into the task table, a metrics sample refreshes the
    /// application's readings, everything else is ignored. Returns the
    /// written snapshots: the task table's where the update was taken, the
    /// registry's where the sample was.
    pub fn handle_event(&mut self, app_id: u128, event: Event) -> (r: (
        Option<Vec<Task>>,
        Option<Vec<ApplicationRecord>>,
    ))
        requires
            old(self).wf(),
        ensures
            final(self).wf(),
            old(self).consistent() ==> final(self).consistent(),
            final(self).connection_manager == old(self).connection_manager,
            match event {
                Event::TaskUpdate(update) => {
                    &&& final(self).state.applications@ == old(self).state.applications@
                    &&& final(self).state.disk_applications == old(self).state.disk_applications
                    &&& final(self).state.task_map() == (match update@ {
                        Some(tu) => apply_task_update(
                            old(self).state.task_map(),
                            old(self).state.apps(),
                            app_id,
                            tu,
                        ),
                        None => old(self).state.task_map(),
                    })
                    &&& r.1 is None
                    &&& (r.0 matches Some(snapshot) ==> final(self).state.tasks_flushed()
                        && snapshot.deep_view() == final(self).state.tasks.deep_view())
                    &&& (r.0 is None ==> final(self).state.tasks@ == old(self).state.tasks@
                        && final(self).state.disk_tasks == old(self).state.disk_tasks)
                },
                Event::ApplicationUpdated(sample) => {
                    &&& final(self).state.tasks@ == old(self).state.tasks@
                    &&& final(self).state.disk_tasks == old(self).state.disk_tasks
                    &&& r.0 is None
                    &&& (match r.1 {
                        Some(snapshot) => {
                            &&& old(self).state.apps().contains_key(app_id)
                            &&& old(self).state.apps()[app_id].state is Enabled
                            &&& final(self).state.apps() == old(self).state.apps().insert(
                                app_id,
                                Application {
                                    cpu_usage: sample.cpu_usage,
                                    memory_usage: sample.memory_usage,
                                    ..old(self).state.apps()[app_id]
                                },
                            )
                            &&& final(self).state.apps_flushed()
                            &&& snapshot@ == record_seq(final(self).state.applications@)
                        },
                        None => {
                            &&& !(old(self).state.apps().contains_key(app_id) && old(
                                self,
                            ).state.apps()[app_id].state is Enabled)
                            &&& final(self).state == old(self).state
                        },
                    })
                },
                _ => *final(self) == *old(self) && r.0 is None && r.1 is None,
            },
    {
        match event {
            Event::TaskUpdate(update) => match update.task_update {
                Some(task_update) => {
                    let tasks_written = self.state.handle_task_update(app_id, task_update);
                    proof {
                        if old(self).consistent() {
                            crate::state::lemma_update_adds_only_owned_keys(
                                old(self).state.task_map(),
                                old(self).state.apps(),
                                app_id,
                                task_update@,
                            );
                            assert forall|k: (u128, u64)| #[trigger]
                                self.state.task_map().contains_key(
                                    k,
                                ) implies self.state.apps().contains_key(k.0) by {
                                if old(self).state.task_map().contains_key(k) {
                                    assert(old(self).state.apps().contains_key(k.0));
                                } else {
                                    assert(k.0 == app_id);
                                    assert(old(self).state.apps().contains_key(app_id));
                                }
                            }
                        }
                    }
                    (tasks_written, None)
                },
                None => (None, None),
            },
            Event::ApplicationUpdated(sample) => {
                let apps_written = self.state.handle_app_update(app_id, sample);
                proof {
                    if old(self).consistent() {
                        assert forall|id2: u128| #[trigger]
                            self.state.apps().contains_key(id2) && self.state.apps()[id2].state
                                is Enabled implies self.connection_manager.live().contains(
                            id2,
                        ) by {
                            assert(old(self).state.apps().contains_key(id2));
                            assert(old(self).state.apps()[id2].state is Enabled);
                        }
                        assert forall|k: (u128, u64)| #[trigger]
                            self.state.task_map().contains_key(
                                k,
                            ) implies self.state.apps().contains_key(k.0) by {
                            assert(old(self).state.task_map().contains_key(k));
                            assert(old(self).state.apps().contains_key(k.0));
                        }
                    }
                }
                (None, apps_written)
            },
            _ => (None, None),
        }
    }
}

/// A consistent engine has a live supervisor behind every application in
/// state `Enabled`.
pub proof fn lemma_enabled_has_supervisor(sm: StateManager, id: u128)
    requires
        sm.consistent(),
        sm.state.apps().contains_key(id),
        sm.state.apps()[id].state is Enabled,
    ensures
        sm.connection_manager.live().contains(id),
{
}

/// A consistent engine has a registered application behind every task in
/// the table.
pub proof fn lemma_task_has_owner(sm: StateManager, key: (u128, u64))
    requires
        sm.consistent(),
        sm.state.task_map().contains_key(key),
    ensures
        sm.state.apps().contains_key(key.0),
{
}

} // verus!
