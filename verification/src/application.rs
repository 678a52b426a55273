use vstd::prelude::*;

use crate::connection::Connection;
use crate::error::Error;

verus! {

/// The endpoint of one target's instrument service: the parsed URL's
/// serialization together with its explicit port, which is all the core
/// reads of it. The monitor requires an explicit port to resolve the hosting
/// process.
#[derive(Debug, PartialEq, Eq)]
pub struct AppUrl {
    pub text: String,
    pub port: Option<u16>,
}

/// Mathematical view of an endpoint.
pub ghost struct AppUrlView {
    pub text: Seq<char>,
    pub port: Option<u16>,
}

impl View for AppUrl {
    type V = AppUrlView;

    open spec fn view(&self) -> AppUrlView {
        AppUrlView { text: self.text@, port: self.port }
    }
}

impl Clone for AppUrl {
    fn clone(&self) -> (res: Self)
        ensures
            res == self,
    {
        AppUrl { text: self.text.clone(), port: self.port }
    }
}

/// What the URL parser makes of a text: the parsed serialization and the
/// explicit port when the text is a well-formed URL, nothing otherwise. A
/// function of the text alone.
pub uninterp spec fn parsed_url(s: Seq<char>) -> Option<(Seq<char>, Option<u16>)>;

/// Relies on the URL parser: `Url::parse` accepts exactly the well-formed
/// URL texts, `Url::as_str` returns the parsed serialization, and
/// `Url::port` the explicit port.
#[verifier::external_body]
pub fn parse_url(s: &str) -> (r: Result<AppUrl, Error>)
    ensures
        match r {
            Ok(u) => parsed_url(s@) == Some((u.text@, u.port)),
            Err(e) => parsed_url(s@) is None && e is Url,
        },
{
    match url::Url::parse(s) {
        Ok(u) => {
            let port = u.port();
            Ok(AppUrl { text: u.as_str().to_owned(), port })
        },
        Err(e) => Err(Error::Url(e.to_string())),
    }
}

/// Relies on the UUID generator: draws a fresh version-4 identifier from the
/// process's random source. Nothing is promised of the value.
#[verifier::external_body]
pub(crate) fn fresh_id() -> u128 {
    uuid::Uuid::new_v4().as_u128()
}

/// Whether a target is currently monitored. A disabled target stays
/// registered but accepts no task updates.
#[derive(Debug, Clone, Copy, PartialEq, Eq, Structural)]
pub enum ApplicationState {
    Disabled,
    Enabled,
}

/// A monitored target application: its metadata, its last sampled process
/// metrics, and — transiently — the send-capability into its supervisor.
/// The processor share is in hundredths of a percent; the start time in
/// seconds since the epoch.
pub struct Application {
    pub pid: u32,
    pub id: u128,
    pub title: String,
    pub url: AppUrl,
    pub start_time: u64,
    pub state: ApplicationState,
    pub cpu_usage: u32,
    pub memory_usage: u64,
    pub connection: Option<Connection>,
}

/// The persisted form of an application: every field but the transient
/// connection handle.
#[derive(Debug, PartialEq, Eq)]
pub struct ApplicationRecord {
    pub pid: u32,
    pub id: u128,
    pub title: String,
    pub url: AppUrl,
    pub start_time: u64,
    pub state: ApplicationState,
    pub cpu_usage: u32,
    pub memory_usage: u64,
}

impl Clone for ApplicationRecord {
    fn clone(&self) -> (res: Self)
        ensures
            res == self,
    {
        ApplicationRecord {
            pid: self.pid,
            id: self.id,
            title: self.title.clone(),
            url: self.url.clone(),
            start_time: self.start_time,
            state: self.state,
            cpu_usage: self.cpu_usage,
            memory_usage: self.memory_usage,
        }
    }
}

impl Application {
    /// The persisted form of this application.
    pub open spec fn spec_record(self) -> ApplicationRecord {
        ApplicationRecord {
            pid: self.pid,
            id: self.id,
            title: self.title,
            url: self.url,
            start_time: self.start_time,
            state: self.state,
            cpu_usage: self.cpu_usage,
            memory_usage: self.memory_usage,
        }
    }

    /// An application rebuilt from its persisted form: the same fields, no
    /// connection handle.
    pub open spec fn spec_from_record(record: ApplicationRecord) -> Application {
        Application {
            pid: record.pid,
            id: record.id,
            title: record.title,
            url: record.url,
            start_time: record.start_time,
            state: record.state,
            cpu_usage: record.cpu_usage,
            memory_usage: record.memory_usage,
            connection: None,
        }
    }

    /// Register a new target under a given id. The caller hands in what the
    /// process probe resolved for the URL: the pid listening on its port and
    /// that process's start time. Registration fails with `PIDNotFound`
    /// exactly when the URL has no explicit port or the probe resolved
    /// nothing; a fresh application starts enabled, with zeroed metrics and
    /// no connection handle.
    pub fn with_id(
        id: u128,
        title: String,
        url: AppUrl,
        pid: Option<u32>,
        start_time: Option<u64>,
    ) -> (r: Result<Application, Error>)
        ensures
            r is Err <==> url.port is None || pid is None || start_time is None,
            match r {
                Ok(app) => app == (Application {
                    pid: pid->0,
                    id,
                    title,
                    url,
                    start_time: start_time->0,
                    state: ApplicationState::Enabled,
                    cpu_usage: 0,
                    memory_usage: 0,
                    connection: None,
                }),
                Err(e) => e == (Error::PIDNotFound { url: url.text }),
            },
    {
        if url.port.is_none() {
            return Err(Error::PIDNotFound { url: url.text });
        }
        let pid = match pid {
            Some(p) => p,
            None => {
                return Err(Error::PIDNotFound { url: url.text });
            },
        };
        let start_time = match start_time {
            Some(t) => t,
            None => {
                return Err(Error::PIDNotFound { url: url.text });
            },
        };
        Ok(
            Application {
                pid,
                id,
                title,
                url,
                start_time,
                state: ApplicationState::Enabled,
                cpu_usage: 0,
                memory_usage: 0,
                connection: None,
            },
        )
    }

    /// Register a new target under a freshly drawn id.
    pub fn new(title: String, url: AppUrl, pid: Option<u32>, start_time: Option<u64>) -> (r: Result<
        Application,
        Error,
    >)
        ensures
            r is Err <==> url.port is None || pid is None || start_time is None,
            match r {
                Ok(app) => {
                    &&& app.pid == pid->0
                    &&& app.title == title
                    &&& app.url == url
                    &&& app.start_time == start_time->0
                    &&& app.state is Enabled
                    &&& app.cpu_usage == 0
                    &&& app.memory_usage == 0
                    &&& app.connection is None
                },
                Err(e) => e == (Error::PIDNotFound { url: url.text }),
            },
    {
        let id = fresh_id();
        Application::with_id(id, title, url, pid, start_time)
    }

    /// The persisted form, detached from this record.
    pub fn record(&self) -> (r: ApplicationRecord)
        ensures
            r == self.spec_record(),
    {
        ApplicationRecord {
            pid: self.pid,
            id: self.id,
            title: self.title.clone(),
            url: self.url.clone(),
            start_time: self.start_time,
            state: self.state,
            cpu_usage: self.cpu_usage,
            memory_usage: self.memory_usage,
        }
    }

    /// Rebuild an application from its persisted form.
    pub fn from_record(record: ApplicationRecord) -> (r: Application)
        ensures
            r == Application::spec_from_record(record),
    {
        Application {
            pid: record.pid,
            id: record.id,
            title: record.title,
            url: record.url,
            start_time: record.start_time,
            state: record.state,
            cpu_usage: record.cpu_usage,
            memory_usage: record.memory_usage,
            connection: None,
        }
    }

    pub fn pid(&self) -> (r: u32)
        ensures
            r == self.pid,
    {
        self.pid
    }

    pub fn set_pid(&mut self, pid: u32)
        ensures
            *final(self) == (Application { pid, ..*old(self) }),
    {
        self.pid = pid;
    }

    pub fn id(&self) -> (r: u128)
        ensures
            r == self.id,
    {
        self.id
    }

    pub fn title(&self) -> (r: &str)
        ensures
            r@ == self.title@,
    {
        self.title.as_str()
    }

    pub fn url(&self) -> (r: AppUrl)
        ensures
            r == self.url,
    {
        self.url.clone()
    }

    pub fn state(&self) -> (r: ApplicationState)
        ensures
            r == self.state,
    {
        self.state
    }

    pub fn cpu_usage(&self) -> (r: u32)
        ensures
            r == self.cpu_usage,
    {
        self.cpu_usage
    }

    pub fn set_cpu_usage(&mut self, usage: u32)
        ensures
            *final(self) == (Application { cpu_usage: usage, ..*old(self) }),
    {
        self.cpu_usage = usage;
    }

    pub fn memory_usage(&self) -> (r: u64)
        ensures
            r == self.memory_usage,
    {
        self.memory_usage
    }

    pub fn set_memory_usage(&mut self, usage: u64)
        ensures
            *final(self) == (Application { memory_usage: usage, ..*old(self) }),
    {
        self.memory_usage = usage;
    }

    /// Enable monitoring and attach the supervisor's command handle.
    pub fn enable(&mut self, connection: Connection)
        ensures
            *final(self) == (Application {
                state: ApplicationState::Enabled,
                connection: Some(connection),
                ..*old(self)
            }),
    {
        self.state = ApplicationState::Enabled;
        self.connection = Some(connection);
    }

    /// Disable monitoring: detach and return the supervisor's command
    /// handle, for the caller to send `Disconnect` on. Idempotent; a second
    /// call returns nothing and changes nothing.
    pub fn disable(&mut self) -> (r: Option<Connection>)
        ensures
            *final(self) == (Application {
                state: ApplicationState::Disabled,
                connection: None,
                ..*old(self)
            }),
            r == old(self).connection,
    {
        self.state = ApplicationState::Disabled;
        self.connection.take()
    }
}

/// Persisted-form round trip: rebuilding an application from a record and
/// taking its record again yields the record unchanged, and rebuilding
/// leaves the application without a connection handle.
pub proof fn lemma_record_round_trip(record: ApplicationRecord, app: Application)
    ensures
        Application::spec_from_record(record).spec_record() == record,
        Application::spec_from_record(app.spec_record()) == (Application {
            connection: None,
            ..app
        }),
{
}

} // verus!
