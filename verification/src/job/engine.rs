//! The orchestrator: a linear state machine over one job.
//!
//! `Start → StoreResolved → SessionCreated → SourcesRegistered →
//! QueryExecuted → {PreviewRendered | ResultMaterialized → SinkWritten} →
//! Done`, and from any state to `Failed`.
//!
//! A driver asks the job what comes next ([`Job::pending`]), does that
//! work, and reports how it ended ([`Job::step`]). The two steps that need
//! no outside work are the job's own: [`Job::begin`] resolves the source
//! store, [`Job::finish`] hands out the response.

use vstd::prelude::*;
use crate::job::model::{
    alias_taken, distinct_aliases, Fault, JobError, JobRequest, JobResponse, JobTable, SaveMode,
};
use crate::job::store::{parsed_url, StoreCatalog, StoreDescriptor};

verus! {

/// How many rows a dry run shows at most.
pub const PREVIEW_LIMIT: usize = 10;

/// Where a job stands.
#[derive(Debug, Clone, PartialEq, Eq)]
pub enum JobState {
    /// Nothing is resolved yet.
    Start,
    /// The source store is resolved and located.
    StoreResolved,
    /// The session exists; sources are being registered.
    SessionCreated,
    /// Every source is registered under its alias.
    SourcesRegistered,
    /// The statement is planned; its result is not materialized yet.
    QueryExecuted,
    /// A dry run has rendered its preview.
    PreviewRendered,
    /// The whole result is in memory.
    ResultMaterialized,
    /// The result is written to the sink.
    SinkWritten,
    /// The response is handed out.
    Done,
    /// The job has failed; the session is discarded.
    Failed(JobError),
}

/// The outside work that a job asks for.
#[derive(Debug, Clone, PartialEq, Eq)]
pub enum Action {
    /// Resolve the source store: call [`Job::begin`].
    ResolveStore { store: String },
    /// Bind the source store's backend at `url` and create the job's session.
    CreateSession { url: String },
    /// Register the columnar file at `path` under `name`, with default options.
    RegisterParquet { name: String, path: String },
    /// Register the delimited file at `path` under `name`, with default options.
    RegisterCsv { name: String, path: String },
    /// Register the line-delimited file at `path` under `name`, with default options.
    RegisterJson { name: String, path: String },
    /// Open `table` of `store` at its latest version and register it under `name`.
    RegisterDelta { name: String, store: String, table: String },
    /// Run the statement against the session.
    RunSql { sql: String },
    /// Surface the schema of the query result.
    ShowSchema,
    /// Fetch at most `limit` rows of the result and render them.
    Preview { limit: usize },
    /// Materialize the whole result in memory.
    Collect,
    /// Write the materialized result to `table` of `store` under `save_mode`.
    WriteSink { store: String, table: String, save_mode: SaveMode },
    /// Hand the response to the caller: call [`Job::finish`].
    Respond,
    /// Nothing is left to do.
    Halt,
}

/// How a piece of outside work ended.
#[derive(Debug, Clone, Copy, PartialEq, Eq, Structural)]
pub enum Event {
    /// The backend is bound and the session created.
    SessionCreated,
    /// The source asked for is registered.
    SourceRegistered,
    /// The statement is accepted and planned.
    QueryPlanned,
    /// The schema of the result is surfaced.
    SchemaShown,
    /// The preview is rendered.
    PreviewRendered,
    /// The whole result is materialized.
    ResultMaterialized,
    /// The result is written to the sink.
    SinkWritten,
    /// The work asked for could not be done.
    Failed(Fault),
}

/// The part of a job that moves.
#[derive(Debug, Clone, PartialEq, Eq)]
pub struct Progress {
    pub state: JobState,
    /// How many of the declared sources are registered.
    pub registered: usize,
    /// Whether the schema of the query result has been surfaced.
    pub schema_shown: bool,
}

/// The action that registers `table`, a source of the store called `store`.
pub open spec fn registration(table: JobTable, store: String) -> Action {
    match table {
        JobTable::Parquet { name, path } => Action::RegisterParquet { name, path },
        JobTable::Csv { name, path } => Action::RegisterCsv { name, path },
        JobTable::Json { name, path } => Action::RegisterJson { name, path },
        JobTable::Delta { name, table } => Action::RegisterDelta { name, store, table },
    }
}

/// The error that a failed write surfaces as.
pub open spec fn write_error(fault: Fault) -> JobError {
    match fault {
        Fault::AlreadyExists => JobError::SinkAlreadyExists,
        Fault::SchemaMismatch => JobError::SchemaMismatch,
        Fault::Conflict => JobError::WriteConflict,
        Fault::TableNotFound => JobError::TableNotFound,
        Fault::VersionNotFound => JobError::VersionNotFound,
        _ => JobError::StoreUnreachable,
    }
}

impl Progress {
    /// This progress, failed with `error`.
    pub open spec fn failed(self, error: JobError) -> Progress {
        Progress { state: JobState::Failed(error), ..self }
    }

    /// Where a job stands once `k` of its sources are registered: it
    /// registers source `k`, unless none is left or the alias is taken.
    pub open spec fn registering(self, request: JobRequest, k: int) -> Progress {
        let tables = request.source.tables@;
        if k >= tables.len() {
            Progress { state: JobState::SourcesRegistered, registered: tables.len() as usize, ..self }
        } else if alias_taken(request.aliases(), k) {
            Progress { registered: k as usize, ..self }.failed(
                JobError::DuplicateAlias { alias: tables[k].alias() },
            )
        } else {
            Progress { state: JobState::SessionCreated, registered: k as usize, ..self }
        }
    }

    /// Where a job stands after `event`. An event that does not answer the
    /// pending action changes nothing.
    pub open spec fn advance(self, request: JobRequest, catalog: StoreCatalog, event: Event) -> Progress {
        match self.state {
            JobState::StoreResolved => match event {
                Event::SessionCreated => self.registering(request, 0),
                Event::Failed(_) => self.failed(JobError::StoreUnreachable),
                _ => self,
            },
            JobState::SessionCreated => match event {
                Event::SourceRegistered => self.registering(request, self.registered + 1),
                Event::Failed(fault) => self.failed(
                    JobError::RegistrationError {
                        alias: request.source.tables@[self.registered as int].alias(),
                        cause: fault,
                    },
                ),
                _ => self,
            },
            JobState::SourcesRegistered => match event {
                Event::QueryPlanned => Progress { state: JobState::QueryExecuted, ..self },
                Event::Failed(_) => self.failed(JobError::QueryError),
                _ => self,
            },
            JobState::QueryExecuted => match event {
                Event::Failed(_) => self.failed(JobError::QueryError),
                Event::SchemaShown => if self.schema_shown {
                    self
                } else {
                    Progress { schema_shown: true, ..self }
                },
                Event::PreviewRendered => if self.schema_shown && request.previews() {
                    Progress { state: JobState::PreviewRendered, ..self }
                } else {
                    self
                },
                Event::ResultMaterialized => if self.schema_shown && !request.previews() {
                    if catalog.knows(request.sink.store@) {
                        Progress { state: JobState::ResultMaterialized, ..self }
                    } else {
                        self.failed(JobError::UnknownStore { store: request.sink.store })
                    }
                } else {
                    self
                },
                _ => self,
            },
            JobState::ResultMaterialized => match event {
                Event::SinkWritten => Progress { state: JobState::SinkWritten, ..self },
                Event::Failed(fault) => self.failed(write_error(fault)),
                _ => self,
            },
            _ => self,
        }
    }

    /// What a job in this state asks for. `url` is the location of its
    /// source store.
    pub open spec fn pending(self, request: JobRequest, url: String) -> Action {
        match self.state {
            JobState::Start => Action::ResolveStore { store: request.source.store },
            JobState::StoreResolved => Action::CreateSession { url },
            JobState::SessionCreated => registration(
                request.source.tables@[self.registered as int],
                request.source.store,
            ),
            JobState::SourcesRegistered => Action::RunSql { sql: request.sql },
            JobState::QueryExecuted => if !self.schema_shown {
                Action::ShowSchema
            } else if request.previews() {
                Action::Preview { limit: PREVIEW_LIMIT }
            } else {
                Action::Collect
            },
            JobState::ResultMaterialized => Action::WriteSink {
                store: request.sink.store,
                table: request.sink.table,
                save_mode: request.sink.save_mode,
            },
            JobState::PreviewRendered | JobState::SinkWritten => Action::Respond,
            JobState::Done | JobState::Failed(_) => Action::Halt,
        }
    }

    /// What holds of every job that was made by [`Job::new`] and moved by
    /// [`Job::begin`], [`Job::step`] and [`Job::finish`] alone.
    pub open spec fn wf(self, request: JobRequest, catalog: StoreCatalog, url: String) -> bool {
        let tables = request.source.tables@;
        let aliases = request.aliases();
        &&& self.registered <= tables.len()
        &&& match self.state {
            JobState::Start => self.registered == 0 && !self.schema_shown,
            JobState::StoreResolved => {
                &&& self.registered == 0
                &&& !self.schema_shown
                &&& self.located(request, catalog, url)
            },
            JobState::SessionCreated => {
                &&& self.registered < tables.len()
                &&& !self.schema_shown
                &&& distinct_aliases(aliases, self.registered + 1)
                &&& self.located(request, catalog, url)
            },
            JobState::SourcesRegistered => {
                &&& !self.schema_shown
                &&& self.sources_ready(request, catalog, url)
            },
            JobState::QueryExecuted => self.sources_ready(request, catalog, url),
            JobState::PreviewRendered => {
                &&& self.schema_shown
                &&& request.previews()
                &&& self.sources_ready(request, catalog, url)
            },
            JobState::ResultMaterialized | JobState::SinkWritten => {
                &&& self.schema_shown
                &&& !request.previews()
                &&& catalog.knows(request.sink.store@)
                &&& self.sources_ready(request, catalog, url)
            },
            JobState::Done => self.schema_shown && self.sources_ready(request, catalog, url),
            JobState::Failed(_) => true,
        }
    }

    /// The source store is configured and `url` is its location.
    pub open spec fn located(self, request: JobRequest, catalog: StoreCatalog, url: String) -> bool {
        match catalog.position(request.source.store@) {
            Some(i) => parsed_url(catalog.stores@[i].descriptor.path@) == Some(url@),
            None => false,
        }
    }

    /// Every declared source is registered, each under an alias of its own,
    /// in a session bound to the source store.
    pub open spec fn sources_ready(self, request: JobRequest, catalog: StoreCatalog, url: String) -> bool {
        &&& self.registered == request.source.tables@.len()
        &&& distinct_aliases(request.aliases(), request.source.tables@.len() as int)
        &&& self.located(request, catalog, url)
    }
}

impl Progress {
    /// Where a job stands after its first step: the source store is
    /// resolved and located, or the job has failed. A job that has left
    /// `Start` stays where it is.
    pub open spec fn begun(self, request: JobRequest, catalog: StoreCatalog) -> Progress {
        if !(self.state is Start) {
            self
        } else {
            match catalog.position(request.source.store@) {
                None => self.failed(JobError::UnknownStore { store: request.source.store }),
                Some(i) => match parsed_url(catalog.stores@[i].descriptor.path@) {
                    None => self.failed(JobError::StoreUnreachable),
                    Some(_) => Progress { state: JobState::StoreResolved, ..self },
                },
            }
        }
    }

    /// How a job in this state has ended: with the response, with an
    /// error, or not yet.
    pub open spec fn outcome(self) -> Option<Result<JobResponse, JobError>> {
        match self.state {
            JobState::Done => Some(Ok(JobResponse { success: true })),
            JobState::Failed(error) => Some(Err(error)),
            _ => None,
        }
    }

    /// Whether a job in this state owes its caller the response.
    pub open spec fn succeeded(self) -> bool {
        self.state is PreviewRendered || self.state is SinkWritten || self.state is Done
    }

    /// Where a job stands once the response is handed out.
    pub open spec fn finished(self) -> Progress {
        if self.succeeded() {
            Progress { state: JobState::Done, ..self }
        } else {
            self
        }
    }
}

/// Builds the action that registers `table`, a source of the store called
/// `store`.
pub fn register_action(table: &JobTable, store: &String) -> (action: Action)
    ensures
        action == registration(*table, *store),
{
    match table {
        JobTable::Parquet { name, path } => Action::RegisterParquet {
            name: name.clone(),
            path: path.clone(),
        },
        JobTable::Csv { name, path } => Action::RegisterCsv {
            name: name.clone(),
            path: path.clone(),
        },
        JobTable::Json { name, path } => Action::RegisterJson {
            name: name.clone(),
            path: path.clone(),
        },
        JobTable::Delta { name, table } => Action::RegisterDelta {
            name: name.clone(),
            store: store.clone(),
            table: table.clone(),
        },
    }
}

/// Maps the fault of a failed write to the error it surfaces as.
pub fn classify_write_fault(fault: Fault) -> (error: JobError)
    ensures
        error == write_error(fault),
{
    match fault {
        Fault::AlreadyExists => JobError::SinkAlreadyExists,
        Fault::SchemaMismatch => JobError::SchemaMismatch,
        Fault::Conflict => JobError::WriteConflict,
        Fault::TableNotFound => JobError::TableNotFound,
        Fault::VersionNotFound => JobError::VersionNotFound,
        _ => JobError::StoreUnreachable,
    }
}

/// One job on its way through the engine.
pub struct Job {
    request: JobRequest,
    catalog: StoreCatalog,
    url: String,
    core: Progress,
}

impl Job {
    #[verifier::type_invariant]
    spec fn inv(self) -> bool {
        self.core.wf(self.request, self.catalog, self.url)
    }

    /// The job as it was submitted.
    pub closed spec fn request(self) -> JobRequest {
        self.request
    }

    /// The stores that the job resolves names against.
    pub closed spec fn catalog(self) -> StoreCatalog {
        self.catalog
    }

    /// The location of the source store, once it is resolved.
    pub closed spec fn url(self) -> String {
        self.url
    }

    /// Where the job stands.
    pub closed spec fn progress(self) -> Progress {
        self.core
    }

    /// What holds of every job: see [`Progress::wf`].
    pub open spec fn wf(self) -> bool {
        self.progress().wf(self.request(), self.catalog(), self.url())
    }

    /// What the job asks for: see [`Progress::pending`].
    pub open spec fn next_action(self) -> Action {
        self.progress().pending(self.request(), self.url())
    }

    /// Takes a job in. Nothing is resolved or checked yet.
    pub fn new(request: JobRequest, catalog: StoreCatalog) -> (job: Job)
        ensures
            job.request() == request,
            job.catalog() == catalog,
            job.progress() == (Progress {
                state: JobState::Start,
                registered: 0,
                schema_shown: false,
            }),
            job.wf(),
    {
        Job {
            request,
            catalog,
            url: String::new(),
            core: Progress { state: JobState::Start, registered: 0, schema_shown: false },
        }
    }

    /// The first step: resolves the source store, once for the whole job,
    /// and reads its path as a URL. Fails the job with `UnknownStore` where
    /// the store is not configured and with `StoreUnreachable` where its
    /// path is no absolute URL. Returns what the job asks for next.
    pub fn begin(&mut self) -> (action: Action)
        ensures
            final(self).request() == old(self).request(),
            final(self).catalog() == old(self).catalog(),
            final(self).progress() == old(self).progress().begun(
                old(self).request(),
                old(self).catalog(),
            ),
            final(self).progress().state == old(self).progress().state ==> final(self).url()
                == old(self).url(),
            final(self).wf(),
            action == final(self).next_action(),
    {
        proof {
            use_type_invariant(&*self);
        }
        match self.core.state {
            JobState::Start => {
                match self.catalog.find(&self.request.source.store) {
                    None => {
                        self.core.state = JobState::Failed(
                            JobError::UnknownStore { store: self.request.source.store.clone() },
                        );
                    },
                    Some(i) => {
                        match self.catalog.stores[i].descriptor.location() {
                            Ok(url) => {
                                self.url = url;
                                self.core.state = JobState::StoreResolved;
                            },
                            Err(_) => {
                                self.core.state = JobState::Failed(JobError::StoreUnreachable);
                            },
                        }
                    },
                }
            },
            _ => {},
        }
        self.pending()
    }

    /// Moves on to the registration of source `k`, or past registration
    /// where no source is left; fails on an alias that is already taken.
    fn enter_registration(&mut self, k: usize)
        requires
            old(self).core.state is StoreResolved || old(self).core.state is SessionCreated,
            k <= old(self).request.source.tables@.len(),
            distinct_aliases(old(self).request.aliases(), k as int),
        ensures
            final(self).request == old(self).request,
            final(self).catalog == old(self).catalog,
            final(self).url == old(self).url,
            final(self).core == old(self).core.registering(old(self).request, k as int),
    {
        proof {
            use_type_invariant(&*self);
        }
        let shown = self.core.schema_shown;
        if k >= self.request.source.tables.len() {
            self.core = Progress {
                state: JobState::SourcesRegistered,
                registered: k,
                schema_shown: shown,
            };
        } else if self.request.alias_taken_at(k) {
            let alias = self.request.source.tables[k].name().clone();
            self.core = Progress {
                state: JobState::Failed(JobError::DuplicateAlias { alias }),
                registered: k,
                schema_shown: shown,
            };
        } else {
            self.core = Progress {
                state: JobState::SessionCreated,
                registered: k,
                schema_shown: shown,
            };
        }
    }

    /// Tells the job how the work it asked for ended, and returns what it
    /// asks for next. A failure fails the job at once, with the error of
    /// the stage it was in; nothing is retried or rolled back. An event
    /// that does not answer the pending action leaves the job as it is.
    pub fn step(&mut self, event: Event) -> (action: Action)
        ensures
            final(self).request() == old(self).request(),
            final(self).catalog() == old(self).catalog(),
            final(self).url() == old(self).url(),
            final(self).progress() == old(self).progress().advance(
                old(self).request(),
                old(self).catalog(),
                event,
            ),
            final(self).wf(),
            action == final(self).next_action(),
    {
        proof {
            use_type_invariant(&*self);
        }
        match self.core.state {
            JobState::StoreResolved => match event {
                Event::SessionCreated => {
                    self.enter_registration(0);
                },
                Event::Failed(_) => {
                    self.core.state = JobState::Failed(JobError::StoreUnreachable);
                },
                _ => {},
            },
            JobState::SessionCreated => match event {
                Event::SourceRegistered => {
                    assert(self.core.registered < self.request.source.tables.len());
                    let k = self.core.registered + 1;
                    self.enter_registration(k);
                },
                Event::Failed(fault) => {
                    let alias = self.request.source.tables[self.core.registered].name().clone();
                    self.core.state = JobState::Failed(
                        JobError::RegistrationError { alias, cause: fault },
                    );
                },
                _ => {},
            },
            JobState::SourcesRegistered => match event {
                Event::QueryPlanned => {
                    self.core.state = JobState::QueryExecuted;
                },
                Event::Failed(_) => {
                    self.core.state = JobState::Failed(JobError::QueryError);
                },
                _ => {},
            },
            JobState::QueryExecuted => match event {
                Event::Failed(_) => {
                    self.core.state = JobState::Failed(JobError::QueryError);
                },
                Event::SchemaShown => {
                    self.core.schema_shown = true;
                },
                Event::PreviewRendered => {
                    if self.core.schema_shown && self.request.is_dry_run() {
                        self.core.state = JobState::PreviewRendered;
                    }
                },
                Event::ResultMaterialized => {
                    if self.core.schema_shown && !self.request.is_dry_run() {
                        match self.catalog.find(&self.request.sink.store) {
                            Some(_) => {
                                self.core.state = JobState::ResultMaterialized;
                            },
                            None => {
                                self.core.state = JobState::Failed(
                                    JobError::UnknownStore {
                                        store: self.request.sink.store.clone(),
                                    },
                                );
                            },
                        }
                    }
                },
                _ => {},
            },
            JobState::ResultMaterialized => match event {
                Event::SinkWritten => {
                    self.core.state = JobState::SinkWritten;
                },
                Event::Failed(fault) => {
                    self.core.state = JobState::Failed(classify_write_fault(fault));
                },
                _ => {},
            },
            _ => {},
        }
        self.pending()
    }

    /// What the job asks for now.
    pub fn pending(&self) -> (action: Action)
        ensures
            action == self.next_action(),
    {
        proof {
            use_type_invariant(self);
        }
        match self.core.state {
            JobState::Start => Action::ResolveStore { store: self.request.source.store.clone() },
            JobState::StoreResolved => Action::CreateSession { url: self.url.clone() },
            JobState::SessionCreated => register_action(
                &self.request.source.tables[self.core.registered],
                &self.request.source.store,
            ),
            JobState::SourcesRegistered => Action::RunSql { sql: self.request.sql.clone() },
            JobState::QueryExecuted => {
                if !self.core.schema_shown {
                    Action::ShowSchema
                } else if self.request.is_dry_run() {
                    Action::Preview { limit: PREVIEW_LIMIT }
                } else {
                    Action::Collect
                }
            },
            JobState::ResultMaterialized => Action::WriteSink {
                store: self.request.sink.store.clone(),
                table: self.request.sink.table.clone(),
                save_mode: self.request.sink.save_mode,
            },
            JobState::PreviewRendered | JobState::SinkWritten => Action::Respond,
            JobState::Done | JobState::Failed(_) => Action::Halt,
        }
    }

    /// The last step: hands out the response of a job that previewed or
    /// wrote its result, and moves it to `Done`. A job that has not come
    /// that far, or has failed, gives `None` and stays as it is.
    pub fn finish(&mut self) -> (response: Option<JobResponse>)
        ensures
            final(self).request() == old(self).request(),
            final(self).catalog() == old(self).catalog(),
            final(self).url() == old(self).url(),
            final(self).progress() == old(self).progress().finished(),
            final(self).wf(),
            response == if old(self).progress().succeeded() {
                Some(JobResponse { success: true })
            } else {
                None
            },
            response is Some <==> final(self).progress().state is Done,
    {
        proof {
            use_type_invariant(&*self);
        }
        match self.core.state {
            JobState::PreviewRendered | JobState::SinkWritten | JobState::Done => {
                self.core.state = JobState::Done;
                Some(JobResponse { success: true })
            },
            _ => None,
        }
    }

    /// Gives up the job for how it ended: the response of a job that is
    /// done, the error of one that failed, `None` of one that is still
    /// under way.
    pub fn into_outcome(self) -> (outcome: Option<Result<JobResponse, JobError>>)
        ensures
            outcome == self.progress().outcome(),
    {
        match self.core.state {
            JobState::Done => Some(Ok(JobResponse { success: true })),
            JobState::Failed(error) => Some(Err(error)),
            _ => None,
        }
    }

    /// Where the job stands.
    pub fn state(&self) -> (state: &JobState)
        ensures
            *state == self.progress().state,
    {
        &self.core.state
    }

    /// How many of the declared sources are registered.
    pub fn registered(&self) -> (count: usize)
        ensures
            count == self.progress().registered,
    {
        self.core.registered
    }

    /// Why the job failed, where it did.
    pub fn failure(&self) -> (error: Option<&JobError>)
        ensures
            match self.progress().state {
                JobState::Failed(e) => error == Some(&e),
                _ => error is None,
            },
    {
        match &self.core.state {
            JobState::Failed(e) => Some(e),
            _ => None,
        }
    }

    /// The job as it was submitted.
    pub fn declared(&self) -> (request: &JobRequest)
        ensures
            *request == self.request(),
    {
        &self.request
    }

    /// The stores that the job resolves names against.
    pub fn stores(&self) -> (catalog: &StoreCatalog)
        ensures
            *catalog == self.catalog(),
    {
        &self.catalog
    }

    /// The descriptor of the source store, where it is configured.
    pub fn source(&self) -> (store: Option<&StoreDescriptor>)
        ensures
            match self.catalog().position(self.request().source.store@) {
                Some(i) => store == Some(&self.catalog().stores@[i].descriptor),
                None => store is None,
            },
    {
        match self.catalog.find(&self.request.source.store) {
            Some(i) => Some(&self.catalog.stores[i].descriptor),
            None => None,
        }
    }

    /// The descriptor of the sink store, where it is configured. It is
    /// looked up on its own: a job may read from one store and write to
    /// another.
    pub fn sink(&self) -> (store: Option<&StoreDescriptor>)
        ensures
            match self.catalog().position(self.request().sink.store@) {
                Some(i) => store == Some(&self.catalog().stores@[i].descriptor),
                None => store is None,
            },
    {
        match self.catalog.find(&self.request.sink.store) {
            Some(i) => Some(&self.catalog.stores[i].descriptor),
            None => None,
        }
    }
}

} // verus!
