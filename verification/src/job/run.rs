//! A whole job, run from start to end against tables in memory.
//!
//! [`run_job`] is a driver of [`Job`]: it does what the job asks for, on a
//! [`Lakehouse`] for the versioned tables and on a description of
//! everything else ([`Outside`]): which files cannot be read, and what the
//! statement evaluates to.

use vstd::prelude::*;
use crate::job::engine::{Action, Event, Job, JobState, Progress, PREVIEW_LIMIT};
use crate::job::lake::Lakehouse;
use crate::job::model::{alias_taken, Fault, JobError, JobRequest, JobResponse, JobTable};
use crate::job::store::{parsed_url, StoreCatalog};
use crate::job::table::{
    batch_views, gather, gathered, rows_of, RecordBatch, TableView, VersionSelector,
};

verus! {

/// A path that cannot be registered, and why.
#[derive(Debug, Clone, PartialEq, Eq)]
pub struct UnreadablePath {
    pub path: String,
    pub fault: Fault,
}

/// What stands outside the lakehouse during a run.
#[derive(Debug, PartialEq, Eq)]
pub struct Outside {
    /// The files that cannot be registered. Where a path is listed
    /// twice, the first entry counts.
    pub unreadable: Vec<UnreadablePath>,
    /// What the statement evaluates to, or why the query engine refuses
    /// it.
    pub answer: Result<Vec<RecordBatch>, Fault>,
}

/// How a run ended.
#[derive(Debug, PartialEq, Eq)]
pub struct JobRun {
    pub outcome: Result<JobResponse, JobError>,
    /// The rows that a dry run rendered; empty otherwise.
    pub preview: Vec<Vec<i64>>,
}

/// Why `path` cannot be registered, going by the entries of `unreadable`
/// from `from` on; `None` where it can.
pub open spec fn path_fault(unreadable: Seq<UnreadablePath>, path: Seq<char>, from: int) -> Option<Fault>
    decreases unreadable.len() - from,
{
    if from < 0 || from >= unreadable.len() {
        None
    } else if unreadable[from].path@ == path {
        Some(unreadable[from].fault)
    } else {
        path_fault(unreadable, path, from + 1)
    }
}

/// The fault that an error of the lakehouse is reported as.
pub open spec fn fault_of(error: JobError) -> Fault {
    match error {
        JobError::TableNotFound => Fault::TableNotFound,
        JobError::VersionNotFound => Fault::VersionNotFound,
        JobError::SinkAlreadyExists => Fault::AlreadyExists,
        JobError::SchemaMismatch => Fault::SchemaMismatch,
        JobError::WriteConflict => Fault::Conflict,
        JobError::QueryError => Fault::Rejected,
        _ => Fault::Unreachable,
    }
}

/// Why `table`, a source of the store called `store`, cannot be
/// registered; `None` where it can. A file can unless `outside` lists its
/// path; a versioned table can where the gateway opens it at its latest
/// version.
pub open spec fn source_fault(table: JobTable, store: String, catalog: StoreCatalog, lake: Lakehouse, outside: Outside) -> Option<Fault> {
    match table {
        JobTable::Parquet { path, .. } => path_fault(outside.unreadable@, path@, 0),
        JobTable::Csv { path, .. } => path_fault(outside.unreadable@, path@, 0),
        JobTable::Json { path, .. } => path_fault(outside.unreadable@, path@, 0),
        JobTable::Delta { table, .. } => match lake.opened(
            catalog,
            store,
            table@,
            VersionSelector::Latest,
        ) {
            Ok(_) => None,
            Err(error) => Some(fault_of(error)),
        },
    }
}

/// The error that registration ends with, going through the sources in
/// declaration order from position `k` on; `None` where every one of them
/// is registered. A source whose alias is taken is rejected before
/// anything is read.
pub open spec fn registration_error(request: JobRequest, catalog: StoreCatalog, lake: Lakehouse, outside: Outside, k: int) -> Option<JobError>
    decreases request.source.tables@.len() - k,
{
    let tables = request.source.tables@;
    if k < 0 || k >= tables.len() {
        None
    } else if alias_taken(request.aliases(), k) {
        Some(JobError::DuplicateAlias { alias: tables[k].alias() })
    } else {
        match source_fault(tables[k], request.source.store, catalog, lake, outside) {
            Some(fault) => Some(
                JobError::RegistrationError { alias: tables[k].alias(), cause: fault },
            ),
            None => registration_error(request, catalog, lake, outside, k + 1),
        }
    }
}

/// How the job `request` ends when it is run at time `now`: the stages
/// in their order, each with the error it fails with.
pub open spec fn expected_outcome(request: JobRequest, catalog: StoreCatalog, lake: Lakehouse, outside: Outside, now: u64) -> Result<
    JobResponse,
    JobError,
> {
    match catalog.position(request.source.store@) {
        None => Err(JobError::UnknownStore { store: request.source.store }),
        Some(i) => if parsed_url(catalog.stores@[i].descriptor.path@) is None {
            Err(JobError::StoreUnreachable)
        } else {
            match registration_error(request, catalog, lake, outside, 0) {
                Some(error) => Err(error),
                None => match outside.answer {
                    Err(_) => Err(JobError::QueryError),
                    Ok(batches) => if request.previews() {
                        Ok(JobResponse { success: true })
                    } else if !catalog.knows(request.sink.store@) {
                        Err(JobError::UnknownStore { store: request.sink.store })
                    } else {
                        match lake.table_at(request.sink.store@, request.sink.table@).written(
                            batch_views(batches@),
                            request.sink.save_mode,
                            now,
                        ) {
                            Ok(_) => Ok(JobResponse { success: true }),
                            Err(error) => Err(error),
                        }
                    },
                },
            }
        },
    }
}

/// The sink table after the job `request` was run at time `now`: what
/// the sink writer makes of it where the job gets as far as writing and
/// the write is accepted, and the table as it was in every other case.
pub open spec fn expected_sink(request: JobRequest, catalog: StoreCatalog, lake: Lakehouse, outside: Outside, now: u64) -> TableView {
    let sink = lake.table_at(request.sink.store@, request.sink.table@);
    if expected_outcome(request, catalog, lake, outside, now) is Ok && !request.previews() {
        sink.written(
            batch_views(outside.answer->Ok_0@),
            request.sink.save_mode,
            now,
        )->Ok_0
    } else {
        sink
    }
}

/// The rows that a preview of `rows` shows: the first ten, or all where
/// there are fewer.
pub open spec fn shown(rows: Seq<Seq<i64>>) -> Seq<Seq<i64>> {
    if rows.len() <= PREVIEW_LIMIT {
        rows
    } else {
        rows.take(PREVIEW_LIMIT as int)
    }
}

/// The rows that the job `request` renders: those that a preview of the
/// statement's result shows where the job is a dry run that succeeds, and
/// none otherwise.
pub open spec fn expected_preview(request: JobRequest, catalog: StoreCatalog, lake: Lakehouse, outside: Outside, now: u64) -> Seq<Seq<i64>> {
    if expected_outcome(request, catalog, lake, outside, now) is Ok && request.previews() {
        shown(gathered(batch_views(outside.answer->Ok_0@)))
    } else {
        Seq::empty()
    }
}

/// Reports an error of the lakehouse as a fault.
pub fn classify_error(error: &JobError) -> (fault: Fault)
    ensures
        fault == fault_of(*error),
{
    match error {
        JobError::TableNotFound => Fault::TableNotFound,
        JobError::VersionNotFound => Fault::VersionNotFound,
        JobError::SinkAlreadyExists => Fault::AlreadyExists,
        JobError::SchemaMismatch => Fault::SchemaMismatch,
        JobError::WriteConflict => Fault::Conflict,
        JobError::QueryError => Fault::Rejected,
        _ => Fault::Unreachable,
    }
}

impl Outside {
    /// Why the file at `path` cannot be registered; `None` where it can.
    pub fn fault_at(&self, path: &String) -> (fault: Option<Fault>)
        ensures
            fault == path_fault(self.unreadable@, path@, 0),
    {
        let mut i: usize = 0;
        while i < self.unreadable.len()
            invariant
                i <= self.unreadable.len(),
                path_fault(self.unreadable@, path@, 0) == path_fault(
                    self.unreadable@,
                    path@,
                    i as int,
                ),
            decreases self.unreadable.len() - i,
        {
            if self.unreadable[i].path == *path {
                return Some(self.unreadable[i].fault);
            }
            i += 1;
        }
        None
    }
}

/// What holds while the sources are being registered: the job registers
/// source `k` and everything before it went well, or registration is over
/// and went well, or the job has failed as [`expected_outcome`] says.
pub open spec fn registering(progress: Progress, request: JobRequest, catalog: StoreCatalog, lake: Lakehouse, outside: Outside, now: u64) -> bool {
    match progress.state {
        JobState::SessionCreated => {
            &&& !alias_taken(request.aliases(), progress.registered as int)
            &&& registration_error(request, catalog, lake, outside, 0) == registration_error(
                request,
                catalog,
                lake,
                outside,
                progress.registered as int,
            )
        },
        JobState::SourcesRegistered => registration_error(request, catalog, lake, outside, 0)
            is None,
        JobState::Failed(error) => expected_outcome(request, catalog, lake, outside, now) == Err::<
            JobResponse,
            JobError,
        >(error),
        _ => false,
    }
}

/// How far registration still is from its end.
pub open spec fn sources_left(progress: Progress, request: JobRequest) -> int {
    if progress.state is SessionCreated {
        request.source.tables@.len() - progress.registered + 1
    } else {
        0
    }
}

/// Runs the job `request` from start to end at time `now`: resolves the
/// source store in `catalog`, registers the sources in their order,
/// evaluates the statement, and previews the result or writes it to the
/// sink in `lake`.
///
/// The run ends as [`expected_outcome`] says. Only the sink table can
/// change, and it changes only where the job is no dry run and gets as far
/// as a write that is accepted ([`expected_sink`]).
pub fn run_job(request: JobRequest, catalog: StoreCatalog, lake: &mut Lakehouse, outside: &Outside, now: u64) -> (run: JobRun)
    ensures
        run.outcome == expected_outcome(request, catalog, *old(lake), *outside, now),
        rows_of(run.preview@) == expected_preview(request, catalog, *old(lake), *outside, now),
        final(lake).table_at(request.sink.store@, request.sink.table@) == expected_sink(
            request,
            catalog,
            *old(lake),
            *outside,
            now,
        ),
        forall|store: Seq<char>, name: Seq<char>|
            !(store == request.sink.store@ && name == request.sink.table@)
                ==> #[trigger] final(lake).table_at(store, name) == old(lake).table_at(store, name),
{
    let ghost before = *lake;
    let mut preview: Vec<Vec<i64>> = Vec::new();
    assert(rows_of(preview@) =~= Seq::<Seq<i64>>::empty());
    let mut job = Job::new(request, catalog);
    let mut action = job.begin();
    if let Action::CreateSession { .. } = action {
        action = job.step(Event::SessionCreated);
        assert(request.source.tables.len() == request.source.tables@.len());
        assert(!alias_taken(request.aliases(), 0));
    }
    loop
        invariant
            job.request() == request,
            job.catalog() == catalog,
            job.wf(),
            action == job.next_action(),
            *lake == before,
            registering(job.progress(), request, catalog, before, *outside, now),
        ensures
            job.request() == request,
            job.catalog() == catalog,
            job.wf(),
            action == job.next_action(),
            *lake == before,
            registering(job.progress(), request, catalog, before, *outside, now),
            !(job.progress().state is SessionCreated),
        decreases sources_left(job.progress(), request),
    {
        let ghost k = job.progress().registered as int;
        let event = match &action {
            Action::RegisterParquet { path, .. } => match outside.fault_at(path) {
                Some(fault) => Event::Failed(fault),
                None => Event::SourceRegistered,
            },
            Action::RegisterCsv { path, .. } => match outside.fault_at(path) {
                Some(fault) => Event::Failed(fault),
                None => Event::SourceRegistered,
            },
            Action::RegisterJson { path, .. } => match outside.fault_at(path) {
                Some(fault) => Event::Failed(fault),
                None => Event::SourceRegistered,
            },
            Action::RegisterDelta { store, table, .. } => match lake.open(
                job.stores(),
                store,
                table,
                VersionSelector::Latest,
            ) {
                Ok(_) => Event::SourceRegistered,
                Err(error) => Event::Failed(classify_error(&error)),
            },
            _ => {
                break ;
            },
        };
        proof {
            assert(job.progress().state is SessionCreated);
            assert(request.source.tables.len() == request.source.tables@.len());
            let table = request.source.tables@[k];
            assert(event == match source_fault(
                table,
                request.source.store,
                catalog,
                before,
                *outside,
            ) {
                Some(fault) => Event::Failed(fault),
                None => Event::SourceRegistered,
            });
        }
        action = job.step(event);
    }
    if let Action::RunSql { .. } = action {
        match &outside.answer {
            Err(fault) => {
                job.step(Event::Failed(*fault));
            },
            Ok(batches) => {
                job.step(Event::QueryPlanned);
                let next = job.step(Event::SchemaShown);
                match next {
                    Action::Preview { limit } => {
                        preview = gather(batches);
                        preview.truncate(limit);
                        assert(rows_of(preview@) =~= shown(gathered(batch_views(batches@))));
                        job.step(Event::PreviewRendered);
                    },
                    Action::Collect => {
                        let write = job.step(Event::ResultMaterialized);
                        if let Action::WriteSink { store, table, save_mode } = write {
                            match lake.write(job.stores(), &store, &table, batches, save_mode, now) {
                                Ok(()) => {
                                    job.step(Event::SinkWritten);
                                },
                                Err(error) => {
                                    job.step(Event::Failed(classify_error(&error)));
                                },
                            }
                        }
                    },
                    _ => {},
                }
            },
        }
    }
    job.finish();
    JobRun { outcome: job.into_outcome().unwrap(), preview }
}

} // verus!
