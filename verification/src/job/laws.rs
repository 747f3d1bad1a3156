//! What holds of every job and of every write, proved from the
//! definitions in [`crate::job::engine`] and [`crate::job::table`].

use vstd::prelude::*;
use crate::job::engine::{registration, Event, JobState, Progress};
use crate::job::lake::Lakehouse;
use crate::job::model::{
    alias_taken, distinct_aliases, JobError, JobRequest, JobResponse, SaveMode,
};
use crate::job::run::{
    expected_outcome, expected_preview, expected_sink, registration_error, source_fault, Outside,
};
use crate::job::store::{parsed_url, StoreCatalog};
use crate::job::table::{all_fit, batch_views, gathered, BatchView, TableView};

verus! {

impl Progress {
    /// Where a job stands after a whole run of events, oldest first.
    pub open spec fn replay(self, request: JobRequest, catalog: StoreCatalog, events: Seq<Event>) -> Progress
        decreases events.len(),
    {
        if events.len() == 0 {
            self
        } else {
            self.replay(request, catalog, events.drop_last()).advance(
                request,
                catalog,
                events.last(),
            )
        }
    }
}

/// No event takes a job out of the states that [`Progress::wf`] admits.
pub proof fn step_keeps_wf(progress: Progress, request: JobRequest, catalog: StoreCatalog, url: String, event: Event)
    requires
        progress.wf(request, catalog, url),
    ensures
        progress.advance(request, catalog, event).wf(request, catalog, url),
        progress.finished().wf(request, catalog, url),
{
    let aliases = request.aliases();
    assert(request.source.tables.len() == request.source.tables@.len());
    if progress.state is SessionCreated && event is SourceRegistered {
        let k = progress.registered + 1;
        if k < request.source.tables@.len() && !alias_taken(aliases, k) {
            assert forall|i: int, j: int| 0 <= i < j < k + 1 implies aliases[i] != aliases[j] by {
                if j == k && aliases[i] == aliases[j] {
                    assert(alias_taken(aliases, k));
                }
            }
        }
    }
}

/// No run of events takes a job out of the states that [`Progress::wf`]
/// admits.
pub proof fn replay_keeps_wf(start: Progress, request: JobRequest, catalog: StoreCatalog, url: String, events: Seq<Event>)
    requires
        start.wf(request, catalog, url),
    ensures
        start.replay(request, catalog, events).wf(request, catalog, url),
    decreases events.len(),
{
    if events.len() > 0 {
        replay_keeps_wf(start, request, catalog, url, events.drop_last());
        step_keeps_wf(
            start.replay(request, catalog, events.drop_last()),
            request,
            catalog,
            url,
            events.last(),
        );
    }
}

/// A dry run never writes: whatever events a dry-run job is fed, it never
/// reaches the states in which a result is materialized or written, and it
/// never asks for a write to the sink.
pub proof fn dry_run_never_writes(start: Progress, request: JobRequest, catalog: StoreCatalog, url: String, events: Seq<Event>)
    requires
        start.wf(request, catalog, url),
        request.previews(),
    ensures
        ({
            let end = start.replay(request, catalog, events);
            &&& !(end.state is ResultMaterialized)
            &&& !(end.state is SinkWritten)
            &&& !(end.pending(request, url) is WriteSink)
            &&& !(end.pending(request, url) is Collect)
        }),
{
    replay_keeps_wf(start, request, catalog, url, events);
    let end = start.replay(request, catalog, events);
    if end.state is SessionCreated {
        let table = request.source.tables@[end.registered as int];
        assert(!(registration(table, request.source.store) is WriteSink));
        assert(!(registration(table, request.source.store) is Collect));
    }
}

/// A job that writes has materialized its whole result first, and a job
/// that previews or materializes has surfaced the schema first.
pub proof fn schema_comes_first(progress: Progress, request: JobRequest, catalog: StoreCatalog, url: String)
    requires
        progress.wf(request, catalog, url),
    ensures
        progress.pending(request, url) is Preview ==> progress.schema_shown,
        progress.pending(request, url) is Collect ==> progress.schema_shown,
        progress.pending(request, url) is WriteSink ==> progress.state is ResultMaterialized
            && progress.schema_shown,
{
    if progress.state is SessionCreated {
        let table = request.source.tables@[progress.registered as int];
        let action = registration(table, request.source.store);
        assert(!(action is WriteSink) && !(action is Collect) && !(action is Preview));
    }
}

/// The source whose alias an earlier source already has is not
/// registered: the job fails with `DuplicateAlias`, carrying the alias.
pub proof fn taken_alias_is_rejected(progress: Progress, request: JobRequest, k: int)
    requires
        0 <= k < request.source.tables@.len(),
        alias_taken(request.aliases(), k),
    ensures
        progress.registering(request, k).state == JobState::Failed(
            JobError::DuplicateAlias { alias: request.source.tables@[k].alias() },
        ),
{
}

/// A job that declares two sources under one alias never gets as far as
/// its query: whatever events it is fed, it has not registered all its
/// sources, and it asks for no query, preview, write or response.
pub proof fn shared_alias_stops_the_job(start: Progress, request: JobRequest, catalog: StoreCatalog, url: String, events: Seq<Event>)
    requires
        start.wf(request, catalog, url),
        !distinct_aliases(request.aliases(), request.source.tables@.len() as int),
    ensures
        ({
            let end = start.replay(request, catalog, events);
            &&& end.state is Start || end.state is StoreResolved || end.state is SessionCreated
                || end.state is Failed
            &&& !(end.pending(request, url) is RunSql)
            &&& !(end.pending(request, url) is Preview)
            &&& !(end.pending(request, url) is Collect)
            &&& !(end.pending(request, url) is WriteSink)
            &&& !(end.pending(request, url) is Respond)
        }),
{
    replay_keeps_wf(start, request, catalog, url, events);
    let end = start.replay(request, catalog, events);
    if end.state is SessionCreated {
        let table = request.source.tables@[end.registered as int];
        let action = registration(table, request.source.store);
        assert(!(action is RunSql) && !(action is Preview) && !(action is Collect) && !(action
            is WriteSink) && !(action is Respond));
    }
}

/// A job that is done or has failed stays so.
pub proof fn outcome_is_final(progress: Progress, request: JobRequest, catalog: StoreCatalog, event: Event)
    requires
        progress.state is Done || progress.state is Failed,
    ensures
        progress.advance(request, catalog, event) == progress,
{
}

/// What a table holds as of a version does not depend on what was
/// committed after it.
pub proof fn lemma_snapshot_of_prefix(earlier: TableView, later: TableView, v: int)
    requires
        earlier.log.len() <= later.log.len(),
        forall|k: int| 0 <= k < earlier.log.len() ==> later.log[k] == earlier.log[k],
        v < earlier.log.len(),
    ensures
        later.snapshot(v) == earlier.snapshot(v),
    decreases v,
{
    if v > 0 && !earlier.log[v].replaces {
        lemma_snapshot_of_prefix(earlier, later, v - 1);
    }
}

/// Two overwrites in a row: each one that is accepted makes a new
/// version, the latest version holds exactly the rows written last, and
/// every earlier version reads as it did before, the one written first
/// included.
pub proof fn overwrite_keeps_history(table: TableView, first: Seq<BatchView>, second: Seq<BatchView>, t1: u64, t2: u64)
    requires
        table.written(first, SaveMode::Overwrite, t1) is Ok,
        table.written(first, SaveMode::Overwrite, t1)->Ok_0.written(
            second,
            SaveMode::Overwrite,
            t2,
        ) is Ok,
    ensures
        ({
            let once = table.written(first, SaveMode::Overwrite, t1)->Ok_0;
            let twice = once.written(second, SaveMode::Overwrite, t2)->Ok_0;
            &&& once.created()
            &&& once.version() == table.version() + 1
            &&& twice.version() == once.version() + 1
            &&& once.data() == gathered(first)
            &&& twice.data() == gathered(second)
            &&& twice.snapshot(once.version()) == gathered(first)
            &&& forall|v: int| v <= table.version() ==> twice.snapshot(v) == table.snapshot(v)
        }),
{
    let once = table.written(first, SaveMode::Overwrite, t1)->Ok_0;
    let twice = once.written(second, SaveMode::Overwrite, t2)->Ok_0;
    lemma_snapshot_of_prefix(once, twice, once.version());
    assert forall|v: int| v <= table.version() implies twice.snapshot(v) == table.snapshot(v) by {
        if v >= 0 {
            lemma_snapshot_of_prefix(table, twice, v);
        }
    }
}

/// Appending the same batches twice: where the first append is accepted,
/// so is the second, and the table then holds what it held before
/// followed by the rows twice over. On a sink that held nothing, the
/// second run doubles the row count of the first.
pub proof fn append_twice_doubles(table: TableView, batches: Seq<BatchView>, t1: u64, t2: u64)
    requires
        table.written(batches, SaveMode::Append, t1) is Ok,
    ensures
        ({
            let once = table.written(batches, SaveMode::Append, t1)->Ok_0;
            let twice = once.written(batches, SaveMode::Append, t2);
            &&& twice is Ok
            &&& once.data() == table.data() + gathered(batches)
            &&& twice->Ok_0.data() == table.data() + gathered(batches) + gathered(batches)
            &&& twice->Ok_0.data().len() == table.data().len() + 2 * gathered(batches).len()
            &&& table.data().len() == 0 ==> twice->Ok_0.data().len() == 2 * once.data().len()
        }),
{
    let once = table.written(batches, SaveMode::Append, t1)->Ok_0;
    let twice = once.written(batches, SaveMode::Append, t2)->Ok_0;
    assert(once.created());
    assert(all_fit(batches, once.columns));
    if table.created() {
        lemma_snapshot_of_prefix(table, once, table.version());
    } else {
        assert(table.data() =~= Seq::<Seq<i64>>::empty());
        assert(once.data() =~= table.data() + gathered(batches));
    }
    lemma_snapshot_of_prefix(once, twice, once.version());
}

/// An existing sink is guarded: `ErrorIfExists` fails with
/// `SinkAlreadyExists`, `Ignore` succeeds, and neither changes the table.
pub proof fn existing_sink_is_guarded(table: TableView, batches: Seq<BatchView>, now: u64)
    requires
        table.created(),
    ensures
        table.written(batches, SaveMode::ErrorIfExists, now) == Err::<TableView, JobError>(
            JobError::SinkAlreadyExists,
        ),
        table.written(batches, SaveMode::Ignore, now) == Ok::<TableView, JobError>(table),
{
}

/// A write adds at most one version and never rewrites one: every
/// version that the table had reads the same afterwards.
pub proof fn write_keeps_history(table: TableView, batches: Seq<BatchView>, mode: SaveMode, now: u64, v: int)
    requires
        table.written(batches, mode, now) is Ok,
        v <= table.version(),
    ensures
        ({
            let after = table.written(batches, mode, now)->Ok_0;
            &&& table.version() <= after.version() <= table.version() + 1
            &&& after.snapshot(v) == table.snapshot(v)
        }),
{
    let after = table.written(batches, mode, now)->Ok_0;
    if v >= 0 {
        lemma_snapshot_of_prefix(table, after, v);
    }
}

/// Whether a run of `request` gets as far as the sink writer: the source
/// store is resolved and located, every source is registered, the
/// statement is evaluated, the job is no dry run, and the sink store is
/// resolved.
pub open spec fn reaches_sink(request: JobRequest, catalog: StoreCatalog, lake: Lakehouse, outside: Outside) -> bool {
    &&& catalog.position(request.source.store@) matches Some(i) && parsed_url(
        catalog.stores@[i].descriptor.path@,
    ) is Some
    &&& registration_error(request, catalog, lake, outside, 0) is None
    &&& outside.answer is Ok
    &&& !request.previews()
    &&& catalog.knows(request.sink.store@)
}

/// A dry run leaves the sink as it was, however it ends, and a dry run
/// that succeeds shows at most ten rows.
pub proof fn dry_run_leaves_the_sink(request: JobRequest, catalog: StoreCatalog, lake: Lakehouse, outside: Outside, now: u64)
    requires
        request.previews(),
    ensures
        expected_sink(request, catalog, lake, outside, now) == lake.table_at(
            request.sink.store@,
            request.sink.table@,
        ),
        expected_preview(request, catalog, lake, outside, now).len() <= 10,
{
}

/// A run that fails leaves the sink as it was.
pub proof fn failed_run_leaves_the_sink(request: JobRequest, catalog: StoreCatalog, lake: Lakehouse, outside: Outside, now: u64)
    requires
        expected_outcome(request, catalog, lake, outside, now) is Err,
    ensures
        expected_sink(request, catalog, lake, outside, now) == lake.table_at(
            request.sink.store@,
            request.sink.table@,
        ),
        expected_preview(request, catalog, lake, outside, now).len() == 0,
{
}

/// Two runs of an overwriting job, one after the other, both successful:
/// each makes a new version of the sink, the latest version holds exactly
/// what the second run materialized, and every earlier version reads as
/// before, the one that the first run made included. `between` is the
/// lakehouse as the first run left it.
pub proof fn overwriting_runs_keep_history(request: JobRequest, catalog: StoreCatalog, before: Lakehouse, between: Lakehouse, first: Outside, second: Outside, t1: u64, t2: u64)
    requires
        !request.previews(),
        request.sink.save_mode == SaveMode::Overwrite,
        expected_outcome(request, catalog, before, first, t1) is Ok,
        between.table_at(request.sink.store@, request.sink.table@) == expected_sink(
            request,
            catalog,
            before,
            first,
            t1,
        ),
        expected_outcome(request, catalog, between, second, t2) is Ok,
    ensures
        ({
            let start = before.table_at(request.sink.store@, request.sink.table@);
            let once = between.table_at(request.sink.store@, request.sink.table@);
            let twice = expected_sink(request, catalog, between, second, t2);
            &&& once.version() == start.version() + 1
            &&& twice.version() == once.version() + 1
            &&& once.data() == gathered(batch_views(first.answer->Ok_0@))
            &&& twice.data() == gathered(batch_views(second.answer->Ok_0@))
            &&& forall|v: int| v <= once.version() ==> twice.snapshot(v) == once.snapshot(v)
        }),
{
    let start = before.table_at(request.sink.store@, request.sink.table@);
    let once = between.table_at(request.sink.store@, request.sink.table@);
    let twice = expected_sink(request, catalog, between, second, t2);
    overwrite_keeps_history(
        start,
        batch_views(first.answer->Ok_0@),
        batch_views(second.answer->Ok_0@),
        t1,
        t2,
    );
    assert forall|v: int| v <= once.version() implies twice.snapshot(v) == once.snapshot(v) by {
        write_keeps_history(
            once,
            batch_views(second.answer->Ok_0@),
            SaveMode::Overwrite,
            t2,
            v,
        );
    }
}

/// Two runs of an appending job that materialize the same rows: where
/// the first succeeds and the second gets as far as the sink writer, the
/// second succeeds too, and the sink then holds what it held at first
/// followed by the rows twice over. On a sink that held nothing, the
/// second run doubles the row count of the first. `between` is the
/// lakehouse as the first run left it.
pub proof fn appending_runs_double(request: JobRequest, catalog: StoreCatalog, before: Lakehouse, between: Lakehouse, first: Outside, second: Outside, t1: u64, t2: u64)
    requires
        !request.previews(),
        request.sink.save_mode == SaveMode::Append,
        expected_outcome(request, catalog, before, first, t1) is Ok,
        between.table_at(request.sink.store@, request.sink.table@) == expected_sink(
            request,
            catalog,
            before,
            first,
            t1,
        ),
        reaches_sink(request, catalog, between, second),
        batch_views(second.answer->Ok_0@) == batch_views(first.answer->Ok_0@),
    ensures
        ({
            let rows = gathered(batch_views(first.answer->Ok_0@));
            let start = before.table_at(request.sink.store@, request.sink.table@);
            let once = between.table_at(request.sink.store@, request.sink.table@);
            let twice = expected_sink(request, catalog, between, second, t2);
            &&& expected_outcome(request, catalog, between, second, t2) is Ok
            &&& once.data() == start.data() + rows
            &&& twice.data() == start.data() + rows + rows
            &&& twice.data().len() == start.data().len() + 2 * rows.len()
            &&& start.data().len() == 0 ==> twice.data().len() == 2 * once.data().len()
        }),
{
    let start = before.table_at(request.sink.store@, request.sink.table@);
    append_twice_doubles(start, batch_views(first.answer->Ok_0@), t1, t2);
}

/// A job that gets as far as the sink writer and finds the sink in
/// place: under `ErrorIfExists` it fails with `SinkAlreadyExists`, under
/// `Ignore` it succeeds, and either way the sink stays as it was.
pub proof fn existing_sink_ends_the_run(request: JobRequest, catalog: StoreCatalog, lake: Lakehouse, outside: Outside, now: u64)
    requires
        reaches_sink(request, catalog, lake, outside),
        lake.table_at(request.sink.store@, request.sink.table@).created(),
    ensures
        request.sink.save_mode == SaveMode::ErrorIfExists ==> expected_outcome(
            request,
            catalog,
            lake,
            outside,
            now,
        ) == Err::<JobResponse, JobError>(JobError::SinkAlreadyExists),
        request.sink.save_mode == SaveMode::Ignore ==> expected_outcome(
            request,
            catalog,
            lake,
            outside,
            now,
        ) == Ok::<JobResponse, JobError>(JobResponse { success: true }),
        request.sink.save_mode == SaveMode::ErrorIfExists || request.sink.save_mode
            == SaveMode::Ignore ==> expected_sink(request, catalog, lake, outside, now)
            == lake.table_at(request.sink.store@, request.sink.table@),
{
}

/// Going through the sources from `from` on, registration fails before
/// or at a source whose alias is taken.
pub proof fn lemma_taken_alias_fails(request: JobRequest, catalog: StoreCatalog, lake: Lakehouse, outside: Outside, from: int, k: int)
    requires
        0 <= from <= k < request.source.tables@.len(),
        alias_taken(request.aliases(), k),
    ensures
        registration_error(request, catalog, lake, outside, from) is Some,
    decreases k - from,
{
    if from < k {
        lemma_taken_alias_fails(request, catalog, lake, outside, from + 1, k);
    }
}

/// A job that declares two sources under one alias fails, whatever the
/// stores, the files and the statement are like: no run of it evaluates
/// the statement, and none touches the sink.
pub proof fn shared_alias_fails_the_run(request: JobRequest, catalog: StoreCatalog, lake: Lakehouse, outside: Outside, now: u64)
    requires
        !distinct_aliases(request.aliases(), request.source.tables@.len() as int),
    ensures
        registration_error(request, catalog, lake, outside, 0) is Some,
        expected_outcome(request, catalog, lake, outside, now) is Err,
        expected_sink(request, catalog, lake, outside, now) == lake.table_at(
            request.sink.store@,
            request.sink.table@,
        ),
{
    let aliases = request.aliases();
    let n = request.source.tables@.len() as int;
    let (i, j) = choose|i: int, j: int| 0 <= i < j < n && aliases[i] == aliases[j];
    assert(alias_taken(aliases, j));
    lemma_taken_alias_fails(request, catalog, lake, outside, 0, j);
}

/// Where every source before the first one with a taken alias can be
/// registered, the run fails with `DuplicateAlias`, carrying that alias.
pub proof fn first_taken_alias_is_reported(request: JobRequest, catalog: StoreCatalog, lake: Lakehouse, outside: Outside, from: int, k: int)
    requires
        0 <= from <= k < request.source.tables@.len(),
        alias_taken(request.aliases(), k),
        forall|i: int| from <= i < k ==> !alias_taken(request.aliases(), i),
        forall|i: int|
            from <= i < k ==> source_fault(
                #[trigger] request.source.tables@[i],
                request.source.store,
                catalog,
                lake,
                outside,
            ) is None,
    ensures
        registration_error(request, catalog, lake, outside, from) == Some(
            JobError::DuplicateAlias { alias: request.source.tables@[k].alias() },
        ),
    decreases k - from,
{
    if from < k {
        first_taken_alias_is_reported(request, catalog, lake, outside, from + 1, k);
    }
}

} // verus!
