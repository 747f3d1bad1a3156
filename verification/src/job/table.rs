//! A versioned table held in memory: an append-only log of commits, every
//! version of which stays addressable. It is the reference for what the
//! gateway and the sink writer mean, and the store that tests run jobs
//! against.

use vstd::prelude::*;
use crate::job::model::{JobError, SaveMode};
use crate::text::{copy_names, same_names};

verus! {

/// Which version of a table to open.
#[derive(Debug, Clone, Copy, PartialEq, Eq, Structural)]
pub enum VersionSelector {
    /// The latest version.
    Latest,
    /// The version with this number; versions count from 0.
    Version(usize),
    /// The latest version committed at or before this time.
    Timestamp(u64),
}

/// A table opened at one version.
#[derive(Debug, Clone, Copy, PartialEq, Eq, Structural)]
pub struct TableHandle {
    pub version: usize,
}

/// Rows that share a schema.
#[derive(Debug, Clone, PartialEq, Eq)]
pub struct RecordBatch {
    pub columns: Vec<String>,
    pub rows: Vec<Vec<i64>>,
}

/// A record batch as plain values.
pub struct BatchView {
    pub columns: Seq<Seq<char>>,
    pub rows: Seq<Seq<i64>>,
}

/// One entry of a table's log, as plain values.
pub struct CommitView {
    pub timestamp: u64,
    /// Whether the commit replaces the table's data or adds to it.
    pub replaces: bool,
    pub rows: Seq<Seq<i64>>,
}

/// A versioned table as plain values. A table with an empty log does not
/// exist yet.
pub struct TableView {
    pub columns: Seq<Seq<char>>,
    pub log: Seq<CommitView>,
}

/// The rows of `rows`, each as a sequence.
pub open spec fn rows_of(rows: Seq<Vec<i64>>) -> Seq<Seq<i64>> {
    Seq::new(rows.len(), |i: int| rows[i]@)
}

impl View for RecordBatch {
    type V = BatchView;

    open spec fn view(&self) -> BatchView {
        BatchView { columns: self.columns.deep_view(), rows: rows_of(self.rows@) }
    }
}

/// The batches of `batches`, each as plain values.
pub open spec fn batch_views(batches: Seq<RecordBatch>) -> Seq<BatchView> {
    Seq::new(batches.len(), |i: int| batches[i]@)
}

/// All rows of `batches`, in order.
pub open spec fn gathered(batches: Seq<BatchView>) -> Seq<Seq<i64>>
    decreases batches.len(),
{
    if batches.len() == 0 {
        Seq::empty()
    } else {
        gathered(batches.drop_last()) + batches.last().rows
    }
}

/// Whether every row of `rows` has `width` cells.
pub open spec fn rows_fit(rows: Seq<Seq<i64>>, width: nat) -> bool {
    forall|r: int| 0 <= r < rows.len() ==> (#[trigger] rows[r]).len() == width
}

/// Whether `batch` has the schema `columns`.
pub open spec fn batch_fits(batch: BatchView, columns: Seq<Seq<char>>) -> bool {
    batch.columns == columns && rows_fit(batch.rows, columns.len())
}

/// Whether every batch of `batches` has the schema `columns`.
pub open spec fn all_fit(batches: Seq<BatchView>, columns: Seq<Seq<char>>) -> bool {
    forall|i: int| 0 <= i < batches.len() ==> batch_fits(#[trigger] batches[i], columns)
}

/// The schema that `batches` would give a new table: that of the first
/// batch, or no column at all where there is no batch.
pub open spec fn leading_columns(batches: Seq<BatchView>) -> Seq<Seq<char>> {
    if batches.len() == 0 {
        Seq::empty()
    } else {
        batches[0].columns
    }
}

/// The greatest position below `n` whose commit was made at or before
/// `time`.
pub open spec fn latest_at(log: Seq<CommitView>, time: u64, n: int) -> Option<int>
    decreases n,
{
    if n <= 0 {
        None
    } else if log[n - 1].timestamp <= time {
        Some(n - 1)
    } else {
        latest_at(log, time, n - 1)
    }
}

impl TableView {
    /// Whether the table exists.
    pub open spec fn created(self) -> bool {
        self.log.len() > 0
    }

    /// The number of the latest version. Meaningful where the table exists.
    pub open spec fn version(self) -> int {
        self.log.len() - 1
    }

    /// The table's rows as of version `v`.
    pub open spec fn snapshot(self, v: int) -> Seq<Seq<i64>>
        decreases v,
    {
        if v < 0 || v >= self.log.len() {
            Seq::empty()
        } else if v == 0 || self.log[v].replaces {
            self.log[v].rows
        } else {
            self.snapshot(v - 1) + self.log[v].rows
        }
    }

    /// The table's rows as of its latest version.
    pub open spec fn data(self) -> Seq<Seq<i64>> {
        self.snapshot(self.version())
    }

    /// The version that `selector` picks, or why there is none.
    pub open spec fn resolved(self, selector: VersionSelector) -> Result<int, JobError> {
        if !self.created() {
            Err(JobError::TableNotFound)
        } else {
            match selector {
                VersionSelector::Latest => Ok(self.version()),
                VersionSelector::Version(v) => if v < self.log.len() {
                    Ok(v as int)
                } else {
                    Err(JobError::VersionNotFound)
                },
                VersionSelector::Timestamp(time) => match latest_at(
                    self.log,
                    time,
                    self.log.len() as int,
                ) {
                    Some(v) => Ok(v),
                    None => Err(JobError::VersionNotFound),
                },
            }
        }
    }

    /// This table with one more version.
    pub open spec fn committed(self, replaces: bool, rows: Seq<Seq<i64>>, now: u64) -> TableView {
        TableView {
            columns: self.columns,
            log: self.log.push(CommitView { timestamp: now, replaces, rows }),
        }
    }

    /// What writing `batches` under `mode` at time `now` makes of the
    /// table, or why the write is refused. A refused write leaves the
    /// table as it is.
    pub open spec fn written(self, batches: Seq<BatchView>, mode: SaveMode, now: u64) -> Result<
        TableView,
        JobError,
    > {
        if self.created() {
            match mode {
                SaveMode::ErrorIfExists => Err(JobError::SinkAlreadyExists),
                SaveMode::Ignore => Ok(self),
                SaveMode::Append => if all_fit(batches, self.columns) {
                    Ok(self.committed(false, gathered(batches), now))
                } else {
                    Err(JobError::SchemaMismatch)
                },
                SaveMode::Overwrite => if all_fit(batches, self.columns) {
                    Ok(self.committed(true, gathered(batches), now))
                } else {
                    Err(JobError::SchemaMismatch)
                },
            }
        } else {
            let columns = leading_columns(batches);
            if all_fit(batches, columns) {
                Ok(TableView { columns, log: Seq::empty() }.committed(true, gathered(batches), now))
            } else {
                Err(JobError::SchemaMismatch)
            }
        }
    }

    /// Every row that was ever committed has one cell for each column.
    pub open spec fn wf(self) -> bool {
        forall|v: int| 0 <= v < self.log.len() ==> rows_fit(
            (#[trigger] self.log[v]).rows,
            self.columns.len(),
        )
    }
}

/// Copies a row.
pub fn copy_row(row: &Vec<i64>) -> (copy: Vec<i64>)
    ensures
        copy@ == row@,
{
    let mut copy: Vec<i64> = Vec::new();
    let mut i: usize = 0;
    while i < row.len()
        invariant
            i <= row.len(),
            copy@ == row@.take(i as int),
        decreases row.len() - i,
    {
        copy.push(row[i]);
        assert(copy@ =~= row@.take(i + 1));
        i += 1;
    }
    assert(row@.take(row@.len() as int) =~= row@);
    copy
}

/// Adds copies of `rows` to `into`.
fn extend_rows(into: &mut Vec<Vec<i64>>, rows: &Vec<Vec<i64>>)
    ensures
        rows_of(final(into)@) == rows_of(old(into)@) + rows_of(rows@),
{
    let mut i: usize = 0;
    while i < rows.len()
        invariant
            i <= rows.len(),
            rows_of(into@) == rows_of(old(into)@) + rows_of(rows@).take(i as int),
        decreases rows.len() - i,
    {
        let ghost before = into@;
        into.push(copy_row(&rows[i]));
        assert(rows_of(into@) =~= rows_of(before).push(rows@[i as int]@));
        assert(rows_of(rows@).take(i + 1) =~= rows_of(rows@).take(i as int).push(rows@[i as int]@));
        i += 1;
    }
    assert(rows_of(rows@).take(rows@.len() as int) =~= rows_of(rows@));
}

impl RecordBatch {
    /// Whether the batch has the schema `columns`, every row included.
    pub fn fits(&self, columns: &Vec<String>) -> (fits: bool)
        ensures
            fits == batch_fits(self@, columns.deep_view()),
    {
        if !same_names(&self.columns, columns) {
            return false;
        }
        let width = columns.len();
        let mut r: usize = 0;
        while r < self.rows.len()
            invariant
                r <= self.rows.len(),
                width == columns.deep_view().len(),
                forall|k: int| 0 <= k < r ==> (#[trigger] self@.rows[k]).len() == width,
            decreases self.rows.len() - r,
        {
            if self.rows[r].len() != width {
                assert(self@.rows[r as int].len() != width);
                return false;
            }
            r += 1;
        }
        true
    }
}

/// Whether every batch of `batches` has the schema `columns`.
pub fn batches_fit(batches: &Vec<RecordBatch>, columns: &Vec<String>) -> (fit: bool)
    ensures
        fit == all_fit(batch_views(batches@), columns.deep_view()),
{
    let mut i: usize = 0;
    while i < batches.len()
        invariant
            i <= batches.len(),
            forall|k: int|
                0 <= k < i ==> batch_fits(
                    #[trigger] batch_views(batches@)[k],
                    columns.deep_view(),
                ),
        decreases batches.len() - i,
    {
        if !batches[i].fits(columns) {
            assert(!batch_fits(batch_views(batches@)[i as int], columns.deep_view()));
            return false;
        }
        i += 1;
    }
    true
}

/// All rows of `batches`, in order, copied into one list.
pub fn gather(batches: &Vec<RecordBatch>) -> (rows: Vec<Vec<i64>>)
    ensures
        rows_of(rows@) == gathered(batch_views(batches@)),
{
    let mut rows: Vec<Vec<i64>> = Vec::new();
    let mut i: usize = 0;
    assert(rows_of(rows@) =~= gathered(batch_views(batches@).take(0)));
    while i < batches.len()
        invariant
            i <= batches.len(),
            rows_of(rows@) == gathered(batch_views(batches@).take(i as int)),
        decreases batches.len() - i,
    {
        extend_rows(&mut rows, &batches[i].rows);
        proof {
            let views = batch_views(batches@);
            assert(views.take(i + 1).drop_last() =~= views.take(i as int));
            assert(views.take(i + 1).last() == batches@[i as int]@);
        }
        i += 1;
    }
    assert(batch_views(batches@).take(batches@.len() as int) =~= batch_views(batches@));
    rows
}

/// One entry of a table's log.
struct Commit {
    timestamp: u64,
    replaces: bool,
    rows: Vec<Vec<i64>>,
}

impl View for Commit {
    type V = CommitView;

    closed spec fn view(&self) -> CommitView {
        CommitView { timestamp: self.timestamp, replaces: self.replaces, rows: rows_of(self.rows@) }
    }
}

/// A versioned table held in memory.
pub struct VersionedTable {
    columns: Vec<String>,
    log: Vec<Commit>,
}

impl View for VersionedTable {
    type V = TableView;

    closed spec fn view(&self) -> TableView {
        TableView {
            columns: self.columns.deep_view(),
            log: Seq::new(self.log@.len(), |v: int| self.log@[v]@),
        }
    }
}

impl VersionedTable {
    #[verifier::type_invariant]
    spec fn inv(self) -> bool {
        self@.wf()
    }

    /// A table that does not exist yet.
    pub fn new() -> (table: VersionedTable)
        ensures
            !table@.created(),
            table@.columns.len() == 0,
            table@.wf(),
    {
        VersionedTable { columns: Vec::new(), log: Vec::new() }
    }

    /// Whether the table exists.
    pub fn is_created(&self) -> (created: bool)
        ensures
            created == self@.created(),
    {
        self.log.len() > 0
    }

    /// How many versions the table has.
    pub fn versions(&self) -> (count: usize)
        ensures
            count == self@.log.len(),
    {
        self.log.len()
    }

    /// The table's schema.
    pub fn columns(&self) -> (columns: Vec<String>)
        ensures
            columns.deep_view() == self@.columns,
    {
        let columns = copy_names(&self.columns);
        assert(columns.deep_view() =~= self.columns.deep_view());
        columns
    }

    /// The greatest version below `n` that was committed at or before
    /// `time`.
    fn version_at(&self, time: u64, n: usize) -> (found: Option<usize>)
        requires
            n <= self@.log.len(),
        ensures
            match found {
                Some(v) => v < n && latest_at(self@.log, time, n as int) == Some(v as int),
                None => latest_at(self@.log, time, n as int) is None,
            },
    {
        let mut k: usize = n;
        while k > 0
            invariant
                k <= n <= self.log@.len(),
                latest_at(self@.log, time, n as int) == latest_at(self@.log, time, k as int),
            decreases k,
        {
            if self.log[k - 1].timestamp <= time {
                return Some(k - 1);
            }
            k -= 1;
        }
        None
    }

    /// Opens the table at the version that `selector` picks. Fails with
    /// `TableNotFound` where the table does not exist, and with
    /// `VersionNotFound` where it has no such version.
    pub fn open(&self, selector: VersionSelector) -> (opened: Result<TableHandle, JobError>)
        ensures
            match self@.resolved(selector) {
                Ok(v) => opened matches Ok(handle) && handle.version == v,
                Err(e) => opened == Err::<TableHandle, JobError>(e),
            },
    {
        let n = self.log.len();
        if n == 0 {
            return Err(JobError::TableNotFound);
        }
        match selector {
            VersionSelector::Latest => Ok(TableHandle { version: n - 1 }),
            VersionSelector::Version(v) => {
                if v < n {
                    Ok(TableHandle { version: v })
                } else {
                    Err(JobError::VersionNotFound)
                }
            },
            VersionSelector::Timestamp(time) => match self.version_at(time, n) {
                Some(v) => Ok(TableHandle { version: v }),
                None => Err(JobError::VersionNotFound),
            },
        }
    }

    /// The table's rows as of the version that `handle` stands at; no row
    /// where the table has no such version.
    pub fn rows(&self, handle: TableHandle) -> (rows: Vec<Vec<i64>>)
        ensures
            rows_of(rows@) == self@.snapshot(handle.version as int),
    {
        let mut rows: Vec<Vec<i64>> = Vec::new();
        if handle.version >= self.log.len() {
            assert(rows_of(rows@) =~= self@.snapshot(handle.version as int));
            return rows;
        }
        let n = self.log.len();
        let mut v: usize = 0;
        assert(rows_of(rows@) =~= self@.snapshot(-1));
        while v <= handle.version
            invariant
                v <= handle.version + 1,
                handle.version < n == self.log@.len(),
                rows_of(rows@) == self@.snapshot(v - 1),
            decreases handle.version + 1 - v,
        {
            if v == 0 || self.log[v].replaces {
                rows = Vec::new();
                assert(rows_of(rows@) =~= Seq::<Seq<i64>>::empty());
            }
            extend_rows(&mut rows, &self.log[v].rows);
            assert(rows_of(rows@) =~= self@.snapshot(v as int));
            v += 1;
        }
        rows
    }

    /// How many rows the table holds as of the version that `handle`
    /// stands at.
    pub fn row_count(&self, handle: TableHandle) -> (count: usize)
        ensures
            count == self@.snapshot(handle.version as int).len(),
    {
        let rows = self.rows(handle);
        assert(rows_of(rows@).len() == rows@.len());
        rows.len()
    }

    /// Adds a version to the table.
    fn commit(&mut self, replaces: bool, rows: Vec<Vec<i64>>, now: u64)
        requires
            rows_fit(rows_of(rows@), old(self)@.columns.len()),
        ensures
            final(self)@ == old(self)@.committed(replaces, rows_of(rows@), now),
    {
        proof {
            use_type_invariant(&*self);
        }
        let ghost before = self@;
        let mut log: Vec<Commit> = Vec::new();
        std::mem::swap(&mut self.log, &mut log);
        log.push(Commit { timestamp: now, replaces, rows });
        assert forall|v: int| 0 <= v < log@.len() implies rows_fit(
            (#[trigger] log@[v])@.rows,
            before.columns.len(),
        ) by {
            if v < log@.len() - 1 {
                assert(log@[v]@ == before.log[v]);
            }
        }
        self.log = log;
        assert(self@.log =~= before.log.push(
            CommitView { timestamp: now, replaces, rows: rows_of(rows@) },
        ));
    }

    /// Writes `batches` to the table under `mode`, at time `now`.
    ///
    /// * A table that does not exist is created with the batches' schema,
    ///   whatever the mode.
    /// * `Append` adds the rows as a new version; `Overwrite` replaces the
    ///   data as of a new version. Earlier versions stay as they were.
    /// * `ErrorIfExists` fails with `SinkAlreadyExists` on a table that
    ///   exists; `Ignore` does nothing to it and succeeds.
    /// * Batches that do not have the table's schema fail with
    ///   `SchemaMismatch`.
    ///
    /// A write that fails leaves the table as it was.
    pub fn write(&mut self, batches: &Vec<RecordBatch>, mode: SaveMode, now: u64) -> (done: Result<
        (),
        JobError,
    >)
        ensures
            match old(self)@.written(batch_views(batches@), mode, now) {
                Ok(table) => done is Ok && final(self)@ == table,
                Err(e) => done == Err::<(), JobError>(e) && final(self)@ == old(self)@,
            },
            final(self)@.wf(),
    {
        proof {
            use_type_invariant(&*self);
            lemma_gathered_fit(batch_views(batches@), self@.columns);
            lemma_gathered_fit(batch_views(batches@), leading_columns(batch_views(batches@)));
        }
        if self.log.len() > 0 {
            match mode {
                SaveMode::ErrorIfExists => Err(JobError::SinkAlreadyExists),
                SaveMode::Ignore => Ok(()),
                SaveMode::Append => {
                    if batches_fit(batches, &self.columns) {
                        self.commit(false, gather(batches), now);
                        Ok(())
                    } else {
                        Err(JobError::SchemaMismatch)
                    }
                },
                SaveMode::Overwrite => {
                    if batches_fit(batches, &self.columns) {
                        self.commit(true, gather(batches), now);
                        Ok(())
                    } else {
                        Err(JobError::SchemaMismatch)
                    }
                },
            }
        } else {
            let columns = if batches.len() == 0 {
                Vec::new()
            } else {
                copy_names(&batches[0].columns)
            };
            assert(columns.deep_view() =~= leading_columns(batch_views(batches@)));
            if batches_fit(batches, &columns) {
                self.columns = columns;
                assert(self@.log =~= Seq::<CommitView>::empty());
                self.commit(true, gather(batches), now);
                Ok(())
            } else {
                Err(JobError::SchemaMismatch)
            }
        }
    }
}

/// Rows gathered from batches of one schema all have its width.
pub proof fn lemma_gathered_fit(batches: Seq<BatchView>, columns: Seq<Seq<char>>)
    ensures
        all_fit(batches, columns) ==> rows_fit(gathered(batches), columns.len()),
    decreases batches.len(),
{
    if all_fit(batches, columns) && batches.len() > 0 {
        let init = batches.drop_last();
        assert forall|i: int| 0 <= i < init.len() implies batch_fits(
            #[trigger] init[i],
            columns,
        ) by {
            assert(init[i] == batches[i]);
        }
        lemma_gathered_fit(init, columns);
        assert(batch_fits(batches[batches.len() - 1], columns));
    }
}

} // verus!
