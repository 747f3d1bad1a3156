//! What a job is made of, and how it can fail.

use vstd::prelude::*;

verus! {

/// The policy applied when the sink may already hold data.
#[derive(Debug, Clone, Copy, PartialEq, Eq, Structural)]
pub enum SaveMode {
    /// Add the rows to the table.
    Append,
    /// Replace the table's data as of a new version.
    Overwrite,
    /// Create the table; fail where it exists.
    ErrorIfExists,
    /// Create the table; do nothing where it exists.
    Ignore,
}

/// One declared source: a file of some format, or a reference to a
/// versioned table of the job's source store. `name` is the alias under
/// which the SQL statement sees it.
#[derive(Debug, Clone, PartialEq, Eq)]
pub enum JobTable {
    /// A columnar file.
    Parquet { name: String, path: String },
    /// A delimited file.
    Csv { name: String, path: String },
    /// A file of line-delimited structured records.
    Json { name: String, path: String },
    /// A versioned table, by its name in the source store.
    Delta { name: String, table: String },
}

impl JobTable {
    /// The alias of this source.
    pub open spec fn alias(self) -> String {
        match self {
            JobTable::Parquet { name, .. } => name,
            JobTable::Csv { name, .. } => name,
            JobTable::Json { name, .. } => name,
            JobTable::Delta { name, .. } => name,
        }
    }

    /// The alias of this source.
    pub fn name(&self) -> (name: &String)
        ensures
            *name == self.alias(),
    {
        match self {
            JobTable::Parquet { name, .. } => name,
            JobTable::Csv { name, .. } => name,
            JobTable::Json { name, .. } => name,
            JobTable::Delta { name, .. } => name,
        }
    }
}

/// Where a job reads from: one store, and the sources declared in it, in
/// the order in which they are to be registered.
#[derive(Debug, Clone, PartialEq, Eq)]
pub struct JobSource {
    pub store: String,
    pub tables: Vec<JobTable>,
}

/// Where a job writes to.
#[derive(Debug, Clone, PartialEq, Eq)]
pub struct JobSink {
    pub name: String,
    pub store: String,
    pub table: String,
    pub save_mode: SaveMode,
}

/// One unit of work.
#[derive(Debug, Clone, PartialEq, Eq)]
pub struct JobRequest {
    pub source: JobSource,
    pub sql: String,
    pub sink: JobSink,
    /// Absent means `false`.
    pub dry_run: Option<bool>,
}

impl JobRequest {
    /// Whether this job only previews its result.
    pub open spec fn previews(self) -> bool {
        self.dry_run == Some(true)
    }

    /// Whether this job only previews its result.
    pub fn is_dry_run(&self) -> (dry: bool)
        ensures
            dry == self.previews(),
    {
        match self.dry_run {
            Some(dry) => dry,
            None => false,
        }
    }

    /// The aliases of the declared sources, in declaration order.
    pub open spec fn aliases(self) -> Seq<Seq<char>> {
        Seq::new(self.source.tables@.len(), |i: int| self.source.tables@[i].alias()@)
    }

    /// Whether the alias of source `k` is already that of an earlier source.
    pub fn alias_taken_at(&self, k: usize) -> (taken: bool)
        requires
            k < self.source.tables@.len(),
        ensures
            taken == alias_taken(self.aliases(), k as int),
    {
        let tables = &self.source.tables;
        let alias = tables[k].name();
        let mut j: usize = 0;
        while j < k
            invariant
                j <= k < tables@.len(),
                tables == &self.source.tables,
                *alias == tables@[k as int].alias(),
                forall|i: int| 0 <= i < j ==> self.aliases()[i] != self.aliases()[k as int],
            decreases k - j,
        {
            if *tables[j].name() == *alias {
                assert(self.aliases()[j as int] == self.aliases()[k as int]);
                return true;
            }
            j += 1;
        }
        false
    }
}

/// Whether the alias at position `k` already occurs before `k`.
pub open spec fn alias_taken(aliases: Seq<Seq<char>>, k: int) -> bool {
    exists|j: int| 0 <= j < k && aliases[j] == aliases[k]
}

/// Whether the first `n` aliases differ from one another.
pub open spec fn distinct_aliases(aliases: Seq<Seq<char>>, n: int) -> bool {
    forall|i: int, j: int| 0 <= i < j < n ==> aliases[i] != aliases[j]
}

/// What a finished job reports.
#[derive(Debug, Clone, Copy, PartialEq, Eq, Structural)]
pub struct JobResponse {
    pub success: bool,
}

/// How a piece of outside work failed, as far as the engine tells
/// failures apart.
#[derive(Debug, Clone, Copy, PartialEq, Eq, Structural)]
pub enum Fault {
    /// A store, a path or a backend could not be reached.
    Unreachable,
    /// A file does not have the format it was declared with.
    Malformed,
    /// No versioned table stands at the place named.
    TableNotFound,
    /// The table has no such version.
    VersionNotFound,
    /// The query engine refused or could not evaluate the statement.
    Rejected,
    /// The sink exists and the save mode forbids that.
    AlreadyExists,
    /// The rows do not fit the sink's schema.
    SchemaMismatch,
    /// The sink moved to a new version while the write was under way.
    Conflict,
}

/// Why a job failed.
#[derive(Debug, Clone, PartialEq, Eq)]
pub enum JobError {
    /// No store is configured under this name.
    UnknownStore { store: String },
    /// No versioned table stands at the place named.
    TableNotFound,
    /// The table has no version that the selector picks.
    VersionNotFound,
    /// The source with this alias could not be registered.
    RegistrationError { alias: String, cause: Fault },
    /// A second source was declared under this alias.
    DuplicateAlias { alias: String },
    /// The statement is malformed, names an alias that is not
    /// registered, or could not be evaluated.
    QueryError,
    /// The sink exists and the save mode is `ErrorIfExists`.
    SinkAlreadyExists,
    /// The result does not have the schema of the sink.
    SchemaMismatch,
    /// The sink moved to a new version while it was being written to.
    WriteConflict,
    /// A store's location is no URL, or its backend cannot be reached.
    StoreUnreachable,
}

} // verus!
