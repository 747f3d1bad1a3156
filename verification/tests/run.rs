use yummy::job::lake::Lakehouse;
use yummy::job::model::{
    Fault, JobError, JobRequest, JobResponse, JobSink, JobSource, JobTable, SaveMode,
};
use yummy::job::run::{classify_error, run_job, JobRun, Outside, UnreadablePath};
use yummy::job::store::{StoreCatalog, StoreDescriptor, StoreEntry};
use yummy::job::table::{RecordBatch, TableHandle, VersionSelector};

const OK: Result<JobResponse, JobError> = Ok(JobResponse { success: true });

fn s(text: &str) -> String {
    text.to_string()
}

fn catalog() -> StoreCatalog {
    let store = |name: &str, path: &str| StoreEntry {
        name: s(name),
        descriptor: StoreDescriptor { path: s(path), storage_options: None },
    };
    StoreCatalog {
        stores: vec![
            store("raw", "s3://raw-data"),
            store("gold", "s3://gold-data"),
            store("bad", "::"),
        ],
    }
}

fn parquet(name: &str) -> JobTable {
    JobTable::Parquet { name: s(name), path: format!("s3://raw-data/{name}.parquet") }
}

fn job(tables: Vec<JobTable>, sql: &str, save_mode: SaveMode, dry_run: Option<bool>) -> JobRequest {
    JobRequest {
        source: JobSource { store: s("raw"), tables },
        sql: s(sql),
        sink: JobSink { name: s("sink"), store: s("gold"), table: s("out"), save_mode },
        dry_run,
    }
}

fn batch(columns: &[&str], rows: Vec<Vec<i64>>) -> RecordBatch {
    RecordBatch { columns: columns.iter().map(|c| s(c)).collect(), rows }
}

fn answer(rows: Vec<Vec<i64>>) -> Outside {
    Outside { unreadable: vec![], answer: Ok(vec![batch(&["a"], rows)]) }
}

fn sink_versions(lake: &Lakehouse) -> usize {
    lake.versions(&s("gold"), &s("out"))
}

fn sink_rows(lake: &Lakehouse) -> Vec<Vec<i64>> {
    match lake.open(&catalog(), &s("gold"), &s("out"), VersionSelector::Latest) {
        Ok(handle) => lake.rows(&s("gold"), &s("out"), handle),
        Err(_) => vec![],
    }
}

#[test]
fn dry_run_over_a_columnar_file_shows_two_rows_and_writes_nothing() {
    let mut lake = Lakehouse::new();
    lake.write(&catalog(), &s("gold"), &s("out"), &vec![batch(&["a"], vec![vec![0]])], SaveMode::Append, 1)
        .unwrap();
    let request = job(vec![parquet("t")], "SELECT * FROM t LIMIT 2", SaveMode::Overwrite, Some(true));

    let run = run_job(request, catalog(), &mut lake, &answer(vec![vec![1], vec![2]]), 2);

    assert_eq!(run.outcome, OK);
    assert!(run.preview.len() <= 2);
    assert_eq!(run.preview, vec![vec![1], vec![2]]);
    assert_eq!(sink_versions(&lake), 1);
    assert_eq!(sink_rows(&lake), vec![vec![0]]);
}

#[test]
fn count_over_a_versioned_table_overwrites_the_sink_with_one_cell() {
    let mut lake = Lakehouse::new();
    let c = catalog();
    let source = vec![batch(&["id"], vec![vec![7], vec![8], vec![9], vec![10]])];
    lake.write(&c, &s("raw"), &s("events"), &source, SaveMode::Append, 1).unwrap();
    lake.write(&c, &s("gold"), &s("out"), &vec![batch(&["count(*)"], vec![vec![0], vec![0]])], SaveMode::Append, 1)
        .unwrap();
    let handle = lake.open(&c, &s("raw"), &s("events"), VersionSelector::Latest).unwrap();
    let count = lake.rows(&s("raw"), &s("events"), handle).len() as i64;
    let outside = Outside { unreadable: vec![], answer: Ok(vec![batch(&["count(*)"], vec![vec![count]])]) };
    let request = job(
        vec![JobTable::Delta { name: s("t"), table: s("events") }],
        "SELECT count(*) FROM t",
        SaveMode::Overwrite,
        Some(false),
    );

    let run = run_job(request, catalog(), &mut lake, &outside, 2);

    assert_eq!(run, JobRun { outcome: OK, preview: vec![] });
    assert_eq!(sink_versions(&lake), 2);
    assert_eq!(sink_rows(&lake), vec![vec![4]]);
    assert_eq!(sink_rows(&lake).len(), 1);
    assert_eq!(sink_rows(&lake)[0].len(), 1);
    assert_eq!(lake.rows(&s("gold"), &s("out"), TableHandle { version: 0 }), vec![vec![0], vec![0]]);
    assert_eq!(lake.versions(&s("raw"), &s("events")), 1);
}

#[test]
fn dry_run_never_writes_whatever_the_mode() {
    for mode in [SaveMode::Append, SaveMode::Overwrite, SaveMode::ErrorIfExists, SaveMode::Ignore] {
        let mut lake = Lakehouse::new();
        let run = run_job(
            job(vec![parquet("t")], "SELECT * FROM t", mode, Some(true)),
            catalog(),
            &mut lake,
            &answer(vec![vec![1]]),
            1,
        );
        assert_eq!(run.outcome, OK);
        assert_eq!(sink_versions(&lake), 0);
    }
}

#[test]
fn preview_shows_at_most_ten_rows() {
    let mut lake = Lakehouse::new();
    let rows: Vec<Vec<i64>> = (0..25).map(|i| vec![i]).collect();
    let outside = Outside {
        unreadable: vec![],
        answer: Ok(vec![batch(&["a"], rows[..7].to_vec()), batch(&["a"], rows[7..].to_vec())]),
    };
    let run = run_job(job(vec![], "SELECT 1", SaveMode::Append, Some(true)), catalog(), &mut lake, &outside, 1);
    assert_eq!(run.preview, rows[..10].to_vec());
    let run = run_job(
        job(vec![], "SELECT 1", SaveMode::Append, Some(true)),
        catalog(),
        &mut lake,
        &answer(rows[..10].to_vec()),
        1,
    );
    assert_eq!(run.preview.len(), 10);
    let run = run_job(job(vec![], "SELECT 1", SaveMode::Append, Some(true)), catalog(), &mut lake, &answer(vec![]), 1);
    assert_eq!(run.preview.len(), 0);
}

#[test]
fn overwriting_runs_make_a_version_each() {
    let mut lake = Lakehouse::new();
    let request = || job(vec![parquet("t")], "SELECT * FROM t", SaveMode::Overwrite, None);
    assert_eq!(run_job(request(), catalog(), &mut lake, &answer(vec![vec![1], vec![2]]), 1).outcome, OK);
    assert_eq!(sink_versions(&lake), 1);
    assert_eq!(run_job(request(), catalog(), &mut lake, &answer(vec![vec![3]]), 2).outcome, OK);
    assert_eq!(sink_versions(&lake), 2);
    assert_eq!(sink_rows(&lake), vec![vec![3]]);
    assert_eq!(lake.rows(&s("gold"), &s("out"), TableHandle { version: 0 }), vec![vec![1], vec![2]]);
}

#[test]
fn appending_runs_double_the_rows() {
    let mut lake = Lakehouse::new();
    let request = || job(vec![parquet("t")], "SELECT * FROM t", SaveMode::Append, Some(false));
    let rows = vec![vec![1], vec![2], vec![3]];
    assert_eq!(run_job(request(), catalog(), &mut lake, &answer(rows.clone()), 1).outcome, OK);
    let once = sink_rows(&lake).len();
    assert_eq!(run_job(request(), catalog(), &mut lake, &answer(rows.clone()), 2).outcome, OK);
    let twice = sink_rows(&lake).len();
    assert_eq!((once, twice), (3, 6));
    assert_eq!(sink_rows(&lake), vec![vec![1], vec![2], vec![3], vec![1], vec![2], vec![3]]);
}

#[test]
fn existing_sink_is_guarded() {
    let mut lake = Lakehouse::new();
    let first = job(vec![], "SELECT 1", SaveMode::ErrorIfExists, None);
    assert_eq!(run_job(first, catalog(), &mut lake, &answer(vec![vec![1]]), 1).outcome, OK);

    let again = job(vec![], "SELECT 1", SaveMode::ErrorIfExists, None);
    let run = run_job(again, catalog(), &mut lake, &answer(vec![vec![2]]), 2);
    assert_eq!(run.outcome, Err(JobError::SinkAlreadyExists));
    assert_eq!((sink_versions(&lake), sink_rows(&lake)), (1, vec![vec![1]]));

    let ignore = job(vec![], "SELECT 1", SaveMode::Ignore, None);
    let run = run_job(ignore, catalog(), &mut lake, &answer(vec![vec![3]]), 3);
    assert_eq!(run.outcome, OK);
    assert_eq!((sink_versions(&lake), sink_rows(&lake)), (1, vec![vec![1]]));
}

#[test]
fn result_of_another_schema_is_refused() {
    let mut lake = Lakehouse::new();
    run_job(job(vec![], "SELECT 1", SaveMode::Append, None), catalog(), &mut lake, &answer(vec![vec![1]]), 1);
    let outside = Outside { unreadable: vec![], answer: Ok(vec![batch(&["b"], vec![vec![2]])]) };
    let run = run_job(job(vec![], "SELECT 1", SaveMode::Append, None), catalog(), &mut lake, &outside, 2);
    assert_eq!(run.outcome, Err(JobError::SchemaMismatch));
    assert_eq!(sink_rows(&lake), vec![vec![1]]);
}

#[test]
fn stages_fail_in_their_order() {
    let mut lake = Lakehouse::new();
    let unreadable = Outside {
        unreadable: vec![
            UnreadablePath { path: s("s3://raw-data/b.parquet"), fault: Fault::Malformed },
            UnreadablePath { path: s("s3://raw-data/b.parquet"), fault: Fault::Unreachable },
        ],
        answer: Err(Fault::Rejected),
    };

    let mut request = job(vec![parquet("a")], "SELECT 1", SaveMode::Append, None);
    request.source.store = s("nowhere");
    request.sink.store = s("nowhere");
    let run = run_job(request, catalog(), &mut lake, &unreadable, 1);
    assert_eq!(run.outcome, Err(JobError::UnknownStore { store: s("nowhere") }));

    let mut request = job(vec![parquet("a"), parquet("a")], "SELECT 1", SaveMode::Append, None);
    request.source.store = s("bad");
    let run = run_job(request, catalog(), &mut lake, &unreadable, 1);
    assert_eq!(run.outcome, Err(JobError::StoreUnreachable));

    // The unreadable file comes before the second use of the alias.
    let request = job(vec![parquet("a"), parquet("b"), parquet("a")], "SELECT 1", SaveMode::Append, None);
    let run = run_job(request, catalog(), &mut lake, &unreadable, 1);
    assert_eq!(
        run.outcome,
        Err(JobError::RegistrationError { alias: s("b"), cause: Fault::Malformed })
    );

    let request = job(vec![parquet("a"), parquet("a"), parquet("b")], "SELECT 1", SaveMode::Append, None);
    let run = run_job(request, catalog(), &mut lake, &unreadable, 1);
    assert_eq!(run.outcome, Err(JobError::DuplicateAlias { alias: s("a") }));

    let request = job(vec![parquet("a")], "SELECT 1", SaveMode::Append, None);
    let run = run_job(request, catalog(), &mut lake, &unreadable, 1);
    assert_eq!(run.outcome, Err(JobError::QueryError));

    let mut request = job(vec![parquet("a")], "SELECT 1", SaveMode::Append, None);
    request.sink.store = s("nowhere");
    let run = run_job(request, catalog(), &mut lake, &answer(vec![vec![1]]), 1);
    assert_eq!(run.outcome, Err(JobError::UnknownStore { store: s("nowhere") }));
    assert_eq!(run.preview, Vec::<Vec<i64>>::new());
    assert_eq!(sink_versions(&lake), 0);
}

#[test]
fn versioned_source_is_opened_in_the_source_store() {
    let mut lake = Lakehouse::new();
    let c = catalog();
    // The table stands in the sink store only: the source store has none.
    lake.write(&c, &s("gold"), &s("events"), &vec![batch(&["a"], vec![vec![1]])], SaveMode::Append, 1).unwrap();
    let request = job(
        vec![JobTable::Delta { name: s("t"), table: s("events") }],
        "SELECT * FROM t",
        SaveMode::Append,
        None,
    );
    let run = run_job(request, catalog(), &mut lake, &answer(vec![vec![1]]), 2);
    assert_eq!(
        run.outcome,
        Err(JobError::RegistrationError { alias: s("t"), cause: Fault::TableNotFound })
    );
    assert_eq!(sink_versions(&lake), 0);
}

#[test]
fn errors_are_reported_as_faults() {
    assert_eq!(classify_error(&JobError::TableNotFound), Fault::TableNotFound);
    assert_eq!(classify_error(&JobError::VersionNotFound), Fault::VersionNotFound);
    assert_eq!(classify_error(&JobError::SinkAlreadyExists), Fault::AlreadyExists);
    assert_eq!(classify_error(&JobError::SchemaMismatch), Fault::SchemaMismatch);
    assert_eq!(classify_error(&JobError::WriteConflict), Fault::Conflict);
    assert_eq!(classify_error(&JobError::QueryError), Fault::Rejected);
    assert_eq!(classify_error(&JobError::StoreUnreachable), Fault::Unreachable);
    assert_eq!(classify_error(&JobError::UnknownStore { store: s("x") }), Fault::Unreachable);
    let outside = Outside {
        unreadable: vec![UnreadablePath { path: s("p"), fault: Fault::Unreachable }],
        answer: Ok(vec![]),
    };
    assert_eq!(outside.fault_at(&s("p")), Some(Fault::Unreachable));
    assert_eq!(outside.fault_at(&s("q")), None);
}
