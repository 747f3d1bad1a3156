use yummy::job::model::{JobError, SaveMode};
use yummy::job::table::{
    batches_fit, copy_row, gather, RecordBatch, TableHandle, VersionSelector, VersionedTable,
};

fn batch(columns: &[&str], rows: Vec<Vec<i64>>) -> RecordBatch {
    RecordBatch { columns: columns.iter().map(|c| c.to_string()).collect(), rows }
}

fn latest_rows(table: &VersionedTable) -> Vec<Vec<i64>> {
    table.rows(table.open(VersionSelector::Latest).unwrap())
}

#[test]
fn new_table_does_not_exist() {
    let table = VersionedTable::new();
    assert!(!table.is_created());
    assert_eq!(table.versions(), 0);
    assert_eq!(table.open(VersionSelector::Latest), Err(JobError::TableNotFound));
    assert_eq!(table.open(VersionSelector::Version(0)), Err(JobError::TableNotFound));
    assert_eq!(table.rows(TableHandle { version: 0 }), Vec::<Vec<i64>>::new());
    assert_eq!(table.row_count(TableHandle { version: 3 }), 0);
}

#[test]
fn every_mode_creates_a_missing_table() {
    for mode in [SaveMode::Append, SaveMode::Overwrite, SaveMode::ErrorIfExists, SaveMode::Ignore] {
        let mut table = VersionedTable::new();
        let written = table.write(&vec![batch(&["a", "b"], vec![vec![1, 2]])], mode, 3);
        assert_eq!(written, Ok(()));
        assert!(table.is_created());
        assert_eq!(table.versions(), 1);
        assert_eq!(table.columns(), vec!["a".to_string(), "b".to_string()]);
        assert_eq!(latest_rows(&table), vec![vec![1, 2]]);
    }
}

#[test]
fn overwrite_twice_keeps_both_versions() {
    let mut table = VersionedTable::new();
    table.write(&vec![batch(&["a"], vec![vec![0]])], SaveMode::Append, 1).unwrap();
    let first = vec![batch(&["a"], vec![vec![1], vec![2]])];
    let second = vec![batch(&["a"], vec![vec![3]]), batch(&["a"], vec![vec![4], vec![5]])];

    assert_eq!(table.write(&first, SaveMode::Overwrite, 2), Ok(()));
    assert_eq!(table.versions(), 2);
    assert_eq!(latest_rows(&table), vec![vec![1], vec![2]]);

    assert_eq!(table.write(&second, SaveMode::Overwrite, 3), Ok(()));
    assert_eq!(table.versions(), 3);
    assert_eq!(table.open(VersionSelector::Latest), Ok(TableHandle { version: 2 }));
    assert_eq!(latest_rows(&table), vec![vec![3], vec![4], vec![5]]);
    assert_eq!(table.rows(TableHandle { version: 1 }), vec![vec![1], vec![2]]);
    assert_eq!(table.rows(TableHandle { version: 0 }), vec![vec![0]]);
}

#[test]
fn append_twice_doubles_the_rows() {
    let batches = vec![batch(&["a", "b"], vec![vec![1, 2], vec![3, 4], vec![5, 6]])];
    let mut table = VersionedTable::new();
    table.write(&batches, SaveMode::Append, 1).unwrap();
    let once = table.row_count(table.open(VersionSelector::Latest).unwrap());
    table.write(&batches, SaveMode::Append, 2).unwrap();
    let twice = table.row_count(table.open(VersionSelector::Latest).unwrap());
    assert_eq!(once, 3);
    assert_eq!(twice, 6);
    assert_eq!(twice, 2 * once);
    assert_eq!(
        latest_rows(&table),
        vec![vec![1, 2], vec![3, 4], vec![5, 6], vec![1, 2], vec![3, 4], vec![5, 6]]
    );
    assert_eq!(table.row_count(TableHandle { version: 0 }), 3);
}

#[test]
fn append_adds_to_what_the_table_held() {
    let mut table = VersionedTable::new();
    table.write(&vec![batch(&["a"], vec![vec![9], vec![8]])], SaveMode::Overwrite, 1).unwrap();
    let batches = vec![batch(&["a"], vec![vec![1]])];
    table.write(&batches, SaveMode::Append, 2).unwrap();
    table.write(&batches, SaveMode::Append, 3).unwrap();
    assert_eq!(latest_rows(&table), vec![vec![9], vec![8], vec![1], vec![1]]);
    assert_eq!(table.row_count(TableHandle { version: 2 }), 2 + 2 * 1);
}

#[test]
fn error_if_exists_fails_and_changes_nothing() {
    let mut table = VersionedTable::new();
    table.write(&vec![batch(&["a"], vec![vec![1]])], SaveMode::ErrorIfExists, 1).unwrap();
    let again = table.write(&vec![batch(&["a"], vec![vec![2]])], SaveMode::ErrorIfExists, 2);
    assert_eq!(again, Err(JobError::SinkAlreadyExists));
    assert_eq!(table.versions(), 1);
    assert_eq!(latest_rows(&table), vec![vec![1]]);
    let other_schema = table.write(&vec![batch(&["z"], vec![vec![2]])], SaveMode::ErrorIfExists, 2);
    assert_eq!(other_schema, Err(JobError::SinkAlreadyExists));
}

#[test]
fn ignore_succeeds_and_changes_nothing() {
    let mut table = VersionedTable::new();
    table.write(&vec![batch(&["a"], vec![vec![1]])], SaveMode::Ignore, 1).unwrap();
    let again = table.write(&vec![batch(&["b"], vec![vec![2]])], SaveMode::Ignore, 2);
    assert_eq!(again, Ok(()));
    assert_eq!(table.versions(), 1);
    assert_eq!(latest_rows(&table), vec![vec![1]]);
    assert_eq!(table.columns(), vec!["a".to_string()]);
}

#[test]
fn rows_of_another_schema_are_refused() {
    let mut table = VersionedTable::new();
    table.write(&vec![batch(&["a", "b"], vec![vec![1, 2]])], SaveMode::Append, 1).unwrap();
    for mode in [SaveMode::Append, SaveMode::Overwrite] {
        let renamed = table.write(&vec![batch(&["a", "c"], vec![vec![1, 2]])], mode, 2);
        assert_eq!(renamed, Err(JobError::SchemaMismatch));
        let short_row = table.write(&vec![batch(&["a", "b"], vec![vec![1, 2], vec![3]])], mode, 2);
        assert_eq!(short_row, Err(JobError::SchemaMismatch));
        let narrower = table.write(&vec![batch(&["a"], vec![vec![1]])], mode, 2);
        assert_eq!(narrower, Err(JobError::SchemaMismatch));
    }
    assert_eq!(table.versions(), 1);
    assert_eq!(latest_rows(&table), vec![vec![1, 2]]);
}

#[test]
fn batches_that_disagree_cannot_create_a_table() {
    let mut table = VersionedTable::new();
    let mixed = vec![batch(&["a"], vec![vec![1]]), batch(&["b"], vec![vec![2]])];
    assert_eq!(table.write(&mixed, SaveMode::Append, 1), Err(JobError::SchemaMismatch));
    assert!(!table.is_created());
    assert!(!batches_fit(&mixed, &vec!["a".to_string()]));
    assert!(batches_fit(&mixed[..1].to_vec(), &vec!["a".to_string()]));
}

#[test]
fn writing_no_batch_commits_no_row() {
    let mut table = VersionedTable::new();
    assert_eq!(table.write(&vec![], SaveMode::Append, 1), Ok(()));
    assert_eq!(table.versions(), 1);
    assert_eq!(table.columns(), Vec::<String>::new());
    assert_eq!(latest_rows(&table), Vec::<Vec<i64>>::new());
    assert_eq!(table.write(&vec![], SaveMode::Append, 2), Ok(()));
    assert_eq!(table.versions(), 2);
}

#[test]
fn versions_are_picked_by_number_and_by_time() {
    let mut table = VersionedTable::new();
    table.write(&vec![batch(&["a"], vec![vec![1]])], SaveMode::Append, 10).unwrap();
    table.write(&vec![batch(&["a"], vec![vec![2]])], SaveMode::Append, 20).unwrap();
    table.write(&vec![batch(&["a"], vec![vec![3]])], SaveMode::Overwrite, 30).unwrap();

    assert_eq!(table.open(VersionSelector::Latest), Ok(TableHandle { version: 2 }));
    assert_eq!(table.open(VersionSelector::Version(1)), Ok(TableHandle { version: 1 }));
    assert_eq!(table.open(VersionSelector::Version(3)), Err(JobError::VersionNotFound));
    assert_eq!(table.open(VersionSelector::Timestamp(9)), Err(JobError::VersionNotFound));
    assert_eq!(table.open(VersionSelector::Timestamp(10)), Ok(TableHandle { version: 0 }));
    assert_eq!(table.open(VersionSelector::Timestamp(25)), Ok(TableHandle { version: 1 }));
    assert_eq!(table.open(VersionSelector::Timestamp(u64::MAX)), Ok(TableHandle { version: 2 }));

    assert_eq!(table.rows(TableHandle { version: 0 }), vec![vec![1]]);
    assert_eq!(table.rows(TableHandle { version: 1 }), vec![vec![1], vec![2]]);
    assert_eq!(table.rows(TableHandle { version: 2 }), vec![vec![3]]);
    assert_eq!(table.rows(TableHandle { version: 3 }), Vec::<Vec<i64>>::new());
}

#[test]
fn gather_keeps_the_order_of_batches_and_rows() {
    let batches = vec![
        batch(&["a"], vec![vec![1], vec![2]]),
        batch(&["a"], vec![]),
        batch(&["a"], vec![vec![3]]),
    ];
    assert_eq!(gather(&batches), vec![vec![1], vec![2], vec![3]]);
    assert_eq!(gather(&vec![]), Vec::<Vec<i64>>::new());
    assert_eq!(copy_row(&vec![4, 5, 6]), vec![4, 5, 6]);
    assert!(batches[0].fits(&vec!["a".to_string()]));
    assert!(!batches[0].fits(&vec!["b".to_string()]));
}
