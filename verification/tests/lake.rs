use yummy::job::lake::Lakehouse;
use yummy::job::model::{JobError, SaveMode};
use yummy::job::store::{StoreCatalog, StoreDescriptor, StoreEntry};
use yummy::job::table::{RecordBatch, TableHandle, VersionSelector};

fn catalog() -> StoreCatalog {
    let store = |name: &str| StoreEntry {
        name: name.to_string(),
        descriptor: StoreDescriptor { path: format!("mem://{name}"), storage_options: None },
    };
    StoreCatalog { stores: vec![store("a"), store("b")] }
}

fn s(text: &str) -> String {
    text.to_string()
}

fn batch(rows: Vec<Vec<i64>>) -> Vec<RecordBatch> {
    vec![RecordBatch { columns: vec![s("x")], rows }]
}

#[test]
fn gateway_resolves_the_store_first() {
    let lake = Lakehouse::new();
    assert_eq!(
        lake.open(&catalog(), &s("nowhere"), &s("t"), VersionSelector::Latest),
        Err(JobError::UnknownStore { store: s("nowhere") })
    );
    assert_eq!(
        lake.open(&catalog(), &s("a"), &s("t"), VersionSelector::Latest),
        Err(JobError::TableNotFound)
    );
}

#[test]
fn gateway_opens_what_the_writer_wrote() {
    let mut lake = Lakehouse::new();
    let c = catalog();
    assert_eq!(lake.write(&c, &s("a"), &s("t"), &batch(vec![vec![1]]), SaveMode::Append, 5), Ok(()));
    assert_eq!(lake.write(&c, &s("a"), &s("t"), &batch(vec![vec![2]]), SaveMode::Append, 6), Ok(()));
    assert_eq!(lake.open(&c, &s("a"), &s("t"), VersionSelector::Latest), Ok(TableHandle { version: 1 }));
    assert_eq!(lake.open(&c, &s("a"), &s("t"), VersionSelector::Version(0)), Ok(TableHandle { version: 0 }));
    assert_eq!(lake.open(&c, &s("a"), &s("t"), VersionSelector::Version(2)), Err(JobError::VersionNotFound));
    assert_eq!(lake.open(&c, &s("a"), &s("t"), VersionSelector::Timestamp(5)), Ok(TableHandle { version: 0 }));
    assert_eq!(lake.open(&c, &s("a"), &s("t"), VersionSelector::Timestamp(4)), Err(JobError::VersionNotFound));
    assert_eq!(lake.rows(&s("a"), &s("t"), TableHandle { version: 1 }), vec![vec![1], vec![2]]);
    assert_eq!(lake.rows(&s("a"), &s("t"), TableHandle { version: 0 }), vec![vec![1]]);
    assert_eq!(lake.versions(&s("a"), &s("t")), 2);
}

#[test]
fn tables_are_kept_apart_by_store_and_name() {
    let mut lake = Lakehouse::new();
    let c = catalog();
    lake.write(&c, &s("a"), &s("t"), &batch(vec![vec![1]]), SaveMode::Append, 1).unwrap();
    lake.write(&c, &s("b"), &s("t"), &batch(vec![vec![2]]), SaveMode::Append, 1).unwrap();
    lake.write(&c, &s("a"), &s("u"), &batch(vec![vec![3]]), SaveMode::Append, 1).unwrap();
    lake.write(&c, &s("a"), &s("t"), &batch(vec![vec![4]]), SaveMode::Overwrite, 2).unwrap();
    assert_eq!(lake.rows(&s("a"), &s("t"), TableHandle { version: 1 }), vec![vec![4]]);
    assert_eq!(lake.rows(&s("b"), &s("t"), TableHandle { version: 0 }), vec![vec![2]]);
    assert_eq!(lake.rows(&s("a"), &s("u"), TableHandle { version: 0 }), vec![vec![3]]);
    assert_eq!(lake.versions(&s("b"), &s("t")), 1);
    assert_eq!(lake.versions(&s("b"), &s("u")), 0);
    assert_eq!(lake.rows(&s("b"), &s("u"), TableHandle { version: 0 }), Vec::<Vec<i64>>::new());
}

#[test]
fn writer_refuses_an_unknown_store() {
    let mut lake = Lakehouse::new();
    assert_eq!(
        lake.write(&catalog(), &s("z"), &s("t"), &batch(vec![vec![1]]), SaveMode::Append, 1),
        Err(JobError::UnknownStore { store: s("z") })
    );
    assert_eq!(lake.versions(&s("z"), &s("t")), 0);
}

#[test]
fn refused_write_leaves_no_table_behind() {
    let mut lake = Lakehouse::new();
    let c = catalog();
    let mixed = vec![
        RecordBatch { columns: vec![s("x")], rows: vec![vec![1]] },
        RecordBatch { columns: vec![s("y")], rows: vec![vec![2]] },
    ];
    assert_eq!(lake.write(&c, &s("a"), &s("t"), &mixed, SaveMode::Append, 1), Err(JobError::SchemaMismatch));
    assert_eq!(lake.open(&c, &s("a"), &s("t"), VersionSelector::Latest), Err(JobError::TableNotFound));
    lake.write(&c, &s("a"), &s("t"), &batch(vec![vec![1]]), SaveMode::ErrorIfExists, 1).unwrap();
    assert_eq!(
        lake.write(&c, &s("a"), &s("t"), &batch(vec![vec![2]]), SaveMode::ErrorIfExists, 2),
        Err(JobError::SinkAlreadyExists)
    );
    assert_eq!(lake.write(&c, &s("a"), &s("t"), &batch(vec![vec![2]]), SaveMode::Ignore, 2), Ok(()));
    assert_eq!(lake.versions(&s("a"), &s("t")), 1);
    assert_eq!(lake.rows(&s("a"), &s("t"), TableHandle { version: 0 }), vec![vec![1]]);
}
