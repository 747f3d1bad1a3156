use yummy::job::model::JobError;
use yummy::job::store::{checked_location, StoreCatalog, StoreDescriptor, StoreEntry};

fn entry(name: &str, path: &str) -> StoreEntry {
    StoreEntry {
        name: name.to_string(),
        descriptor: StoreDescriptor {
            path: path.to_string(),
            storage_options: Some(vec![("account".to_string(), name.to_string())]),
        },
    }
}

#[test]
fn resolve_finds_the_first_entry_of_a_name() {
    let catalog = StoreCatalog {
        stores: vec![entry("a", "s3://one"), entry("b", "s3://two"), entry("a", "s3://three")],
    };
    assert_eq!(catalog.find(&"a".to_string()), Some(0));
    assert_eq!(catalog.find(&"b".to_string()), Some(1));
    assert_eq!(catalog.resolve(&"a".to_string()).unwrap().path, "s3://one");
    assert_eq!(
        catalog.resolve(&"b".to_string()).unwrap().storage_options,
        Some(vec![("account".to_string(), "b".to_string())])
    );
}

#[test]
fn resolve_fails_on_a_name_that_is_not_configured() {
    let catalog = StoreCatalog { stores: vec![entry("a", "s3://one")] };
    assert_eq!(catalog.find(&"c".to_string()), None);
    assert_eq!(
        catalog.resolve(&"c".to_string()),
        Err(JobError::UnknownStore { store: "c".to_string() })
    );
    let empty = StoreCatalog { stores: vec![] };
    assert_eq!(
        empty.resolve(&"a".to_string()),
        Err(JobError::UnknownStore { store: "a".to_string() })
    );
}

#[test]
fn location_is_the_parsed_url() {
    let d = entry("a", "S3://Bucket/a b").descriptor;
    assert_eq!(d.location(), Ok("s3://Bucket/a%20b".to_string()));
    let d = entry("a", "https://EXAMPLE.org").descriptor;
    assert_eq!(d.location(), Ok("https://example.org/".to_string()));
}

#[test]
fn location_fails_on_a_relative_path() {
    let d = entry("a", "data/lake").descriptor;
    assert_eq!(d.location(), Err(JobError::StoreUnreachable));
    let d = entry("a", "").descriptor;
    assert_eq!(d.location(), Err(JobError::StoreUnreachable));
}

#[test]
fn checked_location_maps_the_parse_error() {
    assert_eq!(
        checked_location(Err(url::ParseError::RelativeUrlWithoutBase)),
        Err(JobError::StoreUnreachable)
    );
    assert_eq!(checked_location(Ok("x:/y".to_string())), Ok("x:/y".to_string()));
}
