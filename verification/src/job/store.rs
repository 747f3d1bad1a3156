//! Named stores and how they are resolved.

use vstd::prelude::*;
use crate::job::model::JobError;

verus! {

/// The physical location behind a store's name.
#[derive(Debug, Clone, PartialEq, Eq)]
pub struct StoreDescriptor {
    /// A URI-like string.
    pub path: String,
    /// Backend-specific options, each a key and its value.
    pub storage_options: Option<Vec<(String, String)>>,
}

/// One configured store.
#[derive(Debug, Clone, PartialEq, Eq)]
pub struct StoreEntry {
    pub name: String,
    pub descriptor: StoreDescriptor,
}

/// The configured stores. Where a name is configured twice, the first
/// entry counts.
#[derive(Debug, Clone, PartialEq, Eq)]
pub struct StoreCatalog {
    pub stores: Vec<StoreEntry>,
}

/// The first position in `stores` whose entry is named `name`, searching
/// from `from`; `None` where no such entry is left.
pub open spec fn first_named(stores: Seq<StoreEntry>, name: Seq<char>, from: int) -> Option<int>
    decreases stores.len() - from,
{
    if from < 0 || from >= stores.len() {
        None
    } else if stores[from].name@ == name {
        Some(from)
    } else {
        first_named(stores, name, from + 1)
    }
}

/// `first_named` gives a position at or after `from` that carries the
/// name, and no earlier one does; it gives `None` only where none does.
pub proof fn lemma_first_named(stores: Seq<StoreEntry>, name: Seq<char>, from: int)
    requires
        0 <= from <= stores.len(),
    ensures
        match first_named(stores, name, from) {
            Some(i) => {
                &&& from <= i < stores.len()
                &&& stores[i].name@ == name
                &&& forall|k: int| from <= k < i ==> stores[k].name@ != name
            },
            None => forall|k: int| from <= k < stores.len() ==> stores[k].name@ != name,
        },
    decreases stores.len() - from,
{
    if from < stores.len() && stores[from].name@ != name {
        lemma_first_named(stores, name, from + 1);
    }
}

impl StoreCatalog {
    /// Where the store called `name` stands in the catalog.
    pub open spec fn position(self, name: Seq<char>) -> Option<int> {
        first_named(self.stores@, name, 0)
    }

    /// Whether a store called `name` is configured.
    pub open spec fn knows(self, name: Seq<char>) -> bool {
        self.position(name) is Some
    }

    /// Where the store called `name` stands in the catalog.
    pub fn find(&self, name: &String) -> (found: Option<usize>)
        ensures
            match found {
                Some(i) => i < self.stores@.len() && self.position(name@) == Some(i as int),
                None => self.position(name@) is None,
            },
    {
        let mut i: usize = 0;
        while i < self.stores.len()
            invariant
                i <= self.stores.len(),
                first_named(self.stores@, name@, 0) == first_named(self.stores@, name@, i as int),
            decreases self.stores.len() - i,
        {
            if self.stores[i].name == *name {
                return Some(i);
            }
            i += 1;
        }
        None
    }

    /// Maps a store's name to its descriptor. Fails with `UnknownStore`,
    /// carrying the name, exactly where the name is not configured.
    pub fn resolve(&self, name: &String) -> (found: Result<&StoreDescriptor, JobError>)
        ensures
            match self.position(name@) {
                Some(i) => found == Ok::<&StoreDescriptor, JobError>(&self.stores@[i].descriptor),
                None => found == Err::<&StoreDescriptor, JobError>(
                    JobError::UnknownStore { store: *name },
                ),
            },
    {
        proof {
            lemma_first_named(self.stores@, name@, 0);
        }
        match self.find(name) {
            Some(i) => Ok(&self.stores[i].descriptor),
            None => Err(JobError::UnknownStore { store: name.clone() }),
        }
    }
}

/// The type of `url`'s parse errors.
#[verifier::external_type_specification]
#[verifier::external_body]
pub struct ExParseError(url::ParseError);

/// The serialization of the absolute URL that `url::Url::parse` reads from
/// `input`; `None` where it rejects `input`.
pub uninterp spec fn parsed_url(input: Seq<char>) -> Option<Seq<char>>;

/// Calls `url::Url::parse` on `input` and hands back the URL's
/// serialization (`String::from(url)`), or the crate's error. The parser
/// reads nothing but `input`, so the outcome is `parsed_url(input)`.
#[verifier::external_body]
pub(crate) fn parse_url(input: &str) -> (parsed: Result<String, url::ParseError>)
    ensures
        match parsed {
            Ok(text) => parsed_url(input@) == Some(text@),
            Err(_) => parsed_url(input@) is None,
        },
{
    url::Url::parse(input).map(String::from)
}

/// Turns the outcome of parsing a store's path into the store's location:
/// the URL's text, or `StoreUnreachable` where the path is no absolute URL.
pub fn checked_location(parsed: Result<String, url::ParseError>) -> (location: Result<
    String,
    JobError,
>)
    ensures
        match parsed {
            Ok(text) => location == Ok::<String, JobError>(text),
            Err(_) => location == Err::<String, JobError>(JobError::StoreUnreachable),
        },
{
    match parsed {
        Ok(text) => Ok(text),
        Err(_) => Err(JobError::StoreUnreachable),
    }
}

impl StoreDescriptor {
    /// The store's path read as an absolute URL, in normalized form. Fails
    /// with `StoreUnreachable` exactly where the path is no absolute URL.
    pub fn location(&self) -> (location: Result<String, JobError>)
        ensures
            match parsed_url(self.path@) {
                Some(text) => location matches Ok(url) && url@ == text,
                None => location == Err::<String, JobError>(JobError::StoreUnreachable),
            },
    {
        checked_location(parse_url(self.path.as_str()))
    }
}

} // verus!
