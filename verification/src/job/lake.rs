//! The versioned-table gateway and the sink writer, over tables held in
//! memory: tables are addressed by the name of their store and their own
//! name, and a store's name is resolved before anything is opened or
//! written.

use vstd::prelude::*;
use crate::job::model::{JobError, SaveMode};
use crate::job::store::StoreCatalog;
use crate::job::table::{
    batch_views, rows_of, RecordBatch, TableHandle, TableView, VersionSelector, VersionedTable,
};

verus! {

/// One table and where it stands.
struct StoredTable {
    store: String,
    name: String,
    table: VersionedTable,
}

/// Tables in memory, each in a store and under a name.
pub struct Lakehouse {
    tables: Vec<StoredTable>,
}

/// A table that does not exist.
pub open spec fn absent() -> TableView {
    TableView { columns: Seq::empty(), log: Seq::empty() }
}

/// The first position from `from` on whose table stands at `store` under
/// `name`.
spec fn first_stored(tables: Seq<StoredTable>, store: Seq<char>, name: Seq<char>, from: int) -> Option<int>
    decreases tables.len() - from,
{
    if from < 0 || from >= tables.len() {
        None
    } else if tables[from].store@ == store && tables[from].name@ == name {
        Some(from)
    } else {
        first_stored(tables, store, name, from + 1)
    }
}

proof fn lemma_first_stored(tables: Seq<StoredTable>, store: Seq<char>, name: Seq<char>, from: int)
    requires
        0 <= from <= tables.len(),
    ensures
        match first_stored(tables, store, name, from) {
            Some(i) => {
                &&& from <= i < tables.len()
                &&& tables[i].store@ == store
                &&& tables[i].name@ == name
                &&& forall|k: int|
                    from <= k < i ==> !(tables[k].store@ == store && tables[k].name@ == name)
            },
            None => forall|k: int|
                from <= k < tables.len() ==> !(tables[k].store@ == store && tables[k].name@
                    == name),
        },
    decreases tables.len() - from,
{
    if from < tables.len() && !(tables[from].store@ == store && tables[from].name@ == name) {
        lemma_first_stored(tables, store, name, from + 1);
    }
}

/// The table that stands at `store` under `name` among `tables`.
spec fn stored_at(tables: Seq<StoredTable>, store: Seq<char>, name: Seq<char>) -> TableView {
    match first_stored(tables, store, name, 0) {
        Some(i) => tables[i].table@,
        None => absent(),
    }
}

/// Two lists that agree on where each table stands, and on every table
/// but the one at `at`, hold the same table at every other place.
proof fn lemma_stored_elsewhere(before: Seq<StoredTable>, after: Seq<StoredTable>, at: int, store: Seq<char>, name: Seq<char>, from: int)
    requires
        0 <= from <= before.len(),
        0 <= at < before.len(),
        after.len() == before.len(),
        forall|k: int|
            0 <= k < before.len() ==> after[k].store@ == before[k].store@ && after[k].name@
                == before[k].name@,
        forall|k: int| 0 <= k < before.len() && k != at ==> after[k].table@ == before[k].table@,
    ensures
        first_stored(after, store, name, from) == first_stored(before, store, name, from),
    decreases before.len() - from,
{
    if from < before.len() && !(before[from].store@ == store && before[from].name@ == name) {
        lemma_stored_elsewhere(before, after, at, store, name, from + 1);
    }
}

/// A list with one more table at its end holds what it held before at
/// every place that was taken or is another one.
proof fn lemma_stored_pushed(before: Seq<StoredTable>, entry: StoredTable, store: Seq<char>, name: Seq<char>, from: int)
    requires
        0 <= from <= before.len(),
    ensures
        first_stored(before.push(entry), store, name, from) == match first_stored(
            before,
            store,
            name,
            from,
        ) {
            Some(i) => Some(i),
            None => if entry.store@ == store && entry.name@ == name {
                Some(before.len() as int)
            } else {
                None
            },
        },
    decreases before.len() - from,
{
    let after = before.push(entry);
    if from < before.len() {
        assert(after[from] == before[from]);
        if !(before[from].store@ == store && before[from].name@ == name) {
            lemma_stored_pushed(before, entry, store, name, from + 1);
        }
    } else {
        assert(after[from] == entry);
        assert(first_stored(after, store, name, from + 1) is None);
    }
}

impl Lakehouse {
    /// The table that stands in the store called `store` under `name`;
    /// [`absent`] where none does.
    pub closed spec fn table_at(self, store: Seq<char>, name: Seq<char>) -> TableView {
        stored_at(self.tables@, store, name)
    }

    /// What opening `name` of `store` at `selector` gives, with the stores
    /// of `catalog` configured: the version, or `UnknownStore`,
    /// `TableNotFound` or `VersionNotFound`.
    pub open spec fn opened(self, catalog: StoreCatalog, store: String, name: Seq<char>, selector: VersionSelector) -> Result<
        int,
        JobError,
    > {
        if !catalog.knows(store@) {
            Err(JobError::UnknownStore { store })
        } else {
            self.table_at(store@, name).resolved(selector)
        }
    }

    /// A lakehouse that holds no table yet.
    pub fn new() -> (lake: Lakehouse)
        ensures
            forall|store: Seq<char>, name: Seq<char>| #[trigger] lake.table_at(store, name) == absent(),
    {
        Lakehouse { tables: Vec::new() }
    }

    /// Where the table of `store` called `name` is held.
    fn find(&self, store: &String, name: &String) -> (found: Option<usize>)
        ensures
            match found {
                Some(i) => i < self.tables@.len() && first_stored(self.tables@, store@, name@, 0)
                    == Some(i as int),
                None => first_stored(self.tables@, store@, name@, 0) is None,
            },
    {
        let mut i: usize = 0;
        while i < self.tables.len()
            invariant
                i <= self.tables.len(),
                first_stored(self.tables@, store@, name@, 0) == first_stored(
                    self.tables@,
                    store@,
                    name@,
                    i as int,
                ),
            decreases self.tables.len() - i,
        {
            if self.tables[i].store == *store && self.tables[i].name == *name {
                return Some(i);
            }
            i += 1;
        }
        None
    }

    /// The gateway: opens the table `table_name` of the store
    /// `store_name` at the version that `selector` picks. The store's
    /// name is resolved against `catalog` first. Fails with
    /// `UnknownStore` where the store is not configured, with
    /// `TableNotFound` where the store has no such table, and with
    /// `VersionNotFound` where the table has no such version.
    pub fn open(&self, catalog: &StoreCatalog, store_name: &String, table_name: &String, selector: VersionSelector) -> (opened: Result<
        TableHandle,
        JobError,
    >)
        ensures
            match self.opened(*catalog, *store_name, table_name@, selector) {
                Ok(v) => opened matches Ok(handle) && handle.version == v,
                Err(e) => opened == Err::<TableHandle, JobError>(e),
            },
    {
        if catalog.find(store_name).is_none() {
            return Err(JobError::UnknownStore { store: store_name.clone() });
        }
        match self.find(store_name, table_name) {
            Some(i) => self.tables[i].table.open(selector),
            None => Err(JobError::TableNotFound),
        }
    }

    /// The rows of `table_name` of `store_name` as of the version that
    /// `handle` stands at; no row where there is no such table or version.
    pub fn rows(&self, store_name: &String, table_name: &String, handle: TableHandle) -> (rows: Vec<
        Vec<i64>,
    >)
        ensures
            rows_of(rows@) == self.table_at(store_name@, table_name@).snapshot(
                handle.version as int,
            ),
    {
        match self.find(store_name, table_name) {
            Some(i) => self.tables[i].table.rows(handle),
            None => {
                let rows: Vec<Vec<i64>> = Vec::new();
                assert(rows_of(rows@) =~= absent().snapshot(handle.version as int));
                rows
            },
        }
    }

    /// How many versions `table_name` of `store_name` has; 0 where there
    /// is no such table.
    pub fn versions(&self, store_name: &String, table_name: &String) -> (count: usize)
        ensures
            count == self.table_at(store_name@, table_name@).log.len(),
    {
        match self.find(store_name, table_name) {
            Some(i) => self.tables[i].table.versions(),
            None => 0,
        }
    }

    /// The sink writer: writes `batches` to the table `table_name` of the
    /// store `store_name` under `mode`, at time `now`. The store is
    /// resolved against `catalog` first and on its own; an unknown one
    /// fails with `UnknownStore`. What the write makes of the table, and
    /// when it is refused, is [`TableView::written`]. No other table
    /// changes, and a write that fails changes none.
    pub fn write(&mut self, catalog: &StoreCatalog, store_name: &String, table_name: &String, batches: &Vec<RecordBatch>, mode: SaveMode, now: u64) -> (done: Result<
        (),
        JobError,
    >)
        ensures
            forall|store: Seq<char>, name: Seq<char>|
                !(store == store_name@ && name == table_name@) ==> #[trigger] final(self).table_at(
                    store,
                    name,
                ) == old(self).table_at(store, name),
            if !catalog.knows(store_name@) {
                &&& done == Err::<(), JobError>(JobError::UnknownStore { store: *store_name })
                &&& final(self).table_at(store_name@, table_name@) == old(self).table_at(
                    store_name@,
                    table_name@,
                )
            } else {
                match old(self).table_at(store_name@, table_name@).written(
                    batch_views(batches@),
                    mode,
                    now,
                ) {
                    Ok(table) => done is Ok && final(self).table_at(store_name@, table_name@)
                        == table,
                    Err(e) => done == Err::<(), JobError>(e) && final(self).table_at(
                        store_name@,
                        table_name@,
                    ) == old(self).table_at(store_name@, table_name@),
                }
            },
    {
        if catalog.find(store_name).is_none() {
            return Err(JobError::UnknownStore { store: store_name.clone() });
        }
        let ghost before = self.tables@;
        proof {
            lemma_first_stored(before, store_name@, table_name@, 0);
        }
        match self.find(store_name, table_name) {
            Some(i) => {
                let mut entry = self.tables.remove(i);
                let ghost old_entry = entry;
                let done = entry.table.write(batches, mode, now);
                let ghost new_entry = entry;
                self.tables.insert(i, entry);
                proof {
                    let after = self.tables@;
                    assert(after =~= before.update(i as int, new_entry));
                    assert(before[i as int] == old_entry);
                    assert forall|store: Seq<char>, name: Seq<char>|
                        first_stored(after, store, name, 0) == first_stored(
                            before,
                            store,
                            name,
                            0,
                        ) by {
                        lemma_stored_elsewhere(before, after, i as int, store, name, 0);
                    }
                    assert forall|store: Seq<char>, name: Seq<char>|
                        !(store == store_name@ && name == table_name@) implies stored_at(
                        after,
                        store,
                        name,
                    ) == stored_at(before, store, name) by {
                        lemma_first_stored(before, store, name, 0);
                    }
                }
                done
            },
            None => {
                let mut table = VersionedTable::new();
                assert(table@ == absent()) by {
                    assert(table@.log =~= Seq::empty());
                    assert(table@.columns =~= Seq::empty());
                }
                let done = table.write(batches, mode, now);
                if done.is_ok() {
                    let entry = StoredTable {
                        store: store_name.clone(),
                        name: table_name.clone(),
                        table,
                    };
                    self.tables.push(entry);
                    proof {
                        assert forall|store: Seq<char>, name: Seq<char>|
                            !(store == store_name@ && name == table_name@) implies stored_at(
                            self.tables@,
                            store,
                            name,
                        ) == stored_at(before, store, name) by {
                            lemma_stored_pushed(before, entry, store, name, 0);
                            lemma_first_stored(before, store, name, 0);
                            if first_stored(before, store, name, 0) is Some {
                                let k = first_stored(before, store, name, 0)->Some_0;
                                assert(self.tables@[k] == before[k]);
                            }
                        }
                        lemma_stored_pushed(before, entry, store_name@, table_name@, 0);
                        assert(self.tables@[before.len() as int] == entry);
                    }
                }
                done
            },
        }
    }
}

} // verus!
