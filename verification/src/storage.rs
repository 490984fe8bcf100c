//! Storage: holds actual row data, keyed by table name. Knows nothing
//! about SQL, only a `Vec<Row>` per table. Schema lives in
//! [`Catalog`](crate::catalog::Catalog), which is schema-only; this
//! module is the other half.

use vstd::prelude::*;

use crate::entries::{
    distinct_names, entries_map, find_entry, lemma_entries_map, lemma_entries_map_push,
    lemma_entries_map_update,
};
use crate::types::{rows_view, Row, RowV};

verus! {

/// All ways interacting with row storage can fail. In normal operation
/// this is unreachable: the analyser validates table existence against
/// the catalog before the executor touches storage.
#[derive(Debug, PartialEq, Clone)]
pub enum StorageError<S = String> {
    MissingTable { name: S },
}

pub type StorageErrorV = StorageError<Seq<char>>;

impl View for StorageError {
    type V = StorageErrorV;

    open spec fn view(&self) -> StorageErrorV {
        match self {
            StorageError::MissingTable { name } => StorageError::MissingTable { name: name@ },
        }
    }
}

/// The view of a storage: each table name with its rows, in order.
pub type StorageV = Map<Seq<char>, Seq<RowV>>;

pub open spec fn table_rows_view(rows: Vec<Row>) -> Seq<RowV> {
    rows_view(rows@)
}

/// In-memory row storage, one `Vec<Row>` per table.
pub struct Storage {
    tables: Vec<(String, Vec<Row>)>,
}

impl View for Storage {
    type V = StorageV;

    closed spec fn view(&self) -> StorageV {
        entries_map(self.tables@, |rows: Vec<Row>| table_rows_view(rows))
    }
}

impl Default for Storage {
    fn default() -> (r: Self)
        ensures
            r.wf(),
            r@ == Map::<Seq<char>, Seq<RowV>>::empty(),
    {
        Storage::new()
    }
}

/// The error for a table that storage does not hold.
pub fn missing_table(name: &str) -> (e: StorageError)
    ensures
        e@ == (StorageError::<Seq<char>>::MissingTable { name: name@ }),
{
    StorageError::MissingTable { name: name.to_owned() }
}

impl Storage {
    /// No table name occurs twice.
    pub closed spec fn wf(&self) -> bool {
        distinct_names(self.tables@)
    }

    pub fn new() -> (r: Self)
        ensures
            r.wf(),
            r@ == Map::<Seq<char>, Seq<RowV>>::empty(),
    {
        let r = Storage { tables: Vec::new() };
        assert(r@ =~= Map::<Seq<char>, Seq<RowV>>::empty());
        r
    }

    /// Registers an empty row set for a new table. An already registered
    /// table's rows are left untouched rather than cleared.
    pub fn create_table(&mut self, name: &str)
        requires
            old(self).wf(),
        ensures
            final(self).wf(),
            final(self)@ == (if old(self)@.contains_key(name@) {
                old(self)@
            } else {
                old(self)@.insert(name@, Seq::<RowV>::empty())
            }),
    {
        let ghost f = |rows: Vec<Row>| table_rows_view(rows);
        proof {
            lemma_entries_map(self.tables@, f);
        }
        if find_entry(&self.tables, name).is_none() {
            let entry = (name.to_owned(), Vec::new());
            proof {
                lemma_entries_map_push(self.tables@, f, entry);
                assert(rows_view(entry.1@) =~= Seq::<RowV>::empty());
            }
            self.tables.push(entry);
        }
    }

    /// Appends `row` to `table`.
    pub fn insert(&mut self, table: &str, row: Row) -> (r: Result<(), StorageError>)
        requires
            old(self).wf(),
        ensures
            final(self).wf(),
            match r {
                Ok(()) => old(self)@.contains_key(table@) && final(self)@ == old(self)@.insert(
                    table@,
                    old(self)@[table@].push(row@),
                ),
                Err(e) => !old(self)@.contains_key(table@) && final(self)@ == old(self)@ && e@
                    == (StorageError::<Seq<char>>::MissingTable { name: table@ }),
            },
    {
        let ghost f = |rows: Vec<Row>| table_rows_view(rows);
        proof {
            lemma_entries_map(self.tables@, f);
        }
        match find_entry(&self.tables, table) {
            Some(i) => {
                let mut entry = (String::new(), Vec::new());
                let ghost blank = entry;
                std::mem::swap(&mut entry, &mut self.tables[i]);
                assert(entry == old(self).tables@[i as int]);
                assert(self.tables@ == old(self).tables@.update(i as int, blank));
                let ghost old_rows = entry.1@;
                entry.1.push(row);
                proof {
                    assert(rows_view(entry.1@) =~= rows_view(old_rows).push(row@));
                    lemma_entries_map_update(old(self).tables@, f, i as int, entry);
                    assert(old(self)@[table@] == rows_view(old_rows));
                    assert(f(entry.1) == rows_view(entry.1@));
                }
                self.tables.set(i, entry);
                assert(self.tables@ =~= old(self).tables@.update(i as int, entry));
                Ok(())
            },
            None => Err(missing_table(table)),
        }
    }

    /// The rows of `table`, in insertion order.
    pub fn rows(&self, table: &str) -> (r: Result<&[Row], StorageError>)
        requires
            self.wf(),
        ensures
            match r {
                Ok(rows) => self@.contains_key(table@) && rows_view(rows@) == self@[table@],
                Err(e) => !self@.contains_key(table@) && e@
                    == (StorageError::<Seq<char>>::MissingTable { name: table@ }),
            },
    {
        proof {
            lemma_entries_map(self.tables@, |rows: Vec<Row>| table_rows_view(rows));
        }
        match find_entry(&self.tables, table) {
            Some(i) => Ok(self.tables[i].1.as_slice()),
            None => Err(missing_table(table)),
        }
    }

    /// Mutable access to the rows of `table`: what is written through the
    /// reference becomes the table's rows.
    pub fn rows_mut(&mut self, table: &str) -> (r: Result<&mut Vec<Row>, StorageError>)
        requires
            old(self).wf(),
        ensures
            match r {
                Ok(rows) => old(self)@.contains_key(table@) && rows_view(rows@) == old(self)@[table@]
                    && final(self).wf() && final(self)@ == old(self)@.insert(
                    table@,
                    rows_view(final(rows)@),
                ),
                Err(e) => !old(self)@.contains_key(table@) && final(self)@ == old(self)@
                    && final(self).wf() && e@ == (StorageError::<Seq<char>>::MissingTable {
                    name: table@,
                }),
            },
    {
        let ghost f = |rows: Vec<Row>| table_rows_view(rows);
        proof {
            lemma_entries_map(self.tables@, f);
        }
        match find_entry(&self.tables, table) {
            Some(i) => {
                let entry = &mut self.tables[i];
                let rows = &mut entry.1;
                proof {
                    let e = (old(self).tables@[i as int].0, *final(rows));
                    lemma_entries_map_update(old(self).tables@, f, i as int, e);
                }
                Ok(rows)
            },
            None => Err(missing_table(table)),
        }
    }

    /// Replaces the rows of `table` with `rows`.
    pub fn replace_rows(&mut self, table: &str, rows: Vec<Row>) -> (r: Result<(), StorageError>)
        requires
            old(self).wf(),
        ensures
            final(self).wf(),
            match r {
                Ok(()) => old(self)@.contains_key(table@) && final(self)@ == old(self)@.insert(
                    table@,
                    rows_view(rows@),
                ),
                Err(e) => !old(self)@.contains_key(table@) && final(self)@ == old(self)@ && e@
                    == (StorageError::<Seq<char>>::MissingTable { name: table@ }),
            },
    {
        let ghost f = |rows: Vec<Row>| table_rows_view(rows);
        proof {
            lemma_entries_map(self.tables@, f);
        }
        match find_entry(&self.tables, table) {
            Some(i) => {
                let entry = (table.to_owned(), rows);
                proof {
                    lemma_entries_map_update(self.tables@, f, i as int, entry);
                }
                self.tables.set(i, entry);
                Ok(())
            },
            None => Err(missing_table(table)),
        }
    }
}

} // verus!
