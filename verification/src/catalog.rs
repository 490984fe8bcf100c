//! Catalog: table schemas, keyed by table name. Holds no row data (see
//! [`crate::storage`] for that).

use vstd::prelude::*;

use crate::entries::{
    distinct_names, entries_map, find_entry, lemma_entries_map, lemma_entries_map_push,
    lemma_entries_map_update,
};
use crate::types::DataType;

verus! {

/// A column of a registered table.
#[derive(Debug, Clone, PartialEq)]
pub struct ColumnDef<S = String> {
    pub name: S,
    pub ty: DataType,
    pub nullable: bool,
}

pub type ColumnDefV = ColumnDef<Seq<char>>;

impl View for ColumnDef {
    type V = ColumnDefV;

    open spec fn view(&self) -> ColumnDefV {
        ColumnDef { name: self.name@, ty: self.ty, nullable: self.nullable }
    }
}

/// The view of a schema: its columns, in order.
pub type SchemaV = Seq<ColumnDefV>;

/// A table's columns, in order.
#[derive(Debug, Clone)]
pub struct TableSchema {
    pub columns: Vec<ColumnDef>,
}

pub open spec fn column_defs_view(s: Seq<ColumnDef>) -> SchemaV {
    s.map_values(|c: ColumnDef| c@)
}

impl View for TableSchema {
    type V = SchemaV;

    open spec fn view(&self) -> SchemaV {
        column_defs_view(self.columns@)
    }
}

impl Default for TableSchema {
    fn default() -> (r: Self)
        ensures
            r@ == Seq::<ColumnDefV>::empty(),
    {
        TableSchema { columns: Vec::new() }
    }
}

/// The view of a catalog: each registered table name with its schema.
pub type CatalogV = Map<Seq<char>, SchemaV>;

pub open spec fn schema_view_of(t: TableSchema) -> SchemaV {
    t@
}

/// The registered tables and their schemas.
pub struct Catalog {
    tables: Vec<(String, TableSchema)>,
}

impl View for Catalog {
    type V = CatalogV;

    closed spec fn view(&self) -> CatalogV {
        entries_map(self.tables@, |t: TableSchema| schema_view_of(t))
    }
}

impl Default for Catalog {
    fn default() -> (r: Self)
        ensures
            r.wf(),
            r@ == Map::<Seq<char>, SchemaV>::empty(),
    {
        Catalog::new()
    }
}

impl Catalog {
    /// No table name is registered twice.
    pub closed spec fn wf(&self) -> bool {
        distinct_names(self.tables@)
    }

    /// Every registered schema has at most `usize::MAX` columns.
    pub proof fn lemma_schema_sizes(&self)
        requires
            self.wf(),
        ensures
            forall|t: Seq<char>| #[trigger] self@.contains_key(t) ==> self@[t].len() <= usize::MAX,
    {
        lemma_entries_map(self.tables@, |t: TableSchema| schema_view_of(t));
        assert forall|t: Seq<char>| #[trigger] self@.contains_key(t) implies self@[t].len()
            <= usize::MAX by {
            let i = choose|i: int| 0 <= i < self.tables@.len() && self.tables@[i].0@ == t;
            let cols = self.tables@[i].1.columns;
            assert(cols.len() == cols@.len());
        }
    }

    pub fn new() -> (r: Self)
        ensures
            r.wf(),
            r@ == Map::<Seq<char>, SchemaV>::empty(),
    {
        let r = Catalog { tables: Vec::new() };
        assert(r@ =~= Map::<Seq<char>, SchemaV>::empty());
        r
    }

    /// Registers `schema` under `name`, replacing any schema already
    /// registered under that name.
    pub fn register_table(&mut self, name: &str, schema: TableSchema)
        requires
            old(self).wf(),
        ensures
            final(self).wf(),
            final(self)@ == old(self)@.insert(name@, schema@),
    {
        let ghost f = |t: TableSchema| schema_view_of(t);
        let key = name.to_owned();
        match find_entry(&self.tables, name) {
            Some(i) => {
                proof {
                    lemma_entries_map_update(self.tables@, f, i as int, (key, schema));
                }
                self.tables.set(i, (key, schema));
            },
            None => {
                proof {
                    lemma_entries_map_push(self.tables@, f, (key, schema));
                }
                self.tables.push((key, schema));
            },
        }
    }

    pub fn has_table(&self, name: &str) -> (r: bool)
        requires
            self.wf(),
        ensures
            r == self@.contains_key(name@),
    {
        proof {
            lemma_entries_map(self.tables@, |t: TableSchema| schema_view_of(t));
        }
        find_entry(&self.tables, name).is_some()
    }

    pub fn schema(&self, name: &str) -> (r: Option<&TableSchema>)
        requires
            self.wf(),
        ensures
            match r {
                Some(s) => self@.contains_key(name@) && s@ == self@[name@],
                None => !self@.contains_key(name@),
            },
    {
        proof {
            lemma_entries_map(self.tables@, |t: TableSchema| schema_view_of(t));
        }
        match find_entry(&self.tables, name) {
            Some(i) => Some(&self.tables[i].1),
            None => None,
        }
    }
}

/// The catalog view that [`Catalog::new`] followed by
/// [`Catalog::register_table`] calls with `regs` (each a name and the
/// view of its schema), in order, leaves: `new` gives the empty map and
/// each call inserts its name and schema.
pub open spec fn registered(regs: Seq<(Seq<char>, SchemaV)>) -> CatalogV
    decreases regs.len(),
{
    if regs.len() == 0 {
        Map::empty()
    } else {
        registered(regs.drop_last()).insert(regs.last().0, regs.last().1)
    }
}

/// The index of the last registration under `name` in `regs`, or -1
/// when there is none.
pub open spec fn last_registration(regs: Seq<(Seq<char>, SchemaV)>, name: Seq<char>) -> int
    decreases regs.len(),
{
    if regs.len() == 0 {
        -1
    } else if regs.last().0 == name {
        regs.len() - 1
    } else {
        last_registration(regs.drop_last(), name)
    }
}

/// After a sequence of registrations, a name has a schema exactly when
/// some call registered it, and the schema is the one the last such call
/// gave: no later call used the name, and a later registration under a
/// name replaces an earlier one.
pub proof fn law_last_registration_wins(regs: Seq<(Seq<char>, SchemaV)>, name: Seq<char>)
    ensures
        -1 <= last_registration(regs, name) < regs.len(),
        registered(regs).contains_key(name) <==> last_registration(regs, name) >= 0,
        last_registration(regs, name) >= 0 ==> regs[last_registration(regs, name)].0 == name
            && registered(regs)[name] == regs[last_registration(regs, name)].1,
        forall|j: int| last_registration(regs, name) < j < regs.len() ==> #[trigger] regs[j].0 != name,
    decreases regs.len(),
{
    if regs.len() > 0 {
        let init = regs.drop_last();
        law_last_registration_wins(init, name);
        if regs.last().0 != name {
            assert forall|j: int| last_registration(regs, name) < j < regs.len() implies #[trigger] regs[j].0
                != name by {
                if j < init.len() {
                    assert(init[j] == regs[j]);
                }
            }
            if last_registration(regs, name) >= 0 {
                assert(init[last_registration(regs, name)] == regs[last_registration(regs, name)]);
            }
        }
    }
}

} // verus!
