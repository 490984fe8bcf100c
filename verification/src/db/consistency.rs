//! What a database keeps true between statements: the catalog and the
//! storage agree, so every statement the analyser accepts reads only
//! columns its rows have; and what a failed statement leaves behind.

use vstd::prelude::*;

use crate::analyser::bound::{BoundStatementV, BoundColumnV, BoundExprV};
use crate::analyser::spec::{
    try_each, try_map, analyse_spec, assigner, bind_assignment_spec, bind_spec, binder, find_column_from,
    lemma_try_map_ok_elem, lemma_try_map_ok_len, resolve_column_spec, resolver,
};
use crate::catalog::{CatalogV, SchemaV};
use crate::executor::spec::{
    assignment_evaluator, filter_spec, insert_null_checker, not_null_column, update_row_plan,
    apply_changes, apply_plan, columns_within, execute_spec, lemma_update_plan_indices,
    statement_fits, unflagged, update_planner, value_evaluator,
};
use crate::parser::ast::StatementV;
use crate::parser::{Expr, SelectColumns};
use crate::storage::StorageV;
use crate::types::{FloatSemantics, RowV, ValueV};

verus! {

/// The catalog and the storage hold the same tables, and every stored row
/// has one value per column of its table's schema.
pub open spec fn consistent(cat: CatalogV, sto: StorageV) -> bool {
    &&& forall|t: Seq<char>| #[trigger] cat.contains_key(t) <==> sto.contains_key(t)
    &&& forall|t: Seq<char>, i: int|
        sto.contains_key(t) && 0 <= i < sto[t].len() ==> (#[trigger] sto[t][i]).len() == cat[t].len()
}

/// No stored row holds NULL in a column its table declares `NOT NULL`.
pub open spec fn not_null_respected(cat: CatalogV, sto: StorageV) -> bool {
    forall|t: Seq<char>, i: int|
        sto.contains_key(t) && 0 <= i < sto[t].len() ==> row_respects(cat[t], #[trigger] sto[t][i])
}

/// A row holds no NULL in a column `schema` declares `NOT NULL`.
pub open spec fn row_respects(schema: SchemaV, row: RowV) -> bool {
    forall|k: int|
        #![trigger row[k], schema[k]]
        0 <= k < schema.len() && k < row.len() && !schema[k].nullable ==> !(row[k] is Null)
}

/// Every schema's column count fits in a `usize` (true of every catalog).
pub open spec fn schemas_sized(cat: CatalogV) -> bool {
    forall|t: Seq<char>| #[trigger] cat.contains_key(t) ==> cat[t].len() <= usize::MAX
}

proof fn lemma_find_column_range(cols: SchemaV, name: Seq<char>, i: int)
    requires
        0 <= i,
    ensures
        find_column_from(cols, name, i) matches Some(k) ==> i <= k < cols.len(),
    decreases cols.len() - i,
{
    if 0 <= i < cols.len() && cols[i].name != name {
        lemma_find_column_range(cols, name, i + 1);
    }
}

proof fn lemma_resolve_index(cols: SchemaV, table: Seq<char>, name: Seq<char>)
    requires
        cols.len() <= usize::MAX,
        resolve_column_spec(cols, table, name) is Ok,
    ensures
        (resolve_column_spec(cols, table, name)->Ok_0.index as int) < cols.len(),
{
    lemma_find_column_range(cols, name, 0);
}

/// A bound expression reads only columns of its schema, and none at all
/// where columns are not allowed.
pub proof fn lemma_bind_reads_within(cols: SchemaV, table: Seq<char>, allow: bool, e: crate::parser::ast::ExprV)
    requires
        cols.len() <= usize::MAX,
        bind_spec(cols, table, allow, e) is Ok,
    ensures
        columns_within(
            bind_spec(cols, table, allow, e)->Ok_0,
            if allow {
                cols.len()
            } else {
                0nat
            },
        ),
    decreases e,
{
    match e {
        Expr::Column(name) => {
            lemma_resolve_index(cols, table, name);
        },
        Expr::Literal(_) => {},
        Expr::Not(inner) => {
            lemma_bind_reads_within(cols, table, allow, *inner);
        },
        Expr::Neg(inner) => {
            lemma_bind_reads_within(cols, table, allow, *inner);
        },
        Expr::BinaryOp { left, right, .. } => {
            lemma_bind_reads_within(cols, table, allow, *left);
            lemma_bind_reads_within(cols, table, allow, *right);
        },
        Expr::IsNull { expr, .. } => {
            lemma_bind_reads_within(cols, table, allow, *expr);
        },
    }
}

/// A bound `SET` list writes and reads only columns of its schema.
proof fn lemma_assignments_within(cols: SchemaV, table: Seq<char>, s: Seq<(Seq<char>, crate::parser::ast::ExprV)>, k: int)
    requires
        cols.len() <= usize::MAX,
        crate::analyser::spec::try_map(s, assigner(cols, table)) is Ok,
        0 <= k < s.len(),
    ensures
        ({
            let a = crate::analyser::spec::try_map(s, assigner(cols, table))->Ok_0[k];
            &&& (a.0.index as int) < cols.len()
            &&& columns_within(a.1, cols.len())
        }),
{
    lemma_try_map_ok_elem(s, assigner(cols, table), k);
    let a = s[k];
    assert(bind_assignment_spec(cols, table, a) is Ok);
    lemma_resolve_index(cols, table, a.0);
    lemma_bind_reads_within(cols, table, true, a.1);
}

/// Every statement the analyser accepts fits the storage of a consistent
/// database: it reads only columns that every row of its table has.
pub proof fn lemma_analysed_statement_fits(cat: CatalogV, sto: StorageV, s: StatementV)
    requires
        consistent(cat, sto),
        schemas_sized(cat),
        analyse_spec(cat, s) is Ok,
    ensures
        statement_fits(sto, analyse_spec(cat, s)->Ok_0),
{
    match s {
        StatementV::Select(st) => {
            let cols = cat[st.table];
            let b = analyse_spec(cat, s)->Ok_0->Select_0;
            match st.filter {
                Some(e) => {
                    lemma_bind_reads_within(cols, st.table, true, e);
                },
                None => {},
            }
            assert forall|k: int| 0 <= k < b.columns.len() implies (#[trigger] b.columns[k].index
                as int) < cols.len() by {
                match st.columns {
                    SelectColumns::All => {},
                    SelectColumns::List(names) => {
                        lemma_try_map_ok_len(names, resolver(cols, st.table));
                        lemma_try_map_ok_elem(names, resolver(cols, st.table), k);
                        lemma_resolve_index(cols, st.table, names[k]);
                    },
                }
            }
        },
        StatementV::Insert(st) => {
            let cols = cat[st.table];
            let b = analyse_spec(cat, s)->Ok_0->Insert_0;
            let f = binder(cols, st.table, false);
            lemma_try_map_ok_len(st.values, f);
            assert forall|k: int| 0 <= k < b.values.len() implies columns_within(
                #[trigger] b.values[k],
                0nat,
            ) by {
                lemma_try_map_ok_elem(st.values, f, k);
                lemma_bind_reads_within(cols, st.table, false, st.values[k]);
            }
        },
        StatementV::Update(st) => {
            let cols = cat[st.table];
            let b = analyse_spec(cat, s)->Ok_0->Update_0;
            lemma_try_map_ok_len(st.assignments, assigner(cols, st.table));
            match st.filter {
                Some(e) => {
                    lemma_bind_reads_within(cols, st.table, true, e);
                },
                None => {},
            }
            assert forall|k: int| 0 <= k < b.assignments.len() implies (
            #[trigger] b.assignments[k].0.index as int) < cols.len() && columns_within(
                b.assignments[k].1,
                cols.len(),
            ) by {
                lemma_assignments_within(cols, st.table, st.assignments, k);
            }
        },
        StatementV::Delete(st) => {
            match st.filter {
                Some(e) => {
                    lemma_bind_reads_within(cat[st.table], st.table, true, e);
                },
                None => {},
            }
        },
        StatementV::CreateTable(_) => {},
    }
}

/// Writes to columns below a row's length keep the length.
proof fn lemma_apply_changes_len(row: RowV, changes: Seq<(usize, ValueV)>)
    requires
        forall|c: int| 0 <= c < changes.len() ==> (#[trigger] changes[c].0 as int) < row.len(),
    ensures
        apply_changes(row, changes).len() == row.len(),
    decreases changes.len(),
{
    if changes.len() > 0 {
        let rest = changes.drop_last();
        assert forall|c: int| 0 <= c < rest.len() implies (#[trigger] rest[c].0 as int) < row.len() by {
            assert(rest[c] == changes[c]);
        }
        lemma_apply_changes_len(row, rest);
        assert(changes[changes.len() - 1] == changes.last());
    }
}

/// The rows a `DELETE` keeps are rows of the table.
proof fn lemma_unflagged_rows(rows: Seq<RowV>, flags: Seq<bool>)
    requires
        flags.len() == rows.len(),
    ensures
        forall|k: int|
            0 <= k < unflagged(rows, flags).len() ==> exists|j: int|
                0 <= j < rows.len() && #[trigger] unflagged(rows, flags)[k] == rows[j],
    decreases rows.len(),
{
    if rows.len() > 0 {
        let r = rows.drop_last();
        let f = flags.take(rows.len() - 1);
        lemma_unflagged_rows(r, f);
        let rest = unflagged(r, f);
        let u = unflagged(rows, flags);
        assert forall|k: int| 0 <= k < u.len() implies exists|j: int|
            0 <= j < rows.len() && #[trigger] u[k] == rows[j] by {
            if k < rest.len() {
                assert(u[k] == rest[k]);
                let j = choose|j: int| 0 <= j < r.len() && rest[k] == r[j];
                assert(r[j] == rows[j]);
            } else {
                assert(u[k] == rows[rows.len() - 1]);
            }
        }
    }
}

/// The rows a `DELETE` keeps have the length every row of the table has.
proof fn lemma_unflagged_lengths(rows: Seq<RowV>, flags: Seq<bool>, n: nat)
    requires
        flags.len() == rows.len(),
        forall|j: int| 0 <= j < rows.len() ==> (#[trigger] rows[j]).len() == n,
    ensures
        forall|k: int|
            0 <= k < unflagged(rows, flags).len() ==> (#[trigger] unflagged(rows, flags)[k]).len() == n,
{
    lemma_unflagged_rows(rows, flags);
}

/// Running a statement the analyser accepted keeps a consistent database
/// consistent: whatever it writes has one value per column, and `CREATE
/// TABLE` adds a table to both halves.
pub proof fn lemma_execute_keeps_consistent(fl: FloatSemantics, cat: CatalogV, sto: StorageV, s: StatementV)
    requires
        consistent(cat, sto),
        schemas_sized(cat),
        analyse_spec(cat, s) is Ok,
    ensures
        ({
            let out = execute_spec(fl, cat, sto, analyse_spec(cat, s)->Ok_0);
            consistent(out.1, out.2)
        }),
{
    let b = analyse_spec(cat, s)->Ok_0;
    let out = execute_spec(fl, cat, sto, b);
    match s {
        StatementV::Select(_) => {},
        StatementV::Insert(st) => {
            let cols = cat[st.table];
            let bi = b->Insert_0;
            lemma_try_map_ok_len(st.values, binder(cols, st.table, false));
            let vf = value_evaluator(fl, Seq::empty());
            if crate::analyser::spec::try_map(bi.values, vf) is Ok {
                lemma_try_map_ok_len(bi.values, vf);
            }
            let sto2 = out.2;
            assert forall|t: Seq<char>, i: int|
                sto2.contains_key(t) && 0 <= i < sto2[t].len() implies (#[trigger] sto2[t][i]).len()
                == out.1[t].len() by {
                if t == st.table && sto2 != sto {
                    if i < sto[t].len() {
                        assert(sto2[t][i] == sto[t][i]);
                    }
                }
            }
        },
        StatementV::Update(st) => {
            let cols = cat[st.table];
            let bu = b->Update_0;
            lemma_try_map_ok_len(st.assignments, assigner(cols, st.table));
            let rows = sto[st.table];
            let planner = update_planner(fl, cat, bu);
            if crate::analyser::spec::try_map(rows, planner) is Ok {
                let plan = crate::analyser::spec::try_map(rows, planner)->Ok_0;
                lemma_try_map_ok_len(rows, planner);
                let new_rows = apply_plan(rows, plan);
                assert forall|i: int| 0 <= i < new_rows.len() implies (#[trigger] new_rows[i]).len()
                    == cols.len() by {
                    lemma_try_map_ok_elem(rows, planner, i);
                    match plan[i] {
                        Some(changes) => {
                            assert forall|c: int| 0 <= c < changes.len() implies (
                            #[trigger] changes[c].0 as int) < rows[i].len() by {
                                lemma_update_plan_indices(fl, cat, bu, rows[i], changes, c);
                                lemma_assignments_within(cols, st.table, st.assignments, c);
                            }
                            lemma_apply_changes_len(rows[i], changes);
                        },
                        None => {},
                    }
                }
            }
        },
        StatementV::Delete(st) => {
            let rows = sto[st.table];
            let ff = crate::executor::spec::filter_evaluator(fl, b->Delete_0.filter);
            if crate::analyser::spec::try_map(rows, ff) is Ok {
                let flags = crate::analyser::spec::try_map(rows, ff)->Ok_0;
                lemma_try_map_ok_len(rows, ff);
                lemma_unflagged_lengths(rows, flags, cat[st.table].len());
            }
        },
        StatementV::CreateTable(st) => {
            assert(!sto.contains_key(st.table));
        },
    }
}

/// Checks that pass together pass one by one.
proof fn lemma_try_each_ok<E>(n: nat, f: spec_fn(int) -> Result<(), E>, k: int)
    requires
        try_each(n, f) is Ok,
        0 <= k < n,
    ensures
        f(k) is Ok,
    decreases n,
{
    if k < n - 1 {
        lemma_try_each_ok((n - 1) as nat, f, k);
    }
}

/// A planned `SET` write never puts NULL into a `NOT NULL` column.
proof fn lemma_plan_respects_not_null(
    fl: FloatSemantics,
    cat: CatalogV,
    s: crate::analyser::bound::BoundUpdateV,
    row: RowV,
    changes: Seq<(usize, ValueV)>,
    c: int,
)
    requires
        update_row_plan(fl, cat, s, row) == Ok::<Option<Seq<(usize, ValueV)>>, crate::executor::error::ExecErrorV>(
            Some(changes),
        ),
        0 <= c < changes.len(),
    ensures
        !(not_null_column(cat, s.table, changes[c].0 as int) && changes[c].1 is Null),
{
    let f = assignment_evaluator(fl, cat, s.table, row);
    assert(filter_spec(fl, s.filter, row) == Ok::<bool, crate::executor::error::ExecErrorV>(true));
    assert(try_map(s.assignments, f) == Ok::<Seq<(usize, ValueV)>, crate::executor::error::ExecErrorV>(changes));
    lemma_try_map_ok_len(s.assignments, f);
    lemma_try_map_ok_elem(s.assignments, f, c);
}

/// Writes that put no NULL into `NOT NULL` columns keep a row free of
/// such NULLs.
proof fn lemma_apply_changes_respects(schema: SchemaV, row: RowV, changes: Seq<(usize, ValueV)>)
    requires
        row_respects(schema, row),
        forall|c: int|
            0 <= c < changes.len() ==> (#[trigger] changes[c].0 as int) < row.len() && !(0
                <= changes[c].0 < schema.len() && !schema[changes[c].0 as int].nullable
                && changes[c].1 is Null),
    ensures
        row_respects(schema, apply_changes(row, changes)),
        apply_changes(row, changes).len() == row.len(),
    decreases changes.len(),
{
    if changes.len() > 0 {
        let rest = changes.drop_last();
        assert forall|c: int| 0 <= c < rest.len() implies (#[trigger] rest[c].0 as int) < row.len()
            && !(0 <= rest[c].0 < schema.len() && !schema[rest[c].0 as int].nullable
            && rest[c].1 is Null) by {
            assert(rest[c] == changes[c]);
        }
        lemma_apply_changes_respects(schema, row, rest);
        assert(changes[changes.len() - 1] == changes.last());
        let before = apply_changes(row, rest);
        let after = apply_changes(row, changes);
        assert forall|k: int|
            0 <= k < schema.len() && k < after.len() && !schema[k].nullable implies !(
            #[trigger] after[k] is Null) by {
            if k != changes.last().0 as int {
                assert(after[k] == before[k]);
            }
        }
    }
}

/// Running a statement the analyser accepted keeps NOT NULL columns free
/// of NULL: `INSERT` and `UPDATE` check every value they write, `DELETE`
/// only removes rows, and `CREATE TABLE` starts empty.
pub proof fn lemma_execute_keeps_not_null(fl: FloatSemantics, cat: CatalogV, sto: StorageV, s: StatementV)
    requires
        consistent(cat, sto),
        schemas_sized(cat),
        not_null_respected(cat, sto),
        analyse_spec(cat, s) is Ok,
    ensures
        ({
            let out = execute_spec(fl, cat, sto, analyse_spec(cat, s)->Ok_0);
            not_null_respected(out.1, out.2)
        }),
{
    let b = analyse_spec(cat, s)->Ok_0;
    let out = execute_spec(fl, cat, sto, b);
    match s {
        StatementV::Select(_) => {},
        StatementV::Insert(st) => {
            let t = st.table;
            let bi = b->Insert_0;
            let vf = value_evaluator(fl, Seq::empty());
            if try_map(bi.values, vf) is Ok {
                let vals = try_map(bi.values, vf)->Ok_0;
                let checker = insert_null_checker(cat, t, vals);
                if try_each(vals.len(), checker) is Ok && out.2 != sto {
                    assert forall|k: int|
                        0 <= k < cat[t].len() && k < vals.len() && !cat[t][k].nullable implies !(
                        #[trigger] vals[k] is Null) by {
                        lemma_try_each_ok(vals.len(), checker, k);
                    }
                    assert(row_respects(cat[t], vals));
                    let sto2 = out.2;
                    assert forall|t2: Seq<char>, i: int|
                        sto2.contains_key(t2) && 0 <= i < sto2[t2].len() implies row_respects(
                        out.1[t2],
                        #[trigger] sto2[t2][i],
                    ) by {
                        if t2 == t && i < sto[t].len() {
                            assert(sto2[t2][i] == sto[t][i]);
                        }
                    }
                }
            }
        },
        StatementV::Update(st) => {
            let t = st.table;
            let cols = cat[t];
            let bu = b->Update_0;
            lemma_try_map_ok_len(st.assignments, assigner(cols, t));
            let rows = sto[t];
            let planner = update_planner(fl, cat, bu);
            if try_map(rows, planner) is Ok {
                let plan = try_map(rows, planner)->Ok_0;
                lemma_try_map_ok_len(rows, planner);
                let new_rows = apply_plan(rows, plan);
                assert forall|i: int| 0 <= i < new_rows.len() implies row_respects(
                    cols,
                    #[trigger] new_rows[i],
                ) by {
                    lemma_try_map_ok_elem(rows, planner, i);
                    assert(row_respects(cols, rows[i]));
                    match plan[i] {
                        Some(changes) => {
                            assert forall|c: int| 0 <= c < changes.len() implies (
                            #[trigger] changes[c].0 as int) < rows[i].len() && !(0 <= changes[c].0
                                < cols.len() && !cols[changes[c].0 as int].nullable
                                && changes[c].1 is Null) by {
                                lemma_update_plan_indices(fl, cat, bu, rows[i], changes, c);
                                lemma_assignments_within(cols, t, st.assignments, c);
                                lemma_plan_respects_not_null(fl, cat, bu, rows[i], changes, c);
                            }
                            lemma_apply_changes_respects(cols, rows[i], changes);
                        },
                        None => {},
                    }
                }
            }
        },
        StatementV::Delete(st) => {
            let t = st.table;
            let rows = sto[t];
            let ff = crate::executor::spec::filter_evaluator(fl, b->Delete_0.filter);
            if try_map(rows, ff) is Ok {
                let flags = try_map(rows, ff)->Ok_0;
                lemma_try_map_ok_len(rows, ff);
                lemma_unflagged_rows(rows, flags);
                let kept = unflagged(rows, flags);
                assert forall|k: int| 0 <= k < kept.len() implies row_respects(
                    cat[t],
                    #[trigger] kept[k],
                ) by {
                    let j = choose|j: int| 0 <= j < rows.len() && kept[k] == rows[j];
                    assert(row_respects(cat[t], rows[j]));
                }
            }
        },
        StatementV::CreateTable(st) => {
            assert(!sto.contains_key(st.table));
        },
    }
}

/// A statement that fails leaves the catalog and the storage as they
/// were: `UPDATE` and `DELETE` decide every row before changing any, and
/// `INSERT` checks its row before storing it.
pub proof fn lemma_failed_statement_changes_nothing(
    fl: FloatSemantics,
    cat: CatalogV,
    sto: StorageV,
    b: BoundStatementV,
)
    ensures
        execute_spec(fl, cat, sto, b).0 is Err ==> execute_spec(fl, cat, sto, b).1 == cat
            && execute_spec(fl, cat, sto, b).2 == sto,
{
}

} // verus!
