//! Laws of `DELETE` and `UPDATE`: which rows a WHERE clause selects, and
//! what happens to the others.

use vstd::prelude::*;

use super::error::ExecErrorV;
use super::spec::{
    apply_plan, count_some, count_true, delete_spec, eval_spec, filter_evaluator, filter_spec,
    create_table_spec, flagged, insert_null_checker, insert_spec, select_spec, unflagged, update_planner,
    update_row_plan, update_spec, value_evaluator, ExecResult, ExecResultV,
};
use crate::analyser::bound::{BoundDeleteV, BoundExprV, BoundInsertV, BoundSelectV, BoundUpdateV};
use crate::analyser::spec::{lemma_try_map_ok_elem, lemma_try_map_ok_len, try_each, try_map};
use crate::catalog::CatalogV;
use crate::parser::ast::CreateTableStatementV;
use crate::storage::StorageV;
use crate::types::{FloatSemantics, RowV, Value, ValueV};

verus! {

/// Whether a WHERE clause selects `row`: there is none, or it evaluates to
/// exactly TRUE. FALSE and UNKNOWN (NULL) do not select a row.
pub open spec fn where_holds(fl: FloatSemantics, f: Option<BoundExprV>, row: RowV) -> bool {
    match f {
        None => true,
        Some(e) => eval_spec(fl, e, row) == Ok::<ValueV, ExecErrorV>(Value::Boolean(true)),
    }
}

/// The rows a WHERE clause does not select.
pub open spec fn not_selected(fl: FloatSemantics, f: Option<BoundExprV>) -> spec_fn(RowV) -> bool {
    |r: RowV| !where_holds(fl, f, r)
}

/// The rows a WHERE clause selects.
pub open spec fn selected(fl: FloatSemantics, f: Option<BoundExprV>) -> spec_fn(RowV) -> bool {
    |r: RowV| where_holds(fl, f, r)
}

proof fn lemma_filter_answer(fl: FloatSemantics, f: Option<BoundExprV>, row: RowV)
    ensures
        filter_spec(fl, f, row) matches Ok(b) ==> b == where_holds(fl, f, row),
{
}

/// The rows a successful filter pass keeps out are the unselected ones,
/// and the flagged ones are counted.
proof fn lemma_filter_pass(fl: FloatSemantics, f: Option<BoundExprV>, rows: Seq<RowV>)
    requires
        try_map(rows, filter_evaluator(fl, f)) is Ok,
    ensures
        unflagged(rows, try_map(rows, filter_evaluator(fl, f))->Ok_0) == rows.filter(not_selected(fl, f)),
        count_true(try_map(rows, filter_evaluator(fl, f))->Ok_0) + rows.filter(not_selected(fl, f)).len()
            == rows.len(),
    decreases rows.len(),
{
    reveal(Seq::filter);
    let g = filter_evaluator(fl, f);
    lemma_try_map_ok_len(rows, g);
    if rows.len() > 0 {
        let init = rows.drop_last();
        lemma_filter_pass(fl, f, init);
        lemma_try_map_ok_len(init, g);
        let flags = try_map(rows, g)->Ok_0;
        let iflags = try_map(init, g)->Ok_0;
        lemma_filter_answer(fl, f, rows.last());
        assert(flags == iflags.push(flags.last()));
        assert(flags.take(rows.len() - 1) =~= iflags);
        assert(flags.drop_last() =~= iflags);
    }
}

/// A successful `DELETE` removes exactly the rows its WHERE clause
/// selects: the table keeps, in order, every row whose clause is FALSE or
/// UNKNOWN, the result counts the removed rows, and nothing else changes.
pub proof fn law_delete_removes_exactly_the_selected_rows(
    fl: FloatSemantics,
    cat: CatalogV,
    sto: StorageV,
    s: BoundDeleteV,
)
    requires
        delete_spec(fl, cat, sto, s).0 is Ok,
    ensures
        ({
            let out = delete_spec(fl, cat, sto, s);
            let rows = sto[s.table];
            let kept = rows.filter(not_selected(fl, s.filter));
            &&& sto.contains_key(s.table)
            &&& out.1 == cat
            &&& out.2 == sto.insert(s.table, kept)
            &&& out.0 == Ok::<ExecResultV, ExecErrorV>(
                ExecResult::RowsAffected((rows.len() - kept.len()) as usize),
            )
        }),
{
    lemma_filter_pass(fl, s.filter, sto[s.table]);
}

/// An `UPDATE` plans a change for a row exactly when its WHERE clause
/// selects it: a clause that is FALSE or UNKNOWN leaves the row alone.
pub proof fn law_update_plans_only_selected_rows(fl: FloatSemantics, cat: CatalogV, s: BoundUpdateV, row: RowV)
    ensures
        update_row_plan(fl, cat, s, row) matches Ok(p) ==> (p is Some <==> where_holds(fl, s.filter, row)),
        s.filter matches Some(e) && (eval_spec(fl, e, row) == Ok::<ValueV, ExecErrorV>(Value::Boolean(false))
            || eval_spec(fl, e, row) == Ok::<ValueV, ExecErrorV>(Value::Null)) ==> update_row_plan(fl, cat, s, row)
            == Ok::<Option<Seq<(usize, ValueV)>>, ExecErrorV>(None),
{
}

proof fn lemma_plan_count(fl: FloatSemantics, cat: CatalogV, s: BoundUpdateV, rows: Seq<RowV>)
    requires
        try_map(rows, update_planner(fl, cat, s)) is Ok,
    ensures
        count_some(try_map(rows, update_planner(fl, cat, s))->Ok_0) == rows.filter(selected(fl, s.filter)).len(),
    decreases rows.len(),
{
    reveal(Seq::filter);
    let g = update_planner(fl, cat, s);
    lemma_try_map_ok_len(rows, g);
    if rows.len() > 0 {
        let init = rows.drop_last();
        lemma_plan_count(fl, cat, s, init);
        lemma_try_map_ok_len(init, g);
        let plan = try_map(rows, g)->Ok_0;
        let iplan = try_map(init, g)->Ok_0;
        law_update_plans_only_selected_rows(fl, cat, s, rows.last());
        assert(plan == iplan.push(plan.last()));
        assert(plan.drop_last() =~= iplan);
    }
}

/// A successful `UPDATE` keeps the table's length, leaves every row its
/// WHERE clause does not select (FALSE or UNKNOWN) as it was, counts the
/// selected rows, and changes nothing else.
pub proof fn law_update_changes_only_selected_rows(
    fl: FloatSemantics,
    cat: CatalogV,
    sto: StorageV,
    s: BoundUpdateV,
)
    requires
        update_spec(fl, cat, sto, s).0 is Ok,
    ensures
        ({
            let out = update_spec(fl, cat, sto, s);
            let rows = sto[s.table];
            &&& sto.contains_key(s.table)
            &&& out.1 == cat
            &&& out.2.dom() == sto.dom()
            &&& forall|t: Seq<char>| t != s.table && sto.contains_key(t) ==> #[trigger] out.2[t] == sto[t]
            &&& out.2[s.table].len() == rows.len()
            &&& forall|i: int|
                0 <= i < rows.len() && !where_holds(fl, s.filter, rows[i]) ==> #[trigger] out.2[s.table][i]
                    == rows[i]
            &&& out.0 == Ok::<ExecResultV, ExecErrorV>(
                ExecResult::RowsAffected(rows.filter(selected(fl, s.filter)).len() as usize),
            )
        }),
{
    let rows = sto[s.table];
    let g = update_planner(fl, cat, s);
    lemma_plan_count(fl, cat, s, rows);
    lemma_try_map_ok_len(rows, g);
    let plan = try_map(rows, g)->Ok_0;
    let out = update_spec(fl, cat, sto, s);
    assert(out.2 == sto.insert(s.table, apply_plan(rows, plan)));
    assert forall|i: int|
        0 <= i < rows.len() && !where_holds(fl, s.filter, rows[i]) implies #[trigger] out.2[s.table][i]
            == rows[i] by {
        lemma_try_map_ok_elem(rows, g, i);
        law_update_plans_only_selected_rows(fl, cat, s, rows[i]);
    }
    assert(out.2.dom() =~= sto.dom());
}

/// The rows a successful filter pass flags are the selected ones.
proof fn lemma_filter_pass_selects(fl: FloatSemantics, f: Option<BoundExprV>, rows: Seq<RowV>)
    requires
        try_map(rows, filter_evaluator(fl, f)) is Ok,
    ensures
        flagged(rows, try_map(rows, filter_evaluator(fl, f))->Ok_0) == rows.filter(selected(fl, f)),
    decreases rows.len(),
{
    reveal(Seq::filter);
    let g = filter_evaluator(fl, f);
    lemma_try_map_ok_len(rows, g);
    if rows.len() > 0 {
        let init = rows.drop_last();
        lemma_filter_pass_selects(fl, f, init);
        lemma_try_map_ok_len(init, g);
        let flags = try_map(rows, g)->Ok_0;
        let iflags = try_map(init, g)->Ok_0;
        lemma_filter_answer(fl, f, rows.last());
        assert(flags == iflags.push(flags.last()));
        assert(flags.take(rows.len() - 1) =~= iflags);
    }
}

/// A successful `SELECT` returns, in table order, the rows its WHERE
/// clause selects, each cut down to the chosen columns in the chosen
/// order; it changes nothing.
pub proof fn law_select_returns_the_selected_rows(
    fl: FloatSemantics,
    cat: CatalogV,
    sto: StorageV,
    s: BoundSelectV,
)
    requires
        select_spec(fl, cat, sto, s).0 is Ok,
    ensures
        ({
            let out = select_spec(fl, cat, sto, s);
            let chosen = sto[s.table].filter(selected(fl, s.filter));
            &&& sto.contains_key(s.table)
            &&& out.1 == cat
            &&& out.2 == sto
            &&& out.0 matches Ok(ExecResult::Rows(res)) && res.len() == chosen.len() && forall|i: int, j: int|
                0 <= i < res.len() && 0 <= j < s.columns.len() ==> #[trigger] res[i][j] == chosen[i][s.columns[j].index as int]
                    && res[i].len() == s.columns.len()
        }),
{
    lemma_filter_pass_selects(fl, s.filter, sto[s.table]);
}

proof fn lemma_try_each_ok<E>(n: nat, f: spec_fn(int) -> Result<(), E>, i: int)
    requires
        try_each(n, f) is Ok,
        0 <= i < n,
    ensures
        f(i) is Ok,
    decreases n,
{
    if i < n - 1 {
        lemma_try_each_ok((n - 1) as nat, f, i);
    }
}

/// A successful `INSERT` appends one row to its table and changes nothing
/// else: the row holds, in order, the value of each `VALUES` expression,
/// and no `NOT NULL` column of it is NULL.
pub proof fn law_insert_appends_the_evaluated_row(
    fl: FloatSemantics,
    cat: CatalogV,
    sto: StorageV,
    s: BoundInsertV,
)
    requires
        insert_spec(fl, cat, sto, s).0 is Ok,
    ensures
        ({
            let out = insert_spec(fl, cat, sto, s);
            let row = out.2[s.table].last();
            &&& sto.contains_key(s.table)
            &&& out.1 == cat
            &&& out.2 == sto.insert(s.table, sto[s.table].push(row))
            &&& row.len() == s.values.len()
            &&& forall|i: int| 0 <= i < row.len() ==> eval_spec(fl, s.values[i], Seq::empty()) == Ok::<ValueV, ExecErrorV>(#[trigger] row[i])
            &&& forall|i: int|
                0 <= i < row.len() && cat.contains_key(s.table) && i < cat[s.table].len() && !cat[s.table][i].nullable
                    ==> !(#[trigger] row[i] is Null)
            &&& out.0 == Ok::<ExecResultV, ExecErrorV>(ExecResult::RowsAffected(1))
        }),
{
    let g = value_evaluator(fl, Seq::empty());
    lemma_try_map_ok_len(s.values, g);
    let vals = try_map(s.values, g)->Ok_0;
    let out = insert_spec(fl, cat, sto, s);
    assert(out.2[s.table].last() == vals);
    assert forall|i: int| 0 <= i < vals.len() implies eval_spec(fl, s.values[i], Seq::empty()) == Ok::<ValueV, ExecErrorV>(#[trigger] vals[i]) by {
        lemma_try_map_ok_elem(s.values, g, i);
    }
    assert forall|i: int|
        0 <= i < vals.len() && cat.contains_key(s.table) && i < cat[s.table].len() && !cat[s.table][i].nullable
            implies !(#[trigger] vals[i] is Null) by {
        lemma_try_each_ok(vals.len(), insert_null_checker(cat, s.table, vals), i);
    }
}

/// `CREATE TABLE` registers a schema with the declared columns, in order,
/// with their names, types and nullability, and a table holding no rows
/// (rows already stored under the name stay); nothing else changes.
pub proof fn law_create_table_registers_the_declared_schema(
    cat: CatalogV,
    sto: StorageV,
    s: CreateTableStatementV,
)
    ensures
        ({
            let out = create_table_spec(cat, sto, s);
            let schema = out.1[s.table];
            &&& out.0 == Ok::<ExecResultV, ExecErrorV>(ExecResult::TableCreated)
            &&& out.1 == cat.insert(s.table, schema)
            &&& schema.len() == s.columns.len()
            &&& forall|i: int|
                0 <= i < schema.len() ==> #[trigger] schema[i].name == s.columns[i].name && schema[i].ty
                    == s.columns[i].ty && schema[i].nullable == s.columns[i].nullable
            &&& !sto.contains_key(s.table) ==> out.2 == sto.insert(s.table, Seq::<RowV>::empty())
            &&& sto.contains_key(s.table) ==> out.2 == sto
        }),
{
}

} // verus!
