//! Laws of running statements against a database.

use vstd::prelude::*;

use super::consistency::{consistent, lemma_execute_keeps_consistent, schemas_sized};
use super::run_statements_spec;
use crate::analyser::spec::{all_columns_spec, analyse_spec, try_map};
use crate::catalog::{CatalogV, SchemaV};
use crate::error::Error;
use crate::executor::spec::{
    execute_spec, filter_evaluator, flagged, project, ExecResult, ExecResultV,
    value_evaluator,
};
use crate::parser::ast::{SelectStatement, StatementV};
use crate::parser::SelectColumns;
use crate::parser::ast::InsertStatementV;
use crate::storage::StorageV;
use crate::types::{FloatSemantics, RowV};

verus! {

/// A statement the analyser rejects is never executed: the batch stops
/// there, with the analyser's error and the state the earlier statements
/// left.
pub proof fn law_rejected_statement_changes_nothing(
    fl: FloatSemantics,
    cat: CatalogV,
    sto: StorageV,
    stmts: Seq<StatementV>,
    done: Seq<ExecResultV>,
)
    requires
        stmts.len() > 0,
        analyse_spec(cat, stmts[0]) is Err,
    ensures
        run_statements_spec(fl, cat, sto, stmts, done) == (
            Err::<Seq<ExecResultV>, crate::error::ErrorV>(Error::Analyse(analyse_spec(cat, stmts[0])->Err_0)),
            cat,
            sto,
        ),
{
}

/// Filtering with no predicate keeps every row.
proof fn lemma_no_filter_keeps_all(fl: FloatSemantics, rows: Seq<RowV>)
    ensures
        try_map(rows, filter_evaluator(fl, None)) == Ok::<Seq<bool>, crate::executor::error::ExecErrorV>(
            Seq::new(rows.len(), |i: int| true),
        ),
        flagged(rows, Seq::new(rows.len(), |i: int| true)) == rows,
    decreases rows.len(),
{
    if rows.len() > 0 {
        let r = rows.drop_last();
        lemma_no_filter_keeps_all(fl, r);
        assert(Seq::new(r.len(), |i: int| true).push(true) =~= Seq::new(rows.len(), |i: int| true));
        assert(Seq::new(rows.len(), |i: int| true).take(rows.len() - 1) =~= Seq::new(
            r.len(),
            |i: int| true,
        ));
        assert(r.push(rows.last()) =~= rows);
        assert(filter_evaluator(fl, None)(rows.last()) == Ok::<bool, crate::executor::error::ExecErrorV>(true));
    } else {
        assert(rows =~= Seq::<RowV>::empty());
        assert(Seq::new(rows.len(), |i: int| true) =~= Seq::<bool>::empty());
    }
}

/// Projecting a row onto all of its schema's columns gives the row.
proof fn lemma_project_all(row: RowV, cols: SchemaV)
    requires
        row.len() == cols.len(),
        cols.len() <= usize::MAX,
    ensures
        project(row, all_columns_spec(cols)) == row,
{
    assert(project(row, all_columns_spec(cols)) =~= row);
}

/// What an `INSERT` stores, a following `SELECT *` of the same table reads
/// back: the table's earlier rows, then the inserted row, in order.
pub proof fn law_insert_then_select_all(fl: FloatSemantics, cat: CatalogV, sto: StorageV, ins: InsertStatementV)
    requires
        consistent(cat, sto),
        schemas_sized(cat),
        analyse_spec(cat, StatementV::Insert(ins)) is Ok,
        execute_spec(fl, cat, sto, analyse_spec(cat, StatementV::Insert(ins))->Ok_0).0 is Ok,
    ensures
        ({
            let b = analyse_spec(cat, StatementV::Insert(ins))->Ok_0;
            let out = execute_spec(fl, cat, sto, b);
            let row = try_map(b->Insert_0.values, value_evaluator(fl, Seq::empty()))->Ok_0;
            let sel = StatementV::Select(
                SelectStatement { columns: SelectColumns::All, table: ins.table, filter: None },
            );
            &&& analyse_spec(out.1, sel) is Ok
            &&& execute_spec(fl, out.1, out.2, analyse_spec(out.1, sel)->Ok_0).0 == Ok::<
                ExecResultV,
                crate::executor::error::ExecErrorV,
            >(ExecResult::Rows(sto[ins.table].push(row)))
        }),
{
    let t = ins.table;
    let b = analyse_spec(cat, StatementV::Insert(ins))->Ok_0;
    let out = execute_spec(fl, cat, sto, b);
    lemma_execute_keeps_consistent(fl, cat, sto, StatementV::Insert(ins));
    let rows = out.2[t];
    let cols = cat[t];
    lemma_no_filter_keeps_all(fl, rows);
    let shown = rows.map_values(|r: RowV| project(r, all_columns_spec(cols)));
    assert forall|i: int| 0 <= i < rows.len() implies #[trigger] shown[i] == rows[i] by {
        lemma_project_all(rows[i], cols);
    }
    assert(shown =~= rows);
}

/// A batch is its statements run one after another: running `a` then `b`
/// is running `a`, and, if that succeeds, running `b` from the state and
/// results `a` left; a failure in `a` ends the batch there.
pub proof fn law_batch_is_sequential(
    fl: FloatSemantics,
    cat: CatalogV,
    sto: StorageV,
    a: Seq<StatementV>,
    b: Seq<StatementV>,
    done: Seq<ExecResultV>,
)
    ensures
        run_statements_spec(fl, cat, sto, a + b, done) == (match run_statements_spec(fl, cat, sto, a, done) {
            (Ok(d2), c2, s2) => run_statements_spec(fl, c2, s2, b, d2),
            failed => failed,
        }),
    decreases a.len(),
{
    if a.len() == 0 {
        assert(a + b =~= b);
    } else {
        assert((a + b)[0] == a[0]);
        assert((a + b).drop_first() =~= a.drop_first() + b);
        match analyse_spec(cat, a[0]) {
            Err(_) => {},
            Ok(bd) => {
                let out = execute_spec(fl, cat, sto, bd);
                match out.0 {
                    Err(_) => {},
                    Ok(x) => {
                        law_batch_is_sequential(fl, out.1, out.2, a.drop_first(), b, done.push(x));
                    },
                }
            },
        }
    }
}

/// A batch that succeeds gives one result per statement, after the
/// results it started with.
pub proof fn law_batch_gives_one_result_per_statement(
    fl: FloatSemantics,
    cat: CatalogV,
    sto: StorageV,
    stmts: Seq<StatementV>,
    done: Seq<ExecResultV>,
)
    ensures
        run_statements_spec(fl, cat, sto, stmts, done).0 matches Ok(rs) ==> rs.len() == done.len() + stmts.len()
            && rs.take(done.len() as int) == done,
    decreases stmts.len(),
{
    if stmts.len() > 0 {
        match analyse_spec(cat, stmts[0]) {
            Err(_) => {},
            Ok(bd) => {
                let out = execute_spec(fl, cat, sto, bd);
                match out.0 {
                    Err(_) => {},
                    Ok(x) => {
                        law_batch_gives_one_result_per_statement(fl, out.1, out.2, stmts.drop_first(), done.push(x));
                        if let (Ok(rs), _, _) = run_statements_spec(fl, cat, sto, stmts, done) {
                            assert(rs.take(done.len() as int) =~= done.push(x).take(done.len() as int));
                        }
                    },
                }
            },
        }
    } else {
        assert(done.take(done.len() as int) =~= done);
    }
}

} // verus!
