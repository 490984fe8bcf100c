//! Laws of binding: which operand types each operator accepts.

use vstd::prelude::*;

use super::bound::{static_type_of, BoundExpr, BoundExprV, BoundStatementV};
use super::error::{AnalyseError, AnalyseErrorV};
use super::spec::{
    analyse_create_table_spec, analyse_insert_spec, bind_spec, check_binary_op_spec,
    find_column_from, first_duplicate, insert_checker, lemma_try_map_ok_len, resolve_column_spec,
    try_each,
};
use crate::catalog::{CatalogV, SchemaV};
use crate::parser::ast::{ColumnDeclV, CreateTableStatementV, ExprV, InsertStatementV};
use crate::parser::{BinaryOp, Expr};
use crate::types::DataType;

verus! {

/// INTEGER and FLOAT, the types arithmetic and numeric comparison take.
pub open spec fn numeric_type(t: DataType) -> bool {
    t == DataType::Integer || t == DataType::Float
}

/// The operand types each operator accepts, when both operands have a
/// type: `=` and `<>` compare two values of one type or any two numbers
/// (INTEGER with FLOAT included); `<`, `<=`, `>`, `>=` compare two numbers
/// or two TEXTs; `+`, `-`, `*`, `/` take two numbers; `AND` and `OR` take
/// two BOOLEANs. An operand without a type (NULL) is accepted by every
/// operator.
pub proof fn law_operator_typing(op: BinaryOp, lt: DataType, rt: DataType, other: Option<DataType>)
    ensures
        (op is Eq || op is NotEq) ==> (check_binary_op_spec(op, Some(lt), Some(rt)) is Ok <==> (lt == rt
            || (numeric_type(lt) && numeric_type(rt)))),
        (op is Lt || op is LtEq || op is Gt || op is GtEq) ==> (check_binary_op_spec(op, Some(lt), Some(rt))
            is Ok <==> ((numeric_type(lt) && numeric_type(rt)) || (lt == DataType::Text && rt == DataType::Text))),
        (op is Add || op is Sub || op is Mul || op is Div) ==> (check_binary_op_spec(op, Some(lt), Some(rt))
            is Ok <==> (numeric_type(lt) && numeric_type(rt))),
        (op is And || op is Or) ==> (check_binary_op_spec(op, Some(lt), Some(rt)) is Ok <==> (lt
            == DataType::Boolean && rt == DataType::Boolean)),
        check_binary_op_spec(op, None, other) is Ok,
        check_binary_op_spec(op, other, None) is Ok,
{
}

/// A comparison of two expressions that bind to numbers binds, whatever
/// the mix of INTEGER and FLOAT, to the comparison of their bindings.
pub proof fn law_numeric_comparisons_bind(
    cols: SchemaV,
    table: Seq<char>,
    allow: bool,
    op: BinaryOp,
    l: ExprV,
    r: ExprV,
)
    requires
        op is Eq || op is NotEq || op is Lt || op is LtEq || op is Gt || op is GtEq,
        bind_spec(cols, table, allow, l) matches Ok(bl) && static_type_of(bl) matches Some(lt)
            && numeric_type(lt),
        bind_spec(cols, table, allow, r) matches Ok(br) && static_type_of(br) matches Some(rt)
            && numeric_type(rt),
    ensures
        bind_spec(cols, table, allow, Expr::BinaryOp { left: Box::new(l), op, right: Box::new(r) })
            == Ok::<BoundExprV, super::error::AnalyseErrorV>(BoundExpr::BinaryOp {
            left: Box::new(bind_spec(cols, table, allow, l)->Ok_0),
            op,
            right: Box::new(bind_spec(cols, table, allow, r)->Ok_0),
        }),
{
}

proof fn lemma_find_column(cols: SchemaV, name: Seq<char>, i: int)
    requires
        0 <= i,
    ensures
        find_column_from(cols, name, i) matches Some(k) ==> i <= k < cols.len() && cols[k].name == name
            && forall|j: int| i <= j < k ==> #[trigger] cols[j].name != name,
        find_column_from(cols, name, i) is None ==> forall|j: int| i <= j < cols.len() ==> #[trigger] cols[j].name
            != name,
    decreases cols.len() - i,
{
    if i < cols.len() && cols[i].name != name {
        lemma_find_column(cols, name, i + 1);
    }
}

/// A column name resolves to the first column of the schema with that
/// name, carrying that column's index and type, and is unknown exactly
/// when no column has that name (for any schema whose column count is a
/// `usize`, as every catalog's are).
pub proof fn law_column_resolution(cols: SchemaV, table: Seq<char>, name: Seq<char>)
    requires
        cols.len() <= usize::MAX,
    ensures
        resolve_column_spec(cols, table, name) matches Ok(c) ==> 0 <= c.index < cols.len() && cols[c.index as int].name
            == name && c.name == name && c.ty == cols[c.index as int].ty && forall|j: int|
            0 <= j < c.index ==> #[trigger] cols[j].name != name,
        resolve_column_spec(cols, table, name) is Err <==> forall|j: int| 0 <= j < cols.len() ==> #[trigger] cols[j].name
            != name,
        resolve_column_spec(cols, table, name) is Err ==> resolve_column_spec(cols, table, name) == Err::<
            super::bound::BoundColumnV,
            AnalyseErrorV,
        >(AnalyseError::UnknownColumn { table, column: name }),
{
    lemma_find_column(cols, name, 0);
    if resolve_column_spec(cols, table, name) is Ok {
        let k = find_column_from(cols, name, 0)->Some_0;
        assert(cols[k].name == name);
    }
}

proof fn lemma_try_each_all<E>(n: nat, f: spec_fn(int) -> Result<(), E>, i: int)
    requires
        try_each(n, f) is Ok,
        0 <= i < n,
    ensures
        f(i) is Ok,
    decreases n,
{
    if i < n - 1 {
        lemma_try_each_all((n - 1) as nat, f, i);
    }
}

/// An `INSERT` binds only with exactly one value per column of an existing
/// table, each of the column's type or untyped (NULL), in column order; a
/// count that differs is a `ValueCountMismatch` naming both counts.
pub proof fn law_insert_binding(cat: CatalogV, s: InsertStatementV)
    ensures
        analyse_insert_spec(cat, s) matches Ok(BoundStatementV::Insert(b)) ==> {
            &&& cat.contains_key(s.table)
            &&& b.table == s.table
            &&& b.values.len() == s.values.len() == cat[s.table].len()
            &&& forall|i: int| 0 <= i < b.values.len() ==> (#[trigger] static_type_of(b.values[i]) is None
                || static_type_of(b.values[i]) == Some(cat[s.table][i].ty))
        },
        analyse_insert_spec(cat, s) is Ok ==> analyse_insert_spec(cat, s) matches Ok(BoundStatementV::Insert(_)),
        cat.contains_key(s.table) && s.values.len() != cat[s.table].len() ==> analyse_insert_spec(cat, s)
            == Err::<BoundStatementV, AnalyseErrorV>(AnalyseError::ValueCountMismatch {
            table: s.table,
            expected: cat[s.table].len() as usize,
            found: s.values.len() as usize,
        }),
        !cat.contains_key(s.table) ==> analyse_insert_spec(cat, s) is Err,
{
    if analyse_insert_spec(cat, s) is Ok {
        let cols = cat[s.table];
        let bl = super::spec::bind_list_spec(cols, s.table, false, s.values);
        lemma_try_map_ok_len(s.values, super::spec::binder(cols, s.table, false));
        let vals = bl->Ok_0;
        assert forall|i: int| 0 <= i < vals.len() implies (#[trigger] static_type_of(vals[i]) is None
            || static_type_of(vals[i]) == Some(cols[i].ty)) by {
            lemma_try_each_all(vals.len(), insert_checker(cols, vals), i);
        }
    }
}

proof fn lemma_no_duplicate(cols: Seq<ColumnDeclV>)
    requires
        first_duplicate(cols) is None,
    ensures
        forall|i: int, j: int| 0 <= i < j < cols.len() ==> #[trigger] cols[i].name != #[trigger] cols[j].name,
    decreases cols.len(),
{
    if cols.len() > 0 {
        let init = cols.drop_last();
        lemma_no_duplicate(init);
        assert forall|i: int, j: int| 0 <= i < j < cols.len() implies #[trigger] cols[i].name
            != #[trigger] cols[j].name by {
            if j < cols.len() - 1 {
                assert(init[i] == cols[i] && init[j] == cols[j]);
            } else {
                if cols[i].name == cols[j].name {
                    assert(cols[i].name == cols.last().name);
                }
            }
        }
    }
}

/// A `CREATE TABLE` binds only for a name not yet registered and column
/// names that are pairwise distinct; an existing name is refused with
/// `TableAlreadyExists`.
pub proof fn law_create_table_binding(cat: CatalogV, s: CreateTableStatementV)
    ensures
        analyse_create_table_spec(cat, s) is Ok ==> !cat.contains_key(s.table) && forall|i: int, j: int|
            0 <= i < j < s.columns.len() ==> #[trigger] s.columns[i].name != #[trigger] s.columns[j].name,
        cat.contains_key(s.table) ==> analyse_create_table_spec(cat, s) == Err::<BoundStatementV, AnalyseErrorV>(
            AnalyseError::TableAlreadyExists { name: s.table },
        ),
{
    if analyse_create_table_spec(cat, s) is Ok {
        lemma_no_duplicate(s.columns);
    }
}

} // verus!
