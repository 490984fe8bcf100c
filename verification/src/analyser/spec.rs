//! What binding a statement against a catalog means, stated over views.

use vstd::prelude::*;

use super::bound::{
    static_type_of, BoundColumn, BoundColumnV, BoundDelete, BoundExpr, BoundExprV, BoundInsert,
    BoundSelect, BoundStatementV, BoundUpdate,
};
use super::error::{AnalyseError, AnalyseErrorV};
use crate::catalog::{CatalogV, ColumnDefV, SchemaV};
use crate::parser::ast::{
    ColumnDeclV, CreateTableStatementV, DeleteStatementV, ExprV, InsertStatementV,
    SelectStatementV, StatementV, UpdateStatementV,
};
use crate::parser::{BinaryOp, Expr, SelectColumns};
use crate::types::DataType;

verus! {

/// Applies `f` to each element in order; the first failure wins.
pub open spec fn try_map<A, B, E>(s: Seq<A>, f: spec_fn(A) -> Result<B, E>) -> Result<Seq<B>, E>
    decreases s.len(),
{
    if s.len() == 0 {
        Ok(Seq::empty())
    } else {
        match try_map(s.drop_last(), f) {
            Err(err) => Err(err),
            Ok(bs) => match f(s.last()) {
                Err(err) => Err(err),
                Ok(b) => Ok(bs.push(b)),
            },
        }
    }
}

/// Runs the checks `f(0)`, ..., `f(n - 1)` in order; the first failure wins.
pub open spec fn try_each<E>(n: nat, f: spec_fn(int) -> Result<(), E>) -> Result<(), E>
    decreases n,
{
    if n == 0 {
        Ok(())
    } else {
        match try_each((n - 1) as nat, f) {
            Err(err) => Err(err),
            Ok(_) => f(n - 1),
        }
    }
}

/// A failure on a prefix is the failure of the whole sequence.
pub proof fn lemma_try_map_prefix_err<A, B, E>(s: Seq<A>, f: spec_fn(A) -> Result<B, E>, k: int)
    requires
        0 <= k <= s.len(),
        try_map(s.take(k), f) is Err,
    ensures
        try_map(s, f) == try_map(s.take(k), f),
    decreases s.len() - k,
{
    if k < s.len() {
        let t = s.take(k + 1);
        assert(t.drop_last() =~= s.take(k));
        assert(t.take(k) =~= s.take(k));
        lemma_try_map_prefix_err(s, f, k + 1);
    } else {
        assert(s.take(k) =~= s);
    }
}

/// Extending a successful prefix by one element.
pub proof fn lemma_try_map_step<A, B, E>(s: Seq<A>, f: spec_fn(A) -> Result<B, E>, k: int)
    requires
        0 <= k < s.len(),
    ensures
        try_map(s.take(k + 1), f) == (match try_map(s.take(k), f) {
            Err(err) => Err(err),
            Ok(bs) => match f(s[k]) {
                Err(err) => Err(err),
                Ok(b) => Ok(bs.push(b)),
            },
        }),
{
    assert(s.take(k + 1).drop_last() =~= s.take(k));
}

/// A successful map has one output per input, each what `f` gave.
pub proof fn lemma_try_map_ok_elem<A, B, E>(s: Seq<A>, f: spec_fn(A) -> Result<B, E>, j: int)
    requires
        try_map(s, f) is Ok,
        0 <= j < s.len(),
    ensures
        try_map(s, f)->Ok_0.len() == s.len(),
        f(s[j]) == Ok::<B, E>(try_map(s, f)->Ok_0[j]),
    decreases s.len(),
{
    lemma_try_map_ok_len(s, f);
    if j < s.len() - 1 {
        lemma_try_map_ok_elem(s.drop_last(), f, j);
        assert(s.drop_last()[j] == s[j]);
    }
}

pub proof fn lemma_try_map_ok_len<A, B, E>(s: Seq<A>, f: spec_fn(A) -> Result<B, E>)
    requires
        try_map(s, f) is Ok,
    ensures
        try_map(s, f)->Ok_0.len() == s.len(),
    decreases s.len(),
{
    if s.len() > 0 {
        lemma_try_map_ok_len(s.drop_last(), f);
    }
}

/// A failure among the first `k` checks is the failure of all `n`.
pub proof fn lemma_try_each_prefix_err<E>(n: nat, f: spec_fn(int) -> Result<(), E>, k: nat)
    requires
        k <= n,
        try_each(k, f) is Err,
    ensures
        try_each(n, f) == try_each(k, f),
    decreases n - k,
{
    if k < n {
        lemma_try_each_prefix_err(n, f, k + 1);
    }
}

/// The `Debug` name of a column type, as error messages show it.
pub open spec fn datatype_label(t: DataType) -> Seq<char> {
    match t {
        DataType::Integer => "Integer"@,
        DataType::Float => "Float"@,
        DataType::Text => "Text"@,
        DataType::Boolean => "Boolean"@,
    }
}

pub open spec fn is_numeric(t: DataType) -> bool {
    t == DataType::Integer || t == DataType::Float
}

pub open spec fn mismatch(expected: Seq<char>, found: Seq<char>) -> AnalyseErrorV {
    AnalyseError::TypeMismatch { expected, found }
}

/// `"<l> and <r>"`, as the mismatch messages of binary operators show
/// their operand types.
pub open spec fn both_types(l: DataType, r: DataType) -> Seq<char> {
    datatype_label(l) + " and "@ + datatype_label(r)
}

/// `"<type> for column '<name>'"`, as the mismatch messages of INSERT and
/// SET show a column's expectation.
pub open spec fn column_expectation(ty: DataType, name: Seq<char>) -> Seq<char> {
    datatype_label(ty) + " for column '"@ + name + "'"@
}

/// The index of the first column named `name`, searching from `i`.
pub open spec fn find_column_from(cols: SchemaV, name: Seq<char>, i: int) -> Option<int>
    decreases cols.len() - i,
{
    if i < 0 || i >= cols.len() {
        None
    } else if cols[i].name == name {
        Some(i)
    } else {
        find_column_from(cols, name, i + 1)
    }
}

/// The bound column for `name`: the first schema column with that name.
pub open spec fn resolve_column_spec(cols: SchemaV, table: Seq<char>, name: Seq<char>) -> Result<
    BoundColumnV,
    AnalyseErrorV,
> {
    match find_column_from(cols, name, 0) {
        Some(i) => Ok(BoundColumn { name: cols[i].name, index: i as usize, ty: cols[i].ty }),
        None => Err(AnalyseError::UnknownColumn { table, column: name }),
    }
}

/// The static legality of a binary operator over its operand types.
/// Operands of unknown type (NULL) are exempt.
pub open spec fn check_binary_op_spec(op: BinaryOp, l: Option<DataType>, r: Option<DataType>) -> Result<
    (),
    AnalyseErrorV,
> {
    match (l, r) {
        (Some(lt), Some(rt)) => {
            if op is And || op is Or {
                if lt != DataType::Boolean || rt != DataType::Boolean {
                    Err(mismatch("BOOLEAN on both sides"@, both_types(lt, rt)))
                } else {
                    Ok(())
                }
            } else if op is Add || op is Sub || op is Mul || op is Div {
                if !is_numeric(lt) || !is_numeric(rt) {
                    Err(mismatch("numeric operands"@, both_types(lt, rt)))
                } else {
                    Ok(())
                }
            } else if op is Eq || op is NotEq {
                if !(lt == rt || (is_numeric(lt) && is_numeric(rt))) {
                    Err(mismatch("a type comparable to "@ + datatype_label(lt), datatype_label(rt)))
                } else {
                    Ok(())
                }
            } else {
                if !((is_numeric(lt) && is_numeric(rt)) || (lt == DataType::Text && rt
                    == DataType::Text)) {
                    Err(mismatch("two numeric or two TEXT operands"@, both_types(lt, rt)))
                } else {
                    Ok(())
                }
            }
        },
        _ => Ok(()),
    }
}

/// Binding an expression against a table's columns. `allow` is false only
/// for `INSERT ... VALUES`, where a column reference is an error.
pub open spec fn bind_spec(cols: SchemaV, table: Seq<char>, allow: bool, e: ExprV) -> Result<
    BoundExprV,
    AnalyseErrorV,
>
    decreases e,
{
    match e {
        Expr::Column(name) => {
            if !allow {
                Err(AnalyseError::ColumnInValues { name })
            } else {
                match resolve_column_spec(cols, table, name) {
                    Ok(c) => Ok(BoundExpr::Column { name: c.name, index: c.index, ty: c.ty }),
                    Err(err) => Err(err),
                }
            }
        },
        Expr::Literal(v) => Ok(BoundExpr::Literal(v)),
        Expr::Not(inner) => match bind_spec(cols, table, allow, *inner) {
            Err(err) => Err(err),
            Ok(b) => match static_type_of(b) {
                Some(t) => if t == DataType::Boolean {
                    Ok(BoundExpr::Not(Box::new(b)))
                } else {
                    Err(mismatch("BOOLEAN"@, datatype_label(t)))
                },
                None => Ok(BoundExpr::Not(Box::new(b))),
            },
        },
        Expr::Neg(inner) => match bind_spec(cols, table, allow, *inner) {
            Err(err) => Err(err),
            Ok(b) => match static_type_of(b) {
                Some(t) => if is_numeric(t) {
                    Ok(BoundExpr::Neg(Box::new(b)))
                } else {
                    Err(mismatch("a numeric type"@, datatype_label(t)))
                },
                None => Ok(BoundExpr::Neg(Box::new(b))),
            },
        },
        Expr::BinaryOp { left, op, right } => match bind_spec(cols, table, allow, *left) {
            Err(err) => Err(err),
            Ok(l) => match bind_spec(cols, table, allow, *right) {
                Err(err) => Err(err),
                Ok(r) => match check_binary_op_spec(op, static_type_of(l), static_type_of(r)) {
                    Err(err) => Err(err),
                    Ok(_) => Ok(BoundExpr::BinaryOp { left: Box::new(l), op, right: Box::new(r) }),
                },
            },
        },
        Expr::IsNull { expr, negated } => match bind_spec(cols, table, allow, *expr) {
            Err(err) => Err(err),
            Ok(b) => Ok(BoundExpr::IsNull { expr: Box::new(b), negated }),
        },
    }
}

/// Binding a list of expressions in order; the first failure wins.
pub open spec fn bind_list_spec(cols: SchemaV, table: Seq<char>, allow: bool, es: Seq<ExprV>) -> Result<
    Seq<BoundExprV>,
    AnalyseErrorV,
> {
    try_map(es, binder(cols, table, allow))
}

pub open spec fn binder(cols: SchemaV, table: Seq<char>, allow: bool) -> spec_fn(ExprV) -> Result<
    BoundExprV,
    AnalyseErrorV,
> {
    |e: ExprV| bind_spec(cols, table, allow, e)
}

/// The type check of the `i`-th `INSERT` value against its column.
pub open spec fn insert_value_check(cols: SchemaV, vals: Seq<BoundExprV>, i: int) -> Result<
    (),
    AnalyseErrorV,
> {
    match static_type_of(vals[i]) {
        Some(t) => if t != cols[i].ty {
            Err(mismatch(column_expectation(cols[i].ty, cols[i].name), datatype_label(t)))
        } else {
            Ok(())
        },
        None => Ok(()),
    }
}

/// The `INSERT` type check: the first value whose static type differs
/// from its column's type fails.
pub open spec fn insert_type_check_spec(cols: SchemaV, vals: Seq<BoundExprV>) -> Result<
    (),
    AnalyseErrorV,
> {
    try_each(vals.len(), insert_checker(cols, vals))
}

pub open spec fn insert_checker(cols: SchemaV, vals: Seq<BoundExprV>) -> spec_fn(int) -> Result<
    (),
    AnalyseErrorV,
> {
    |i: int| insert_value_check(cols, vals, i)
}

pub open spec fn bind_filter_spec(cols: SchemaV, table: Seq<char>, f: Option<ExprV>) -> Result<
    Option<BoundExprV>,
    AnalyseErrorV,
> {
    match f {
        None => Ok(None),
        Some(e) => match bind_spec(cols, table, true, e) {
            Err(err) => Err(err),
            Ok(b) => Ok(Some(b)),
        },
    }
}

/// One `SET` assignment: resolve the column, bind the value (which may
/// read the row), and check the value's static type against the column.
pub open spec fn bind_assignment_spec(cols: SchemaV, table: Seq<char>, a: (Seq<char>, ExprV)) -> Result<
    (BoundColumnV, BoundExprV),
    AnalyseErrorV,
> {
    match resolve_column_spec(cols, table, a.0) {
        Err(err) => Err(err),
        Ok(c) => match bind_spec(cols, table, true, a.1) {
            Err(err) => Err(err),
            Ok(b) => match static_type_of(b) {
                Some(t) => if t != c.ty {
                    Err(mismatch(column_expectation(c.ty, c.name), datatype_label(t)))
                } else {
                    Ok((c, b))
                },
                None => Ok((c, b)),
            },
        },
    }
}

pub open spec fn bind_assignments_spec(
    cols: SchemaV,
    table: Seq<char>,
    s: Seq<(Seq<char>, ExprV)>,
) -> Result<Seq<(BoundColumnV, BoundExprV)>, AnalyseErrorV> {
    try_map(s, assigner(cols, table))
}

pub open spec fn assigner(cols: SchemaV, table: Seq<char>) -> spec_fn((Seq<char>, ExprV)) -> Result<
    (BoundColumnV, BoundExprV),
    AnalyseErrorV,
> {
    |a: (Seq<char>, ExprV)| bind_assignment_spec(cols, table, a)
}

/// Every column of a schema, bound, in schema order.
pub open spec fn all_columns_spec(cols: SchemaV) -> Seq<BoundColumnV> {
    Seq::new(
        cols.len(),
        |i: int| BoundColumn { name: cols[i].name, index: i as usize, ty: cols[i].ty },
    )
}

pub open spec fn resolve_list_spec(cols: SchemaV, table: Seq<char>, names: Seq<Seq<char>>) -> Result<
    Seq<BoundColumnV>,
    AnalyseErrorV,
> {
    try_map(names, resolver(cols, table))
}

pub open spec fn resolver(cols: SchemaV, table: Seq<char>) -> spec_fn(Seq<char>) -> Result<
    BoundColumnV,
    AnalyseErrorV,
> {
    |n: Seq<char>| resolve_column_spec(cols, table, n)
}

pub open spec fn unknown_table(name: Seq<char>) -> AnalyseErrorV {
    AnalyseError::UnknownTable { name }
}

pub open spec fn analyse_select_spec(cat: CatalogV, s: SelectStatementV) -> Result<
    BoundStatementV,
    AnalyseErrorV,
> {
    if !cat.contains_key(s.table) {
        Err(unknown_table(s.table))
    } else {
        let cols = cat[s.table];
        let columns = match s.columns {
            SelectColumns::All => Ok(all_columns_spec(cols)),
            SelectColumns::List(names) => resolve_list_spec(cols, s.table, names),
        };
        match columns {
            Err(err) => Err(err),
            Ok(columns) => match bind_filter_spec(cols, s.table, s.filter) {
                Err(err) => Err(err),
                Ok(filter) => Ok(
                    BoundStatementV::Select(BoundSelect { table: s.table, columns, filter }),
                ),
            },
        }
    }
}

pub open spec fn analyse_insert_spec(cat: CatalogV, s: InsertStatementV) -> Result<
    BoundStatementV,
    AnalyseErrorV,
> {
    if !cat.contains_key(s.table) {
        Err(unknown_table(s.table))
    } else {
        let cols = cat[s.table];
        if s.values.len() != cols.len() {
            Err(
                AnalyseError::ValueCountMismatch {
                    table: s.table,
                    expected: cols.len() as usize,
                    found: s.values.len() as usize,
                },
            )
        } else {
            match bind_list_spec(cols, s.table, false, s.values) {
                Err(err) => Err(err),
                Ok(values) => match insert_type_check_spec(cols, values) {
                    Err(err) => Err(err),
                    Ok(_) => Ok(BoundStatementV::Insert(BoundInsert { table: s.table, values })),
                },
            }
        }
    }
}

pub open spec fn analyse_update_spec(cat: CatalogV, s: UpdateStatementV) -> Result<
    BoundStatementV,
    AnalyseErrorV,
> {
    if !cat.contains_key(s.table) {
        Err(unknown_table(s.table))
    } else {
        let cols = cat[s.table];
        match bind_assignments_spec(cols, s.table, s.assignments) {
            Err(err) => Err(err),
            Ok(assignments) => match bind_filter_spec(cols, s.table, s.filter) {
                Err(err) => Err(err),
                Ok(filter) => Ok(
                    BoundStatementV::Update(BoundUpdate { table: s.table, assignments, filter }),
                ),
            },
        }
    }
}

pub open spec fn analyse_delete_spec(cat: CatalogV, s: DeleteStatementV) -> Result<
    BoundStatementV,
    AnalyseErrorV,
> {
    if !cat.contains_key(s.table) {
        Err(unknown_table(s.table))
    } else {
        match bind_filter_spec(cat[s.table], s.table, s.filter) {
            Err(err) => Err(err),
            Ok(filter) => Ok(BoundStatementV::Delete(BoundDelete { table: s.table, filter })),
        }
    }
}

/// The name of the first column declaration whose name an earlier
/// declaration already used.
pub open spec fn first_duplicate(cols: Seq<ColumnDeclV>) -> Option<Seq<char>>
    decreases cols.len(),
{
    if cols.len() == 0 {
        None
    } else {
        match first_duplicate(cols.drop_last()) {
            Some(n) => Some(n),
            None => if exists|j: int| 0 <= j < cols.len() - 1 && #[trigger] cols[j].name
                == cols.last().name {
                Some(cols.last().name)
            } else {
                None
            },
        }
    }
}

/// A duplicate found in a prefix is the first duplicate of the whole list.
pub proof fn lemma_first_duplicate_prefix(cols: Seq<ColumnDeclV>, k: int)
    requires
        0 <= k <= cols.len(),
        first_duplicate(cols.take(k)) is Some,
    ensures
        first_duplicate(cols) == first_duplicate(cols.take(k)),
    decreases cols.len() - k,
{
    if k < cols.len() {
        let t = cols.take(k + 1);
        assert(t.drop_last() =~= cols.take(k));
        lemma_first_duplicate_prefix(cols, k + 1);
    } else {
        assert(cols.take(k) =~= cols);
    }
}

pub open spec fn analyse_create_table_spec(cat: CatalogV, s: CreateTableStatementV) -> Result<
    BoundStatementV,
    AnalyseErrorV,
> {
    if cat.contains_key(s.table) {
        Err(AnalyseError::TableAlreadyExists { name: s.table })
    } else {
        match first_duplicate(s.columns) {
            Some(name) => Err(AnalyseError::DuplicateColumn { name }),
            None => Ok(BoundStatementV::CreateTable(s)),
        }
    }
}

/// Binding a statement against a catalog.
pub open spec fn analyse_spec(cat: CatalogV, s: StatementV) -> Result<BoundStatementV, AnalyseErrorV> {
    match s {
        StatementV::Select(s) => analyse_select_spec(cat, s),
        StatementV::Insert(s) => analyse_insert_spec(cat, s),
        StatementV::Update(s) => analyse_update_spec(cat, s),
        StatementV::Delete(s) => analyse_delete_spec(cat, s),
        StatementV::CreateTable(s) => analyse_create_table_spec(cat, s),
    }
}

} // verus!
