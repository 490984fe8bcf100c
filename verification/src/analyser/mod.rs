//! Analyser: binds a parsed [`Statement`] against a [`Catalog`],
//! resolving column names to indices and types and rejecting statements
//! that are syntactically valid but semantically meaningless (unknown
//! tables or columns, type mismatches). Purely a checking and resolving
//! stage: no row data is touched here; see [`crate::executor`] for that.

pub mod bound;
pub mod error;
pub mod laws;
pub mod spec;

pub use bound::{
    BoundColumn, BoundDelete, BoundExpr, BoundInsert, BoundSelect, BoundStatement, BoundUpdate,
};
pub use error::AnalyseError;

use vstd::prelude::*;

use crate::analyser::bound::{
    bound_assignments_view, bound_columns_view, bound_exprs_view, static_type_of, BoundColumnV,
    BoundExprV,
};
use crate::analyser::error::AnalyseErrorV;
use crate::analyser::spec::{
    all_columns_spec, analyse_create_table_spec, analyse_delete_spec, analyse_insert_spec,
    analyse_select_spec, analyse_spec, analyse_update_spec, bind_assignment_spec,
    bind_assignments_spec, bind_filter_spec, bind_list_spec, bind_spec, both_types,
    check_binary_op_spec, column_expectation, datatype_label, find_column_from, first_duplicate,
    insert_type_check_spec, mismatch, resolve_column_spec, resolve_list_spec, unknown_table,
    assigner, binder, insert_checker, lemma_first_duplicate_prefix, lemma_try_each_prefix_err,
    lemma_try_map_prefix_err, lemma_try_map_step, resolver, try_each, try_map,
};
use crate::catalog::{Catalog, SchemaV, TableSchema};
use crate::parser::ast::{assignments_view, exprs_view, strings_view, ExprV};
use crate::parser::{
    BinaryOp, CreateTableStatement, DeleteStatement, Expr, InsertStatement, SelectColumns,
    SelectStatement, Statement, UpdateStatement,
};
use crate::types::DataType;

verus! {

/// The view of a binding outcome for an expression.
pub open spec fn bound_result_view(r: Result<BoundExpr, AnalyseError>) -> Result<
    BoundExprV,
    AnalyseErrorV,
> {
    match r {
        Ok(b) => Ok(b@),
        Err(e) => Err(e@),
    }
}

/// The view of a binding outcome for a statement.
pub open spec fn statement_result_view(r: Result<BoundStatement, AnalyseError>) -> Result<
    bound::BoundStatementV,
    AnalyseErrorV,
> {
    match r {
        Ok(b) => Ok(b@),
        Err(e) => Err(e@),
    }
}

/// The `Debug` name of a column type.
fn datatype_label_of(t: DataType) -> (r: String)
    ensures
        r@ == datatype_label(t),
{
    match t {
        DataType::Integer => "Integer".to_owned(),
        DataType::Float => "Float".to_owned(),
        DataType::Text => "Text".to_owned(),
        DataType::Boolean => "Boolean".to_owned(),
    }
}

fn type_mismatch(expected: String, found: String) -> (e: AnalyseError)
    ensures
        e@ == mismatch(expected@, found@),
{
    AnalyseError::TypeMismatch { expected, found }
}

fn both_types_of(l: DataType, r: DataType) -> (s: String)
    ensures
        s@ == both_types(l, r),
{
    let mut s = datatype_label_of(l);
    s.append(" and ");
    let rs = datatype_label_of(r);
    s.append(rs.as_str());
    s
}

fn column_expectation_of(ty: DataType, name: &String) -> (s: String)
    ensures
        s@ == column_expectation(ty, name@),
{
    let mut s = datatype_label_of(ty);
    s.append(" for column '");
    s.append(name.as_str());
    s.append("'");
    s
}

fn is_numeric_type(t: DataType) -> (r: bool)
    ensures
        r == spec::is_numeric(t),
{
    t == DataType::Integer || t == DataType::Float
}

/// Static legality check for a [`BinaryOp`] given its (already bound)
/// operands. NULL operands (`static_type() == None`) skip checking.
pub fn check_binary_op_types(op: BinaryOp, left: &BoundExpr, right: &BoundExpr) -> (r: Result<
    (),
    AnalyseError,
>)
    ensures
        match r {
            Ok(_) => check_binary_op_spec(op, static_type_of(left@), static_type_of(right@)) == Ok::<
                (),
                AnalyseErrorV,
            >(()),
            Err(e) => check_binary_op_spec(op, static_type_of(left@), static_type_of(right@))
                == Err::<(), AnalyseErrorV>(e@),
        },
{
    let (lt, rt) = match (left.static_type(), right.static_type()) {
        (Some(lt), Some(rt)) => (lt, rt),
        _ => return Ok(()),
    };
    match op {
        BinaryOp::And | BinaryOp::Or => {
            if lt != DataType::Boolean || rt != DataType::Boolean {
                return Err(type_mismatch("BOOLEAN on both sides".to_owned(), both_types_of(lt, rt)));
            }
        },
        BinaryOp::Add | BinaryOp::Sub | BinaryOp::Mul | BinaryOp::Div => {
            if !is_numeric_type(lt) || !is_numeric_type(rt) {
                return Err(type_mismatch("numeric operands".to_owned(), both_types_of(lt, rt)));
            }
        },
        BinaryOp::Eq | BinaryOp::NotEq => {
            let comparable = lt == rt || (is_numeric_type(lt) && is_numeric_type(rt));
            if !comparable {
                let mut expected = "a type comparable to ".to_owned();
                let ls = datatype_label_of(lt);
                expected.append(ls.as_str());
                return Err(type_mismatch(expected, datatype_label_of(rt)));
            }
        },
        BinaryOp::Lt | BinaryOp::LtEq | BinaryOp::Gt | BinaryOp::GtEq => {
            let orderable = (is_numeric_type(lt) && is_numeric_type(rt)) || (lt == DataType::Text
                && rt == DataType::Text);
            if !orderable {
                return Err(
                    type_mismatch(
                        "two numeric or two TEXT operands".to_owned(),
                        both_types_of(lt, rt),
                    ),
                );
            }
        },
    }
    Ok(())
}

/// Binds statements against a [`Catalog`]. Borrows the catalog: binding is
/// read-only, and row storage and schema mutation both happen later, in the
/// executor.
pub struct Analyser<'a> {
    catalog: &'a Catalog,
}

impl<'a> Analyser<'a> {
    /// The catalog this analyser binds against.
    pub closed spec fn catalog(&self) -> Catalog {
        *self.catalog
    }

    pub fn new(catalog: &'a Catalog) -> (r: Self)
        ensures
            r.catalog() == *catalog,
    {
        Self { catalog }
    }

    /// Binds a single statement, or fails with the first semantic error
    /// found.
    pub fn analyse(&self, statement: Statement) -> (r: Result<BoundStatement, AnalyseError>)
        requires
            self.catalog().wf(),
        ensures
            statement_result_view(r) == analyse_spec(self.catalog()@, statement@),
    {
        match statement {
            Statement::Select(s) => self.analyse_select(s),
            Statement::Insert(s) => self.analyse_insert(s),
            Statement::Update(s) => self.analyse_update(s),
            Statement::Delete(s) => self.analyse_delete(s),
            Statement::CreateTable(s) => self.analyse_create_table(s),
        }
    }

    fn schema_for(&self, table: &str) -> (r: Result<&'a TableSchema, AnalyseError>)
        requires
            self.catalog().wf(),
        ensures
            match r {
                Ok(s) => self.catalog()@.contains_key(table@) && s@ == self.catalog()@[table@],
                Err(e) => !self.catalog()@.contains_key(table@) && e@ == unknown_table(table@),
            },
    {
        match self.catalog.schema(table) {
            Some(s) => Ok(s),
            None => Err(AnalyseError::UnknownTable { name: table.to_owned() }),
        }
    }

    fn resolve_column(&self, schema: &TableSchema, table: &str, name: &str) -> (r: Result<
        BoundColumn,
        AnalyseError,
    >)
        ensures
            match r {
                Ok(c) => resolve_column_spec(schema@, table@, name@) == Ok::<
                    BoundColumnV,
                    AnalyseErrorV,
                >(c@),
                Err(e) => resolve_column_spec(schema@, table@, name@) == Err::<
                    BoundColumnV,
                    AnalyseErrorV,
                >(e@),
            },
    {
        let key = name.to_owned();
        let mut i: usize = 0;
        while i < schema.columns.len()
            invariant
                i <= schema.columns@.len(),
                key@ == name@,
                find_column_from(schema@, name@, 0) == find_column_from(schema@, name@, i as int),
            decreases schema.columns.len() - i,
        {
            if schema.columns[i].name == key {
                return Ok(
                    BoundColumn {
                        name: schema.columns[i].name.clone(),
                        index: i,
                        ty: schema.columns[i].ty,
                    },
                );
            }
            i = i + 1;
        }
        Err(AnalyseError::UnknownColumn { table: table.to_owned(), column: key })
    }

    /// Recursively binds an [`Expr`] tree, resolving column names and
    /// rejecting statically detectable type errors along the way.
    /// `allow_columns` is `false` only for `INSERT ... VALUES`, the one
    /// context with no row to resolve a column reference against.
    pub fn bind_expr(&self, expr: &Expr, schema: &TableSchema, table: &str, allow_columns: bool) -> (r:
        Result<BoundExpr, AnalyseError>)
        ensures
            bound_result_view(r) == bind_spec(schema@, table@, allow_columns, expr@),
        decreases expr,
    {
        match expr {
            Expr::Column(name) => {
                if !allow_columns {
                    return Err(AnalyseError::ColumnInValues { name: name.clone() });
                }
                let bound = self.resolve_column(schema, table, name.as_str())?;
                Ok(BoundExpr::Column { name: bound.name, index: bound.index, ty: bound.ty })
            },
            Expr::Literal(value) => Ok(BoundExpr::Literal(value.duplicate())),
            Expr::Not(inner) => {
                let inner = self.bind_expr(inner, schema, table, allow_columns)?;
                match inner.static_type() {
                    Some(DataType::Boolean) | None => {},
                    Some(other) => {
                        return Err(type_mismatch("BOOLEAN".to_owned(), datatype_label_of(other)));
                    },
                }
                Ok(BoundExpr::Not(Box::new(inner)))
            },
            Expr::Neg(inner) => {
                let inner = self.bind_expr(inner, schema, table, allow_columns)?;
                match inner.static_type() {
                    Some(DataType::Integer) | Some(DataType::Float) | None => {},
                    Some(other) => {
                        return Err(
                            type_mismatch("a numeric type".to_owned(), datatype_label_of(other)),
                        );
                    },
                }
                Ok(BoundExpr::Neg(Box::new(inner)))
            },
            Expr::BinaryOp { left, op, right } => {
                let left = self.bind_expr(left, schema, table, allow_columns)?;
                let right = self.bind_expr(right, schema, table, allow_columns)?;
                check_binary_op_types(*op, &left, &right)?;
                Ok(BoundExpr::BinaryOp { left: Box::new(left), op: *op, right: Box::new(right) })
            },
            Expr::IsNull { expr, negated } => {
                let inner = self.bind_expr(expr, schema, table, allow_columns)?;
                Ok(BoundExpr::IsNull { expr: Box::new(inner), negated: *negated })
            },
        }
    }

    fn bind_filter(&self, filter: &Option<Expr>, schema: &TableSchema, table: &str) -> (r: Result<
        Option<BoundExpr>,
        AnalyseError,
    >)
        ensures
            match r {
                Ok(f) => bind_filter_spec(schema@, table@, crate::parser::ast::opt_expr_view(*filter))
                    == Ok::<Option<BoundExprV>, AnalyseErrorV>(bound::opt_bound_expr_view(f)),
                Err(e) => bind_filter_spec(
                    schema@,
                    table@,
                    crate::parser::ast::opt_expr_view(*filter),
                ) == Err::<Option<BoundExprV>, AnalyseErrorV>(e@),
            },
    {
        match filter {
            None => Ok(None),
            Some(e) => {
                let b = self.bind_expr(e, schema, table, true)?;
                Ok(Some(b))
            },
        }
    }

    fn analyse_select(&self, stmt: SelectStatement) -> (r: Result<BoundStatement, AnalyseError>)
        requires
            self.catalog().wf(),
        ensures
            statement_result_view(r) == analyse_select_spec(self.catalog()@, stmt@),
    {
        let schema = self.schema_for(stmt.table.as_str())?;
        let ghost cols = schema@;
        let mut columns: Vec<BoundColumn> = Vec::new();
        match &stmt.columns {
            SelectColumns::All => {
                let mut i: usize = 0;
                while i < schema.columns.len()
                    invariant
                        i <= schema.columns@.len(),
                        cols == schema@,
                cols == self.catalog()@[stmt.table@],
                self.catalog()@.contains_key(stmt.table@),
                        columns@.len() == i,
                        forall|k: int| 0 <= k < i ==> #[trigger] columns@[k]@ == all_columns_spec(
                            cols,
                        )[k],
                    decreases schema.columns.len() - i,
                {
                    columns.push(
                        BoundColumn {
                            name: schema.columns[i].name.clone(),
                            index: i,
                            ty: schema.columns[i].ty,
                        },
                    );
                    i = i + 1;
                }
                assert(bound_columns_view(columns@) =~= all_columns_spec(cols));
            },
            SelectColumns::List(names) => {
                let ghost nv = strings_view(names@);
                let ghost f = resolver(cols, stmt.table@);
                let mut i: usize = 0;
                assert(nv.take(0) =~= Seq::<Seq<char>>::empty());
                assert(bound_columns_view(columns@) =~= Seq::<BoundColumnV>::empty());
                while i < names.len()
                    invariant
                        i <= names@.len(),
                        cols == schema@,
                cols == self.catalog()@[stmt.table@],
                self.catalog()@.contains_key(stmt.table@),
                        nv == strings_view(names@),
                        stmt@.columns == SelectColumns::<Seq<Seq<char>>>::List(nv),
                        f == resolver(cols, stmt.table@),
                        try_map(nv.take(i as int), f) == Ok::<Seq<BoundColumnV>, AnalyseErrorV>(
                            bound_columns_view(columns@),
                        ),
                    decreases names.len() - i,
                {
                    proof {
                        lemma_try_map_step(nv, f, i as int);
                        assert(nv[i as int] == names@[i as int]@);
                        assert(f(nv[i as int]) == resolve_column_spec(
                            cols,
                            stmt.table@,
                            names@[i as int]@,
                        ));
                    }
                    let c = match self.resolve_column(schema, stmt.table.as_str(), names[i].as_str()) {
                        Ok(c) => c,
                        Err(e) => {
                            proof {
                                lemma_try_map_prefix_err(nv, f, i + 1);
                            }
                            return Err(e);
                        },
                    };
                    let ghost before = columns@;
                    columns.push(c);
                    i = i + 1;
                    assert(bound_columns_view(columns@) =~= bound_columns_view(before).push(c@));
                }
                assert(nv.take(i as int) =~= nv);
            },
        }
        let filter = self.bind_filter(&stmt.filter, schema, stmt.table.as_str())?;
        Ok(BoundStatement::Select(BoundSelect { table: stmt.table, columns, filter }))
    }

    fn analyse_insert(&self, stmt: InsertStatement) -> (r: Result<BoundStatement, AnalyseError>)
        requires
            self.catalog().wf(),
        ensures
            statement_result_view(r) == analyse_insert_spec(self.catalog()@, stmt@),
    {
        let schema = self.schema_for(stmt.table.as_str())?;
        let ghost cols = schema@;
        if stmt.values.len() != schema.columns.len() {
            return Err(
                AnalyseError::ValueCountMismatch {
                    table: stmt.table.clone(),
                    expected: schema.columns.len(),
                    found: stmt.values.len(),
                },
            );
        }
        // `false`: a VALUES clause has no source row to resolve a column
        // reference against.
        let mut values: Vec<BoundExpr> = Vec::new();
        let ghost sv = exprs_view(stmt.values@);
        let ghost f = binder(cols, stmt.table@, false);
        let mut i: usize = 0;
        assert(sv.take(0) =~= Seq::<ExprV>::empty());
        assert(bound_exprs_view(values@) =~= Seq::<BoundExprV>::empty());
        while i < stmt.values.len()
            invariant
                i <= stmt.values@.len(),
                cols == schema@,
                cols == self.catalog()@[stmt.table@],
                self.catalog()@.contains_key(stmt.table@),
                sv == exprs_view(stmt.values@),
                sv.len() == cols.len(),
                f == binder(cols, stmt.table@, false),
                values@.len() == i,
                try_map(sv.take(i as int), f) == Ok::<Seq<BoundExprV>, AnalyseErrorV>(
                    bound_exprs_view(values@),
                ),
            decreases stmt.values.len() - i,
        {
            proof {
                lemma_try_map_step(sv, f, i as int);
                assert(sv[i as int] == stmt.values@[i as int]@);
                assert(f(sv[i as int]) == bind_spec(cols, stmt.table@, false, stmt.values@[i as int]@));
            }
            let b = match self.bind_expr(&stmt.values[i], schema, stmt.table.as_str(), false) {
                Ok(b) => b,
                Err(e) => {
                    proof {
                        lemma_try_map_prefix_err(sv, f, i + 1);
                    }
                    return Err(e);
                },
            };
            let ghost before = values@;
            values.push(b);
            i = i + 1;
            assert(bound_exprs_view(values@) =~= bound_exprs_view(before).push(b@));
        }
        assert(sv.take(i as int) =~= sv);
        let ghost bv = bound_exprs_view(values@);
        let ghost g = insert_checker(cols, bv);
        let mut j: usize = 0;
        while j < values.len()
            invariant
                j <= values@.len(),
                values@.len() == cols.len(),
                cols == schema@,
                cols == self.catalog()@[stmt.table@],
                self.catalog()@.contains_key(stmt.table@),
                bv == bound_exprs_view(values@),
                g == insert_checker(cols, bv),
                sv == exprs_view(stmt.values@),
                sv.len() == cols.len(),
                try_map(sv, binder(cols, stmt.table@, false)) == Ok::<Seq<BoundExprV>, AnalyseErrorV>(bv),
                try_each(j as nat, g) == Ok::<(), AnalyseErrorV>(()),
            decreases values.len() - j,
        {
            let col = &schema.columns[j];
            proof {
                assert(g(j as int) == spec::insert_value_check(cols, bv, j as int));
                assert(bv[j as int] == values@[j as int]@);
                assert(cols[j as int] == col@);
            }
            if let Some(found) = values[j].static_type() {
                if found != col.ty {
                    proof {
                        lemma_try_each_prefix_err(bv.len(), g, (j + 1) as nat);
                    }
                    return Err(
                        type_mismatch(
                            column_expectation_of(col.ty, &col.name),
                            datatype_label_of(found),
                        ),
                    );
                }
            }
            j = j + 1;
        }
        Ok(BoundStatement::Insert(BoundInsert { table: stmt.table, values }))
    }

    fn bind_assignment(&self, name: &String, expr: &Expr, schema: &TableSchema, table: &str) -> (r:
        Result<(BoundColumn, BoundExpr), AnalyseError>)
        ensures
            match r {
                Ok(a) => bind_assignment_spec(schema@, table@, (name@, expr@)) == Ok::<
                    (BoundColumnV, BoundExprV),
                    AnalyseErrorV,
                >((a.0@, a.1@)),
                Err(e) => bind_assignment_spec(schema@, table@, (name@, expr@)) == Err::<
                    (BoundColumnV, BoundExprV),
                    AnalyseErrorV,
                >(e@),
            },
    {
        let column = self.resolve_column(schema, table, name.as_str())?;
        // `true`: SET may read other columns of the row being updated,
        // evaluated by the executor against the row's pre-update values.
        let bound = self.bind_expr(expr, schema, table, true)?;
        if let Some(found) = bound.static_type() {
            if found != column.ty {
                return Err(
                    type_mismatch(
                        column_expectation_of(column.ty, &column.name),
                        datatype_label_of(found),
                    ),
                );
            }
        }
        Ok((column, bound))
    }

    fn analyse_update(&self, stmt: UpdateStatement) -> (r: Result<BoundStatement, AnalyseError>)
        requires
            self.catalog().wf(),
        ensures
            statement_result_view(r) == analyse_update_spec(self.catalog()@, stmt@),
    {
        let schema = self.schema_for(stmt.table.as_str())?;
        let ghost cols = schema@;
        let mut assignments: Vec<(BoundColumn, BoundExpr)> = Vec::new();
        let ghost sv = assignments_view(stmt.assignments@);
        let ghost f = assigner(cols, stmt.table@);
        let mut i: usize = 0;
        assert(sv.take(0) =~= Seq::<(Seq<char>, ExprV)>::empty());
        assert(bound_assignments_view(assignments@) =~= Seq::<(BoundColumnV, BoundExprV)>::empty());
        while i < stmt.assignments.len()
            invariant
                i <= stmt.assignments@.len(),
                cols == schema@,
                cols == self.catalog()@[stmt.table@],
                self.catalog()@.contains_key(stmt.table@),
                sv == assignments_view(stmt.assignments@),
                f == assigner(cols, stmt.table@),
                try_map(sv.take(i as int), f) == Ok::<
                    Seq<(BoundColumnV, BoundExprV)>,
                    AnalyseErrorV,
                >(bound_assignments_view(assignments@)),
            decreases stmt.assignments.len() - i,
        {
            proof {
                lemma_try_map_step(sv, f, i as int);
                let a = stmt.assignments@[i as int];
                assert(sv[i as int] == (a.0@, a.1@));
                assert(f(sv[i as int]) == bind_assignment_spec(cols, stmt.table@, (a.0@, a.1@)));
            }
            let a = match self.bind_assignment(
                &stmt.assignments[i].0,
                &stmt.assignments[i].1,
                schema,
                stmt.table.as_str(),
            ) {
                Ok(a) => a,
                Err(e) => {
                    proof {
                        lemma_try_map_prefix_err(sv, f, i + 1);
                    }
                    return Err(e);
                },
            };
            let ghost av = (a.0@, a.1@);
            let ghost before = assignments@;
            assignments.push(a);
            i = i + 1;
            assert(bound_assignments_view(assignments@) =~= bound_assignments_view(before).push(av));
        }
        assert(sv.take(i as int) =~= sv);
        let filter = self.bind_filter(&stmt.filter, schema, stmt.table.as_str())?;
        Ok(BoundStatement::Update(BoundUpdate { table: stmt.table, assignments, filter }))
    }

    fn analyse_delete(&self, stmt: DeleteStatement) -> (r: Result<BoundStatement, AnalyseError>)
        requires
            self.catalog().wf(),
        ensures
            statement_result_view(r) == analyse_delete_spec(self.catalog()@, stmt@),
    {
        let schema = self.schema_for(stmt.table.as_str())?;
        let filter = self.bind_filter(&stmt.filter, schema, stmt.table.as_str())?;
        Ok(BoundStatement::Delete(BoundDelete { table: stmt.table, filter }))
    }

    /// `CREATE TABLE` has no existing schema to bind against. Checked
    /// instead: the table does not already exist (registering would
    /// silently overwrite it otherwise), and no column name is declared
    /// twice.
    fn analyse_create_table(&self, stmt: CreateTableStatement) -> (r: Result<
        BoundStatement,
        AnalyseError,
    >)
        requires
            self.catalog().wf(),
        ensures
            statement_result_view(r) == analyse_create_table_spec(self.catalog()@, stmt@),
    {
        if self.catalog.has_table(stmt.table.as_str()) {
            return Err(AnalyseError::TableAlreadyExists { name: stmt.table.clone() });
        }
        let ghost decls = crate::parser::ast::column_decls_view(stmt.columns@);
        let mut i: usize = 0;
        while i < stmt.columns.len()
            invariant
                i <= stmt.columns@.len(),
                decls == crate::parser::ast::column_decls_view(stmt.columns@),
                !self.catalog()@.contains_key(stmt.table@),
                first_duplicate(decls.take(i as int)) is None,
            decreases stmt.columns.len() - i,
        {
            proof {
                assert(decls.take(i + 1).drop_last() =~= decls.take(i as int));
            }
            let mut j: usize = 0;
            while j < i
                invariant
                    j <= i < stmt.columns@.len(),
                    decls == crate::parser::ast::column_decls_view(stmt.columns@),
                    !self.catalog()@.contains_key(stmt.table@),
                    first_duplicate(decls.take(i as int)) is None,
                    forall|k: int| 0 <= k < j ==> #[trigger] decls[k].name != decls[i as int].name,
                decreases i - j,
            {
                if stmt.columns[j].name == stmt.columns[i].name {
                    proof {
                        let t = decls.take(i + 1);
                        assert(t[j as int].name == t.last().name);
                        assert(t.drop_last() =~= decls.take(i as int));
                        lemma_first_duplicate_prefix(decls, i + 1);
                        assert(t.last() == decls[i as int]);
                    }
                    return Err(AnalyseError::DuplicateColumn { name: stmt.columns[i].name.clone() });
                }
                j = j + 1;
            }
            proof {
                let t = decls.take(i + 1);
                assert forall|k: int| 0 <= k < t.len() - 1 implies #[trigger] t[k].name
                    != t.last().name by {
                    assert(t[k] == decls[k]);
                }
            }
            i = i + 1;
        }
        assert(decls.take(i as int) =~= decls);
        Ok(BoundStatement::CreateTable(stmt))
    }
}

} // verus!
