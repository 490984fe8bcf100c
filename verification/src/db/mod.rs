//! Database: owns a catalog and its row storage for a process's lifetime
//! and runs the whole pipeline (lex, parse, analyse, execute) on SQL text.
//! The crate's main entry point.

pub mod consistency;
pub mod laws;

use vstd::prelude::*;

use self::consistency::{
    consistent, lemma_analysed_statement_fits, lemma_execute_keeps_consistent,
    lemma_execute_keeps_not_null, not_null_respected,
};
use crate::analyser::spec::analyse_spec;
use crate::analyser::{statement_result_view, Analyser};
use crate::catalog::{Catalog, CatalogV};
use crate::error::{Error, ErrorV};
use crate::executor::spec::{execute_spec, ExecResult, ExecResultV};
use crate::executor::{exec_result_view, Executor};
use crate::lexer::spec::{lemma_lex_ends_with_eof, lex_from};
use crate::lexer::token::{tokens_view, Token, TokenV};
use crate::lexer::{lex_result_view, Lexer};
use crate::parser::ast::{statements_view, StatementV};
use crate::parser::spec::{parse_statements_spec, well_terminated};
use crate::parser::statement::statements_result_view;
use crate::parser::{Parser, Statement};
use crate::storage::{Storage, StorageV};
use crate::types::{float_semantics, float_unit_ok, FloatOp, FloatSemantics};

verus! {

/// The state of a database: its catalog and its storage.
pub type DatabaseV = (CatalogV, StorageV);

/// The results of a batch and the state it leaves.
pub type BatchOutcome = (Result<Seq<ExecResultV>, ErrorV>, CatalogV, StorageV);

/// Running analysed-and-executed statements in order, after the results
/// `done` of earlier ones: each statement is bound against the catalog
/// as the earlier ones left it. The first failure stops the batch; what
/// earlier statements did stays done.
pub open spec fn run_statements_spec(
    fl: FloatSemantics,
    cat: CatalogV,
    sto: StorageV,
    stmts: Seq<StatementV>,
    done: Seq<ExecResultV>,
) -> BatchOutcome
    decreases stmts.len(),
{
    if stmts.len() == 0 {
        (Ok(done), cat, sto)
    } else {
        match analyse_spec(cat, stmts[0]) {
            Err(e) => (Err(Error::Analyse(e)), cat, sto),
            Ok(b) => {
                let out = execute_spec(fl, cat, sto, b);
                match out.0 {
                    Err(e) => (Err(Error::Exec(e)), out.1, out.2),
                    Ok(x) => run_statements_spec(fl, out.1, out.2, stmts.drop_first(), done.push(x)),
                }
            },
        }
    }
}

/// Running a token stream: parse it, then run its statements.
pub open spec fn run_tokens_spec(fl: FloatSemantics, cat: CatalogV, sto: StorageV, ts: Seq<TokenV>) -> BatchOutcome {
    match parse_statements_spec(fl, ts, 0, seq![]) {
        Err(e) => (Err(Error::Parse(e)), cat, sto),
        Ok(stmts) => run_statements_spec(fl, cat, sto, stmts, seq![]),
    }
}

/// Running SQL text: lex, parse, then run the statements in order.
pub open spec fn run_sql_spec(fl: FloatSemantics, cat: CatalogV, sto: StorageV, sql: Seq<char>) -> BatchOutcome {
    match lex_from(sql, 0) {
        Ok(ts) => run_tokens_spec(fl, cat, sto, ts),
        Err(e) => (Err(Error::Lex(e)), cat, sto),
    }
}

/// Running the first statement of SQL text: lex and parse all of it, then
/// analyse and execute its first statement only. The statements after it
/// are neither analysed nor executed.
pub open spec fn run_first_sql_spec(fl: FloatSemantics, cat: CatalogV, sto: StorageV, sql: Seq<char>) -> BatchOutcome {
    match lex_from(sql, 0) {
        Ok(ts) => match parse_statements_spec(fl, ts, 0, seq![]) {
            Err(e) => (Err(Error::Parse(e)), cat, sto),
            Ok(stmts) => run_statements_spec(
                fl,
                cat,
                sto,
                if stmts.len() == 0 {
                    stmts
                } else {
                    seq![stmts[0]]
                },
                seq![],
            ),
        },
        Err(e) => (Err(Error::Lex(e)), cat, sto),
    }
}

/// The view of a batch result.
pub open spec fn batch_view(r: Result<Vec<ExecResult>, Error>) -> Result<Seq<ExecResultV>, ErrorV> {
    match r {
        Ok(v) => Ok(v@.map_values(|x: ExecResult| x@)),
        Err(e) => Err(e@),
    }
}

/// The first result of a batch, as [`Database::execute`] gives it.
pub open spec fn first_result(r: Result<Seq<ExecResultV>, ErrorV>) -> Result<Option<ExecResultV>, ErrorV> {
    match r {
        Ok(rs) => Ok(
            if rs.len() == 0 {
                None
            } else {
                Some(rs[0])
            },
        ),
        Err(e) => Err(e),
    }
}

/// The view of [`Database::execute`]'s result.
pub open spec fn single_view(r: Result<Option<ExecResult>, Error>) -> Result<Option<ExecResultV>, ErrorV> {
    match r {
        Ok(Some(x)) => Ok(Some(x@)),
        Ok(None) => Ok(None),
        Err(e) => Err(e@),
    }
}

/// Owns a catalog and its row storage, plus the float unit that gives
/// FLOAT arithmetic its meaning, and runs SQL text against them.
pub struct Database<F> {
    executor: Executor,
    floats: F,
}

impl<F: Fn(FloatOp) -> Option<u64>> Database<F> {
    /// The schemas of the tables.
    pub closed spec fn catalog_view(&self) -> CatalogV {
        self.executor.catalog_view()
    }

    /// The rows of the tables.
    pub closed spec fn storage_view(&self) -> StorageV {
        self.executor.storage_view()
    }

    /// The meaning of FLOAT operations.
    pub closed spec fn float_unit(&self) -> FloatSemantics {
        float_semantics(self.floats)
    }

    /// The executor's halves are well formed and agree (see
    /// [`consistent`]), no `NOT NULL` column holds NULL, and the float
    /// unit answers as a float unit must.
    pub closed spec fn wf(&self) -> bool {
        &&& self.executor.wf()
        &&& float_unit_ok(self.floats)
        &&& consistent(self.catalog_view(), self.storage_view())
        &&& not_null_respected(self.catalog_view(), self.storage_view())
    }

    /// What every database keeps between statements: catalog and storage
    /// agree, and no `NOT NULL` column holds NULL.
    pub proof fn lemma_invariants(&self)
        requires
            self.wf(),
        ensures
            consistent(self.catalog_view(), self.storage_view()),
            not_null_respected(self.catalog_view(), self.storage_view()),
    {
    }

    /// An empty database computing FLOAT arithmetic with `floats`.
    pub fn new(floats: F) -> (r: Self)
        requires
            float_unit_ok(floats),
        ensures
            r.wf(),
            r.catalog_view() == Map::<Seq<char>, crate::catalog::SchemaV>::empty(),
            r.storage_view() == Map::<Seq<char>, Seq<crate::types::RowV>>::empty(),
            r.float_unit() == float_semantics(floats),
    {
        let executor = Executor::new(Catalog::new(), Storage::new());
        Database { executor, floats }
    }

    /// Read access to the current schema.
    pub fn catalog(&self) -> (r: &Catalog)
        ensures
            r@ == self.catalog_view(),
            self.wf() ==> r.wf(),
    {
        self.executor.catalog()
    }

    /// Runs every `;`-separated statement in `sql`, in order, stopping at
    /// the first error. Statements applied before that error stay applied;
    /// the failing statement itself changes nothing.
    pub fn execute_all(&mut self, sql: &str) -> (r: Result<Vec<ExecResult>, Error>)
        requires
            old(self).wf(),
        ensures
            final(self).wf(),
            final(self).float_unit() == old(self).float_unit(),
            (batch_view(r), final(self).catalog_view(), final(self).storage_view()) == run_sql_spec(
                old(self).float_unit(),
                old(self).catalog_view(),
                old(self).storage_view(),
                sql@,
            ),
    {
        let lexer = Lexer::new(sql);
        match lexer.tokenise() {
            Err(e) => Err(Error::Lex(e)),
            Ok(tokens) => {
                proof {
                    lemma_lex_ends_with_eof(sql@, 0);
                }
                self.run_tokens(tokens)
            },
        }
    }

    /// Runs a single statement end to end: lex and parse `sql`, then
    /// analyse and execute its first statement. `Ok(None)` when `sql`
    /// holds no statement. Statements after the first are not run; see
    /// [`Database::execute_all`] for a batch.
    pub fn execute(&mut self, sql: &str) -> (r: Result<Option<ExecResult>, Error>)
        requires
            old(self).wf(),
        ensures
            final(self).wf(),
            final(self).float_unit() == old(self).float_unit(),
            ({
                let out = run_first_sql_spec(
                    old(self).float_unit(),
                    old(self).catalog_view(),
                    old(self).storage_view(),
                    sql@,
                );
                &&& single_view(r) == first_result(out.0)
                &&& final(self).catalog_view() == out.1
                &&& final(self).storage_view() == out.2
            }),
    {
        let lexer = Lexer::new(sql);
        let tokens = match lexer.tokenise() {
            Err(e) => {
                return Err(Error::Lex(e));
            },
            Ok(tokens) => tokens,
        };
        proof {
            lemma_lex_ends_with_eof(sql@, 0);
        }
        let parser = Parser::new(tokens);
        let mut statements = match parser.parse(&self.floats) {
            Ok(s) => s,
            Err(e) => {
                return Err(Error::Parse(e));
            },
        };
        let ghost all = statements@;
        statements.truncate(1);
        proof {
            if all.len() == 0 {
                assert(statements_view(statements@) =~= statements_view(all));
            } else {
                assert(statements_view(statements@) =~= seq![statements_view(all)[0]]);
            }
        }
        let r = self.run_statements(statements);
        first_of(r)
    }

    /// Parses `tokens` and runs the statements.
    fn run_tokens(&mut self, tokens: Vec<Token>) -> (r: Result<Vec<ExecResult>, Error>)
        requires
            old(self).wf(),
            well_terminated(tokens_view(tokens@)),
        ensures
            final(self).wf(),
            final(self).float_unit() == old(self).float_unit(),
            (batch_view(r), final(self).catalog_view(), final(self).storage_view()) == run_tokens_spec(
                old(self).float_unit(),
                old(self).catalog_view(),
                old(self).storage_view(),
                tokens_view(tokens@),
            ),
    {
        let parser = Parser::new(tokens);
        let statements = match parser.parse(&self.floats) {
            Ok(s) => s,
            Err(e) => {
                return Err(Error::Parse(e));
            },
        };
        self.run_statements(statements)
    }

    /// Analyses and executes `statements` in order, stopping at the first
    /// failure.
    fn run_statements(&mut self, statements: Vec<Statement>) -> (r: Result<Vec<ExecResult>, Error>)
        requires
            old(self).wf(),
        ensures
            final(self).wf(),
            final(self).float_unit() == old(self).float_unit(),
            (batch_view(r), final(self).catalog_view(), final(self).storage_view())
                == run_statements_spec(
                old(self).float_unit(),
                old(self).catalog_view(),
                old(self).storage_view(),
                statements_view(statements@),
                seq![],
            ),
    {
        let ghost fl = self.float_unit();
        let ghost start = (old(self).catalog_view(), old(self).storage_view());
        let mut remaining = statements;
        let mut results: Vec<ExecResult> = Vec::new();
        assert(results@.map_values(|x: ExecResult| x@) =~= Seq::<ExecResultV>::empty());
        while remaining.len() > 0
            invariant
                self.wf(),
                self.float_unit() == fl,
                fl == old(self).float_unit(),
                start == (old(self).catalog_view(), old(self).storage_view()),
                run_statements_spec(fl, start.0, start.1, statements_view(statements@), seq![])
                    == run_statements_spec(
                    fl,
                    self.catalog_view(),
                    self.storage_view(),
                    statements_view(remaining@),
                    results@.map_values(|x: ExecResult| x@),
                ),
            decreases remaining.len(),
        {
            let ghost rest = statements_view(remaining@);
            let ghost all = remaining@;
            let statement = remaining.remove(0);
            assert(statement == all[0]);
            assert(statement@ == rest[0]);
            assert(statements_view(remaining@) =~= rest.drop_first());
            let ghost cat = self.catalog_view();
            let ghost sto = self.storage_view();
            let catalog = self.executor.catalog();
            proof {
                catalog.lemma_schema_sizes();
            }
            let bound = match Analyser::new(catalog).analyse(statement) {
                Ok(b) => b,
                Err(e) => {
                    return Err(Error::Analyse(e));
                },
            };
            proof {
                lemma_analysed_statement_fits(cat, sto, rest[0]);
                lemma_execute_keeps_consistent(fl, cat, sto, rest[0]);
                lemma_execute_keeps_not_null(fl, cat, sto, rest[0]);
            }
            match self.executor.execute(bound, &self.floats) {
                Ok(x) => {
                    let ghost before = results@.map_values(|x: ExecResult| x@);
                    let ghost xv = x@;
                    results.push(x);
                    assert(results@.map_values(|x: ExecResult| x@) =~= before.push(xv));
                },
                Err(e) => {
                    return Err(Error::Exec(e));
                },
            }
        }
        Ok(results)
    }
}

/// The first result of a batch.
fn first_of(r: Result<Vec<ExecResult>, Error>) -> (s: Result<Option<ExecResult>, Error>)
    ensures
        single_view(s) == first_result(batch_view(r)),
{
    match r {
        Ok(results) => {
            let mut results = results;
            if results.len() == 0 {
                Ok(None)
            } else {
                let ghost v = results@;
                let x = results.remove(0);
                assert(x == v[0]);
                Ok(Some(x))
            }
        },
        Err(e) => Err(e),
    }
}

} // verus!
