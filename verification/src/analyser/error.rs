//! Analyser-specific error type.

use vstd::prelude::*;

verus! {

/// All ways binding a parsed statement against a catalog can fail. These
/// carry table and column names as context rather than byte offsets.
#[derive(Debug, PartialEq, Clone)]
pub enum AnalyseError<S = String> {
    /// `FROM`/`INTO`/`UPDATE` referenced a table that is not registered.
    UnknownTable { name: S },
    /// `CREATE TABLE` named a table that is already registered.
    TableAlreadyExists { name: S },
    /// An expression, `SELECT` list, or `SET` clause referenced a column
    /// that does not exist on the table being queried.
    UnknownColumn { table: S, column: S },
    /// A `CREATE TABLE` column list named the same column twice.
    DuplicateColumn { name: S },
    /// `INSERT ... VALUES` supplied a different number of values than the
    /// table has columns.
    ValueCountMismatch { table: S, expected: usize, found: usize },
    /// An expression's statically determined type does not fit where it
    /// is used. NULL literals are exempt.
    TypeMismatch { expected: S, found: S },
    /// `INSERT ... VALUES` referenced a column by name.
    ColumnInValues { name: S },
}

pub type AnalyseErrorV = AnalyseError<Seq<char>>;

impl View for AnalyseError {
    type V = AnalyseErrorV;

    open spec fn view(&self) -> AnalyseErrorV {
        match self {
            AnalyseError::UnknownTable { name } => AnalyseError::UnknownTable { name: name@ },
            AnalyseError::TableAlreadyExists { name } => AnalyseError::TableAlreadyExists {
                name: name@,
            },
            AnalyseError::UnknownColumn { table, column } => AnalyseError::UnknownColumn {
                table: table@,
                column: column@,
            },
            AnalyseError::DuplicateColumn { name } => AnalyseError::DuplicateColumn { name: name@ },
            AnalyseError::ValueCountMismatch { table, expected, found } =>
                AnalyseError::ValueCountMismatch { table: table@, expected: *expected, found: *found },
            AnalyseError::TypeMismatch { expected, found } => AnalyseError::TypeMismatch {
                expected: expected@,
                found: found@,
            },
            AnalyseError::ColumnInValues { name } => AnalyseError::ColumnInValues { name: name@ },
        }
    }
}

} // verus!
