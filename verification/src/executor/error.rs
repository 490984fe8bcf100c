//! Executor-specific error type.

use vstd::prelude::*;

use crate::storage::StorageError;

verus! {

/// All ways executing a bound statement can fail: the errors that are
/// only knowable from runtime values.
#[derive(Debug, PartialEq, Clone)]
pub enum ExecError<S = String> {
    /// Integer or float division by zero. Follows standard SQL rather than
    /// IEEE-754: `/` errors on zero for both INTEGER and FLOAT operands.
    DivisionByZero,
    /// INTEGER arithmetic whose exact result does not fit in an `i64`.
    IntegerOverflow,
    /// A NULL written to a column declared `NOT NULL`.
    NotNullViolation { table: S, column: S },
    /// An operand's runtime type did not match what the analyser's static
    /// check guarantees. Unreachable for analysed statements.
    InternalTypeError(S),
    /// Row storage does not hold a table. Unreachable when catalog and
    /// storage are kept in step.
    Storage(StorageError<S>),
}

pub type ExecErrorV = ExecError<Seq<char>>;

impl View for ExecError {
    type V = ExecErrorV;

    open spec fn view(&self) -> ExecErrorV {
        match self {
            ExecError::DivisionByZero => ExecError::DivisionByZero,
            ExecError::IntegerOverflow => ExecError::IntegerOverflow,
            ExecError::NotNullViolation { table, column } => ExecError::NotNullViolation {
                table: table@,
                column: column@,
            },
            ExecError::InternalTypeError(m) => ExecError::InternalTypeError(m@),
            ExecError::Storage(e) => ExecError::Storage(e@),
        }
    }
}

} // verus!
