//! BasaltSQL: a small SQL engine with a defined pipeline: lexer, parser,
//! analyser (binder), executor and in-memory storage, behind
//! [`db::Database`].

pub mod types;
pub mod lexer;
pub mod parser;
pub mod entries;
pub mod catalog;
pub mod storage;
pub mod analyser;
pub mod executor;
pub mod text;
pub mod error;
pub mod db;

pub use error::{Error, Result};

use vstd::prelude::*;

verus! {

/// The version of the basaltsql crate.
pub const VERSION: &'static str = "0.1.0";

} // verus!
