//! Core value types shared by every pipeline stage: column types,
//! runtime values and rows, plus the interface through which the
//! pipeline obtains IEEE-754 double arithmetic.
//!
//! Values of SQL type FLOAT are carried as the bit pattern of an IEEE-754
//! binary64 number. Everything that is determined by the bits alone
//! (sign, zero test, negation, ordering, NaN detection) is computed here.
//! Rounded arithmetic, decimal parsing and integer-to-double conversion
//! are requested from a caller-supplied float unit (see [`FloatOp`]).

use vstd::prelude::*;
use vstd::std_specs::cmp::{PartialEqSpec, PartialEqSpecImpl};

verus! {

/// The declared type of a column.
#[derive(Debug, Clone, Copy, PartialEq, Eq, Structural)]
pub enum DataType {
    Integer,
    Float,
    Text,
    Boolean,
}

impl View for DataType {
    type V = DataType;

    open spec fn view(&self) -> DataType {
        *self
    }
}

/// A runtime value. `Float` holds the IEEE-754 binary64 bit pattern of
/// the number (what `f64::to_bits` gives). `S` is the text type: `String`
/// for executable values, `Seq<char>` for their mathematical view.
///
/// `==` compares FLOATs as IEEE-754 does: a NaN equals nothing, itself
/// included, and the two zeros are equal.
#[derive(Debug, Clone)]
pub enum Value<S = String> {
    Integer(i64),
    Float(u64),
    Text(S),
    Boolean(bool),
    Null,
}

/// The mathematical view of a [`Value`].
pub type ValueV = Value<Seq<char>>;

/// The mathematical view of a [`Row`]: its values, in column order.
pub type RowV = Seq<ValueV>;

impl View for Value {
    type V = ValueV;

    open spec fn view(&self) -> ValueV {
        match self {
            Value::Integer(n) => Value::Integer(*n),
            Value::Float(b) => Value::Float(*b),
            Value::Text(s) => Value::Text(s@),
            Value::Boolean(b) => Value::Boolean(*b),
            Value::Null => Value::Null,
        }
    }
}

/// IEEE-754 equality of two binary64 patterns: neither is a NaN and they
/// denote the same number (so `-0.0` equals `0.0`).
pub open spec fn f64_ieee_eq(a: u64, b: u64) -> bool {
    !f64_is_nan(a) && !f64_is_nan(b) && f64_order_key(a) == f64_order_key(b)
}

pub fn f64_bits_ieee_eq(a: u64, b: u64) -> (r: bool)
    ensures
        r == f64_ieee_eq(a, b),
{
    if f64_bits_is_nan(a) || f64_bits_is_nan(b) {
        return false;
    }
    let na = f64_bits_negative(a);
    let nb = f64_bits_negative(b);
    let ma = f64_bits_magnitude(a);
    let mb = f64_bits_magnitude(b);
    if ma == 0 && mb == 0 {
        true
    } else {
        na == nb && ma == mb
    }
}

impl<S: PartialEq + PartialEqSpec> PartialEq for Value<S> {
    fn eq(&self, other: &Self) -> (r: bool) {
        match (self, other) {
            (Value::Integer(a), Value::Integer(b)) => *a == *b,
            (Value::Float(a), Value::Float(b)) => f64_bits_ieee_eq(*a, *b),
            (Value::Text(a), Value::Text(b)) => a == b,
            (Value::Boolean(a), Value::Boolean(b)) => *a == *b,
            (Value::Null, Value::Null) => true,
            _ => false,
        }
    }
}

impl<S: PartialEq + PartialEqSpec> PartialEqSpecImpl for Value<S> {
    open spec fn obeys_eq_spec() -> bool {
        <S as PartialEqSpec>::obeys_eq_spec()
    }

    open spec fn eq_spec(&self, other: &Self) -> bool {
        match (self, other) {
            (Value::Integer(a), Value::Integer(b)) => a == b,
            (Value::Float(a), Value::Float(b)) => f64_ieee_eq(*a, *b),
            (Value::Text(a), Value::Text(b)) => <S as PartialEqSpec>::eq_spec(a, b),
            (Value::Boolean(a), Value::Boolean(b)) => a == b,
            (Value::Null, Value::Null) => true,
            _ => false,
        }
    }
}

impl Value {
    /// A copy of this value with the same view.
    pub fn duplicate(&self) -> (r: Value)
        ensures
            r@ == self@,
    {
        match self {
            Value::Integer(n) => Value::Integer(*n),
            Value::Float(b) => Value::Float(*b),
            Value::Text(s) => Value::Text(s.clone()),
            Value::Boolean(b) => Value::Boolean(*b),
            Value::Null => Value::Null,
        }
    }
}

/// One table row: a value per column, in schema order.
#[derive(Debug, Clone, PartialEq, Default)]
pub struct Row {
    pub values: Vec<Value>,
}

/// The view of a sequence of values.
pub open spec fn values_view(vs: Seq<Value>) -> RowV {
    vs.map_values(|v: Value| v@)
}

impl View for Row {
    type V = RowV;

    open spec fn view(&self) -> RowV {
        values_view(self.values@)
    }
}

/// The view of a sequence of rows.
pub open spec fn rows_view(rows: Seq<Row>) -> Seq<RowV> {
    rows.map_values(|r: Row| r@)
}

impl Row {
    pub fn new(values: Vec<Value>) -> (r: Self)
        ensures
            r.values == values,
    {
        Self { values }
    }

    /// A copy of this row with the same view.
    pub fn duplicate(&self) -> (r: Row)
        ensures
            r@ == self@,
    {
        Row { values: duplicate_values(&self.values) }
    }
}

/// A copy of a vector of values with the same view.
pub fn duplicate_values(vs: &Vec<Value>) -> (r: Vec<Value>)
    ensures
        values_view(r@) == values_view(vs@),
{
    let mut out: Vec<Value> = Vec::new();
    let mut i: usize = 0;
    while i < vs.len()
        invariant
            i <= vs.len(),
            out@.len() == i,
            forall|j: int| 0 <= j < i ==> #[trigger] out@[j]@ == vs@[j]@,
        decreases vs.len() - i,
    {
        out.push(vs[i].duplicate());
        i = i + 1;
    }
    assert(values_view(out@) =~= values_view(vs@));
    out
}

// ---------------------------------------------------------------------
// Double-precision bit patterns
// ---------------------------------------------------------------------

/// The bit of a binary64 pattern that holds the sign.
pub const F64_SIGN_BIT: u64 = 0x8000_0000_0000_0000u64;

/// The pattern of positive infinity; magnitudes above it are NaNs.
pub const F64_INFINITY: u64 = 0x7ff0_0000_0000_0000u64;

/// Whether the sign bit of a binary64 pattern is set.
pub open spec fn f64_negative(b: u64) -> bool {
    b >= F64_SIGN_BIT
}

/// The pattern with the sign bit cleared (the absolute value).
pub open spec fn f64_magnitude(b: u64) -> u64 {
    if f64_negative(b) {
        (b - F64_SIGN_BIT) as u64
    } else {
        b
    }
}

/// NaN: exponent bits all set and a non-zero fraction.
pub open spec fn f64_is_nan(b: u64) -> bool {
    f64_magnitude(b) > F64_INFINITY
}

/// Positive or negative zero.
pub open spec fn f64_is_zero(b: u64) -> bool {
    f64_magnitude(b) == 0
}

/// IEEE-754 negation flips the sign bit (of NaNs too).
pub open spec fn f64_negate(b: u64) -> u64 {
    if f64_negative(b) {
        (b - F64_SIGN_BIT) as u64
    } else {
        (b + F64_SIGN_BIT) as u64
    }
}

/// For non-NaN patterns, the numeric order of the doubles is the order of
/// this key: sign-magnitude patterns are monotone in the magnitude, and
/// both zeros map to 0.
pub open spec fn f64_order_key(b: u64) -> int {
    if f64_negative(b) {
        -(f64_magnitude(b) as int)
    } else {
        f64_magnitude(b) as int
    }
}

pub fn f64_bits_negative(b: u64) -> (r: bool)
    ensures
        r == f64_negative(b),
{
    b >= F64_SIGN_BIT
}

pub fn f64_bits_magnitude(b: u64) -> (r: u64)
    ensures
        r == f64_magnitude(b),
{
    if b >= F64_SIGN_BIT {
        b - F64_SIGN_BIT
    } else {
        b
    }
}

pub fn f64_bits_negate(b: u64) -> (r: u64)
    ensures
        r == f64_negate(b),
{
    if b >= F64_SIGN_BIT {
        b - F64_SIGN_BIT
    } else {
        b + F64_SIGN_BIT
    }
}

pub fn f64_bits_is_zero(b: u64) -> (r: bool)
    ensures
        r == f64_is_zero(b),
{
    f64_bits_magnitude(b) == 0
}

pub fn f64_bits_is_nan(b: u64) -> (r: bool)
    ensures
        r == f64_is_nan(b),
{
    f64_bits_magnitude(b) > F64_INFINITY
}

// ---------------------------------------------------------------------
// The float unit
// ---------------------------------------------------------------------

/// A request to the float unit. Operands and results are binary64 bit
/// patterns. The answers expected are those of Rust's `f64`:
/// `Parse(text)` is `text.parse::<f64>().ok()`, `FromInteger(n)` is
/// `n as f64`, and `Add`/`Sub`/`Mul`/`Div` are the rounded operations.
#[derive(Debug, Clone, PartialEq)]
pub enum FloatOp<S = String> {
    Parse(S),
    FromInteger(i64),
    Add(u64, u64),
    Sub(u64, u64),
    Mul(u64, u64),
    Div(u64, u64),
}

impl View for FloatOp {
    type V = FloatOp<Seq<char>>;

    open spec fn view(&self) -> FloatOp<Seq<char>> {
        match self {
            FloatOp::Parse(s) => FloatOp::Parse(s@),
            FloatOp::FromInteger(n) => FloatOp::FromInteger(*n),
            FloatOp::Add(a, b) => FloatOp::Add(*a, *b),
            FloatOp::Sub(a, b) => FloatOp::Sub(*a, *b),
            FloatOp::Mul(a, b) => FloatOp::Mul(*a, *b),
            FloatOp::Div(a, b) => FloatOp::Div(*a, *b),
        }
    }
}

/// The meaning the pipeline gives to float requests: a function from the
/// view of a request to its answer.
pub type FloatSemantics = spec_fn(FloatOp<Seq<char>>) -> Option<u64>;

/// The NaN pattern the pipeline stores for every NaN result.
pub const F64_CANONICAL_NAN: u64 = 0x7ff8_0000_0000_0000u64;

/// `b`, with every NaN pattern replaced by [`F64_CANONICAL_NAN`]. Rust
/// leaves the sign and payload of a NaN result unspecified; the pipeline
/// keeps only that it is a NaN.
pub open spec fn f64_canonical(b: u64) -> u64 {
    if f64_is_nan(b) {
        F64_CANONICAL_NAN
    } else {
        b
    }
}

/// A float unit's answer with its NaN pattern made canonical.
pub open spec fn canonical_answer(r: Option<u64>) -> Option<u64> {
    match r {
        Some(b) => Some(f64_canonical(b)),
        None => None,
    }
}

/// A float unit can always be asked, answers requests with the same view
/// alike (up to the sign and payload of a NaN), and answers every request
/// other than `Parse`.
pub open spec fn float_unit_ok<F: Fn(FloatOp) -> Option<u64>>(f: F) -> bool {
    &&& forall|q: FloatOp| #[trigger] f.requires((q,))
    &&& forall|q1: FloatOp, q2: FloatOp, r1: Option<u64>, r2: Option<u64>|
        q1@ == q2@ && #[trigger] f.ensures((q1,), r1) && #[trigger] f.ensures((q2,), r2)
            ==> canonical_answer(r1) == canonical_answer(r2)
    &&& forall|q: FloatOp, r: Option<u64>| #[trigger] f.ensures((q,), r) && !(q is Parse) ==> r is Some
}

/// `r` is an answer the unit gives to some request whose view is `q`.
pub open spec fn float_answers<F: Fn(FloatOp) -> Option<u64>>(
    f: F,
    q: FloatOp<Seq<char>>,
    r: Option<u64>,
) -> bool {
    exists|qe: FloatOp| qe@ == q && #[trigger] f.ensures((qe,), r)
}

/// The semantics of a float unit: its answers, with NaN patterns made
/// canonical.
pub open spec fn float_semantics<F: Fn(FloatOp) -> Option<u64>>(f: F) -> FloatSemantics {
    |q: FloatOp<Seq<char>>| canonical_answer(choose|r: Option<u64>| #[trigger] float_answers(f, q, r))
}

/// Asks the float unit; the answer is the one its semantics gives: a NaN
/// result comes back as [`F64_CANONICAL_NAN`].
pub fn ask_float<F: Fn(FloatOp) -> Option<u64>>(f: &F, q: FloatOp) -> (r: Option<u64>)
    requires
        float_unit_ok(*f),
    ensures
        r == float_semantics(*f)(q@),
        !(q@ is Parse) ==> r is Some,
{
    let ghost qv = q@;
    let raw = f(q);
    proof {
        assert(float_answers(*f, qv, raw));
        let c = choose|c: Option<u64>| #[trigger] float_answers(*f, qv, c);
        let qe = choose|qe: FloatOp| qe@ == qv && #[trigger] f.ensures((qe,), c);
        assert(f.ensures((q,), raw));
        assert(canonical_answer(raw) == canonical_answer(c));
    }
    match raw {
        Some(b) => {
            if f64_bits_is_nan(b) {
                Some(F64_CANONICAL_NAN)
            } else {
                Some(b)
            }
        },
        None => None,
    }
}

} // verus!
