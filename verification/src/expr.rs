//! Scalar expressions, identifiers and evaluation errors.

use vstd::prelude::*;

use crate::assoc::AssocKey;
use crate::value::{ConcreteDataType, Value};

verus! {

/// Identifier of a source, sink or intermediate collection, stable across a
/// dataflow.
#[derive(Debug, Clone, Copy, PartialEq, Eq, Structural)]
pub enum GlobalId {
    System(u64),
    User(u64),
}

impl View for GlobalId {
    type V = GlobalId;

    open spec fn view(&self) -> GlobalId {
        *self
    }
}

impl AssocKey for GlobalId {
    fn key_eq(&self, other: &Self) -> (r: bool) {
        *self == *other
    }
}

/// Identifier introduced by a let-style binding, local to one render scope.
#[derive(Debug, Clone, Copy, PartialEq, Eq, Structural)]
pub struct LocalId(pub u64);

/// Errors raised while evaluating expressions or updating operator state.
#[derive(Debug, Clone, PartialEq, Eq)]
pub enum EvalError {
    /// A value's type disagrees with what the operation expects.
    TypeMismatch { expected: ConcreteDataType, actual: ConcreteDataType },
    /// An internal invariant was violated.
    Internal { reason: String },
    /// A record arrived after its key's expiry; `late_by` is in milliseconds.
    LateDataDiscarded { late_by: u64 },
    /// A state value could not be read back as the expected type.
    TryFromValue { msg: String },
}

/// A scalar expression applied to a row.
#[derive(Debug, Clone, PartialEq, Eq, Structural)]
pub enum ScalarExpr {
    /// The value of the column at the given index.
    Column(usize),
    /// A constant of the given type.
    Literal(Value, ConcreteDataType),
}

impl ScalarExpr {
    /// Shorthand for a literal expression.
    pub fn literal(v: Value, t: ConcreteDataType) -> (r: ScalarExpr)
        ensures
            r == ScalarExpr::Literal(v, t),
    {
        ScalarExpr::Literal(v, t)
    }

    /// Whether the expression can be evaluated on a row of the given content.
    pub open spec fn spec_applies_to(self, row: Seq<Value>) -> bool {
        match self {
            ScalarExpr::Column(i) => i < row.len(),
            ScalarExpr::Literal(_, _) => true,
        }
    }

    /// The value of the expression on a row it applies to.
    pub open spec fn spec_eval(self, row: Seq<Value>) -> Value
        recommends
            self.spec_applies_to(row),
    {
        match self {
            ScalarExpr::Column(i) => row[i as int],
            ScalarExpr::Literal(v, _) => v,
        }
    }

    /// Evaluate the expression on a row.
    pub fn eval(&self, values: &Vec<Value>) -> (r: Value)
        requires
            self.spec_applies_to(values@),
        ensures
            r == self.spec_eval(values@),
    {
        match self {
            ScalarExpr::Column(i) => values[*i],
            ScalarExpr::Literal(v, _) => *v,
        }
    }
}

} // verus!
