//! Rows, timestamps and change units.

use vstd::prelude::*;

use crate::assoc::{AssocKey, AssocValue};
use crate::expr::EvalError;
use crate::value::{ConcreteDataType, Value};

verus! {

/// Logical time in milliseconds since the epoch.
pub type Timestamp = i64;

/// Signed multiplicity of a row: positive inserts, negative retracts.
pub type Diff = i64;

/// An ordered sequence of values; equality is by content.
#[derive(Debug, PartialEq, Eq)]
pub struct Row {
    pub inner: Vec<Value>,
}

impl View for Row {
    type V = Seq<Value>;

    open spec fn view(&self) -> Seq<Value> {
        self.inner@
    }
}

impl Row {
    pub fn new(inner: Vec<Value>) -> (r: Row)
        ensures
            r@ == inner@,
    {
        Row { inner }
    }

    pub fn len(&self) -> (r: usize)
        ensures
            r == self@.len(),
    {
        self.inner.len()
    }

    pub fn get(&self, i: usize) -> (r: Option<&Value>)
        ensures
            i < self@.len() ==> r == Some(&self@[i as int]),
            i >= self@.len() ==> r is None,
    {
        if i < self.inner.len() {
            Some(&self.inner[i])
        } else {
            None
        }
    }

    /// Content equality of two rows.
    pub fn eq_row(&self, other: &Row) -> (r: bool)
        ensures
            r == (self@ == other@),
    {
        if self.inner.len() != other.inner.len() {
            proof {
                assert(self@.len() != other@.len());
            }
            return false;
        }
        let n = self.inner.len();
        let mut i: usize = 0;
        while i < n
            invariant
                n == self@.len(),
                n == other@.len(),
                i <= n,
                forall|j: int| 0 <= j < i ==> self@[j] == other@[j],
            decreases n - i,
        {
            if self.inner[i] != other.inner[i] {
                return false;
            }
            i += 1;
        }
        proof {
            assert(self@ =~= other@);
        }
        true
    }

    /// A copy of this row with the same content.
    pub fn duplicate(&self) -> (r: Row)
        ensures
            r@ == self@,
    {
        let mut out: Vec<Value> = Vec::new();
        let n = self.inner.len();
        let mut i: usize = 0;
        while i < n
            invariant
                n == self@.len(),
                i <= n,
                out@ =~= self@.take(i as int),
            decreases n - i,
        {
            out.push(self.inner[i]);
            proof {
                assert(out@ =~= self@.take(i + 1 as int));
            }
            i += 1;
        }
        proof {
            assert(out@ =~= self@);
        }
        Row { inner: out }
    }
}

/// The unit of change flowing through a dataflow.
pub type DiffRow = (Row, Timestamp, Diff);

/// Read an internal timestamp out of a value; only integral timestamps are
/// accepted.
pub open spec fn spec_value_to_internal_ts(v: Value) -> Option<Timestamp> {
    match v {
        Value::Int64(x) => Some(x),
        Value::DateTime(x) => Some(x),
        _ => None,
    }
}

pub fn value_to_internal_ts(v: Value) -> (r: Result<Timestamp, EvalError>)
    ensures
        match spec_value_to_internal_ts(v) {
            Some(ts) => r == Ok::<Timestamp, EvalError>(ts),
            None => r matches Err(e) && e == (EvalError::TypeMismatch {
                expected: ConcreteDataType::Int64,
                actual: v.spec_data_type(),
            }),
        },
{
    match v {
        Value::Int64(x) => Ok(x),
        Value::DateTime(x) => Ok(x),
        _ => Err(
            EvalError::TypeMismatch { expected: ConcreteDataType::Int64, actual: v.data_type() },
        ),
    }
}

/// The type of a single column.
#[derive(Debug, Clone, Copy, PartialEq, Eq, Structural)]
pub struct ColumnType {
    pub scalar_type: ConcreteDataType,
    pub nullable: bool,
}

impl ColumnType {
    pub fn new(scalar_type: ConcreteDataType, nullable: bool) -> (r: ColumnType)
        ensures
            r == (ColumnType { scalar_type, nullable }),
    {
        ColumnType { scalar_type, nullable }
    }
}

/// The schema of a relation.
#[derive(Debug)]
pub struct RelationType {
    pub column_types: Vec<ColumnType>,
}

impl View for RelationType {
    type V = Seq<ColumnType>;

    open spec fn view(&self) -> Seq<ColumnType> {
        self.column_types@
    }
}

impl RelationType {
    pub fn new(column_types: Vec<ColumnType>) -> (r: RelationType)
        ensures
            r@ == column_types@,
    {
        RelationType { column_types }
    }

    pub fn duplicate(&self) -> (r: RelationType)
        ensures
            r@ == self@,
    {
        let mut out: Vec<ColumnType> = Vec::new();
        let n = self.column_types.len();
        let mut i: usize = 0;
        while i < n
            invariant
                n == self@.len(),
                i <= n,
                out@ =~= self@.take(i as int),
            decreases n - i,
        {
            out.push(self.column_types[i]);
            proof {
                assert(out@ =~= self@.take(i + 1 as int));
            }
            i += 1;
        }
        proof {
            assert(out@ =~= self@);
        }
        RelationType { column_types: out }
    }
}

impl AssocKey for Row {
    fn key_eq(&self, other: &Self) -> (r: bool) {
        self.eq_row(other)
    }
}

impl AssocValue for Row {
    fn dup(&self) -> (r: Self) {
        self.duplicate()
    }
}

} // verus!
