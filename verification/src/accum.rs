//! Accumulators for accumulable aggregate functions: sum, count, any, all,
//! min and max.
//!
//! An accumulator is restored from a fixed-arity row of state values, updated
//! with `(value, diff)` pairs, and flattened back into state values.  Min and
//! max cannot undo a retraction, so they reject non-positive diffs.
//!
//! Each executable method is pinned to a ghost model (`spec_*` functions over
//! [`AccumError`]), which the law lemmas in [`crate::laws`] build on.

use vstd::prelude::*;

use crate::expr::EvalError;
use crate::value::{ConcreteDataType, Decimal128, Value};
use crate::value::{spec_value_max, spec_value_min, value_max, value_min};

verus! {

/// An accumulable aggregate function.
#[derive(Debug, Clone, Copy, PartialEq, Eq, Structural)]
pub enum AggregateFunc {
    MaxInt16,
    MaxInt32,
    MaxInt64,
    MaxUInt16,
    MaxUInt32,
    MaxUInt64,
    MaxFloat32,
    MaxFloat64,
    MaxBool,
    MaxDate,
    MaxDateTime,
    MinInt16,
    MinInt32,
    MinInt64,
    MinUInt16,
    MinUInt32,
    MinUInt64,
    MinFloat32,
    MinFloat64,
    MinBool,
    MinDate,
    MinDateTime,
    SumInt16,
    SumInt32,
    SumInt64,
    SumUInt16,
    SumUInt32,
    SumUInt64,
    SumFloat32,
    SumFloat64,
    Count,
    Any,
    All,
}

impl AggregateFunc {
    pub open spec fn spec_is_max(self) -> bool {
        match self {
            AggregateFunc::MaxInt16
            | AggregateFunc::MaxInt32
            | AggregateFunc::MaxInt64
            | AggregateFunc::MaxUInt16
            | AggregateFunc::MaxUInt32
            | AggregateFunc::MaxUInt64
            | AggregateFunc::MaxFloat32
            | AggregateFunc::MaxFloat64
            | AggregateFunc::MaxBool
            | AggregateFunc::MaxDate
            | AggregateFunc::MaxDateTime => true,
            _ => false,
        }
    }

    pub open spec fn spec_is_min(self) -> bool {
        match self {
            AggregateFunc::MinInt16
            | AggregateFunc::MinInt32
            | AggregateFunc::MinInt64
            | AggregateFunc::MinUInt16
            | AggregateFunc::MinUInt32
            | AggregateFunc::MinUInt64
            | AggregateFunc::MinFloat32
            | AggregateFunc::MinFloat64
            | AggregateFunc::MinBool
            | AggregateFunc::MinDate
            | AggregateFunc::MinDateTime => true,
            _ => false,
        }
    }

    pub fn is_max(&self) -> (r: bool)
        ensures
            r == self.spec_is_max(),
    {
        match self {
            AggregateFunc::MaxInt16
            | AggregateFunc::MaxInt32
            | AggregateFunc::MaxInt64
            | AggregateFunc::MaxUInt16
            | AggregateFunc::MaxUInt32
            | AggregateFunc::MaxUInt64
            | AggregateFunc::MaxFloat32
            | AggregateFunc::MaxFloat64
            | AggregateFunc::MaxBool
            | AggregateFunc::MaxDate
            | AggregateFunc::MaxDateTime => true,
            _ => false,
        }
    }

    pub fn is_min(&self) -> (r: bool)
        ensures
            r == self.spec_is_min(),
    {
        match self {
            AggregateFunc::MinInt16
            | AggregateFunc::MinInt32
            | AggregateFunc::MinInt64
            | AggregateFunc::MinUInt16
            | AggregateFunc::MinUInt32
            | AggregateFunc::MinUInt64
            | AggregateFunc::MinFloat32
            | AggregateFunc::MinFloat64
            | AggregateFunc::MinBool
            | AggregateFunc::MinDate
            | AggregateFunc::MinDateTime => true,
            _ => false,
        }
    }

    /// Functions served by the [`Bool`] accumulator.
    pub open spec fn spec_is_bool_fn(self) -> bool {
        match self {
            AggregateFunc::Any
            | AggregateFunc::All
            | AggregateFunc::MaxBool
            | AggregateFunc::MinBool => true,
            _ => false,
        }
    }

    /// Functions served by the [`SimpleNumber`] accumulator.
    pub open spec fn spec_is_number_sum_fn(self) -> bool {
        match self {
            AggregateFunc::SumInt16
            | AggregateFunc::SumInt32
            | AggregateFunc::SumInt64
            | AggregateFunc::SumUInt16
            | AggregateFunc::SumUInt32
            | AggregateFunc::SumUInt64 => true,
            _ => false,
        }
    }

    /// Functions served by the [`Float`] accumulator.
    pub open spec fn spec_is_float_sum_fn(self) -> bool {
        match self {
            AggregateFunc::SumFloat32 | AggregateFunc::SumFloat64 => true,
            _ => false,
        }
    }

    /// Functions served by the [`OrdValue`] accumulator.
    pub open spec fn spec_is_ord_fn(self) -> bool {
        self.spec_is_max() || self.spec_is_min() || self == AggregateFunc::Count
    }

    /// The input type a numeric sum expects, used in type-mismatch reports.
    pub open spec fn spec_sum_expected_type(self) -> ConcreteDataType {
        match self {
            AggregateFunc::SumInt16 => ConcreteDataType::Int16,
            AggregateFunc::SumInt32 => ConcreteDataType::Int32,
            AggregateFunc::SumInt64 => ConcreteDataType::Int64,
            AggregateFunc::SumUInt16 => ConcreteDataType::UInt16,
            AggregateFunc::SumUInt32 => ConcreteDataType::UInt32,
            AggregateFunc::SumUInt64 => ConcreteDataType::UInt64,
            AggregateFunc::SumFloat32 => ConcreteDataType::Float32,
            AggregateFunc::SumFloat64 => ConcreteDataType::Float64,
            _ => ConcreteDataType::Null,
        }
    }

    fn sum_expected_type(&self) -> (r: ConcreteDataType)
        ensures
            r == self.spec_sum_expected_type(),
    {
        match self {
            AggregateFunc::SumInt16 => ConcreteDataType::Int16,
            AggregateFunc::SumInt32 => ConcreteDataType::Int32,
            AggregateFunc::SumInt64 => ConcreteDataType::Int64,
            AggregateFunc::SumUInt16 => ConcreteDataType::UInt16,
            AggregateFunc::SumUInt32 => ConcreteDataType::UInt32,
            AggregateFunc::SumUInt64 => ConcreteDataType::UInt64,
            AggregateFunc::SumFloat32 => ConcreteDataType::Float32,
            AggregateFunc::SumFloat64 => ConcreteDataType::Float64,
            _ => ConcreteDataType::Null,
        }
    }
}

/// Ghost classification of accumulator failures; executable methods report
/// each case as the matching [`EvalError`].
#[derive(Debug, Clone, Copy, PartialEq, Eq, Structural)]
pub enum AccumError {
    /// The aggregate function is not served by this accumulator.
    Unsupported,
    /// The input value's type disagrees with what the function expects.
    TypeMismatch { expected: ConcreteDataType, actual: ConcreteDataType },
    /// A retraction reached a min/max accumulator.
    NonMonotonic,
    /// The state row has the wrong number of values.
    BadStateArity,
    /// A state value is not of the type the accumulator stores.
    BadStateValue,
    /// The step needs machine floating-point arithmetic, which the embedding
    /// runtime supplies.
    HostFloat,
}

/// Whether `e` is an internal error with the given message.
pub open spec fn spec_is_internal(e: EvalError, msg: Seq<char>) -> bool {
    e matches EvalError::Internal { reason } && reason@ == msg
}

/// A value read back as a signed count; only `Int64` qualifies.
pub open spec fn spec_value_as_diff(v: Value) -> Option<i64> {
    match v {
        Value::Int64(x) => Some(x),
        _ => None,
    }
}

fn value_as_diff(v: &Value) -> (r: Option<i64>)
    ensures
        r == spec_value_as_diff(*v),
{
    match v {
        Value::Int64(x) => Some(*x),
        _ => None,
    }
}

/// A numeric value widened to its mathematical integer, when the value is one
/// of the integer types a sum accepts.
pub open spec fn spec_value_widen(v: Value) -> Option<int> {
    match v {
        Value::Int16(x) => Some(x as int),
        Value::Int32(x) => Some(x as int),
        Value::Int64(x) => Some(x as int),
        Value::UInt16(x) => Some(x as int),
        Value::UInt32(x) => Some(x as int),
        Value::UInt64(x) => Some(x as int),
        _ => None,
    }
}

fn value_widen(v: &Value) -> (r: Option<i128>)
    ensures
        match spec_value_widen(*v) {
            Some(w) => r matches Some(x) && x as int == w,
            None => r is None,
        },
{
    match v {
        Value::Int16(x) => Some(*x as i128),
        Value::Int32(x) => Some(*x as i128),
        Value::Int64(x) => Some(*x as i128),
        Value::UInt16(x) => Some(*x as i128),
        Value::UInt32(x) => Some(*x as i128),
        Value::UInt64(x) => Some(*x as i128),
        _ => None,
    }
}

fn err_internal(msg: &str) -> (r: EvalError)
    ensures
        spec_is_internal(r, msg@),
{
    EvalError::Internal { reason: msg.to_owned() }
}

fn err_try_from_value() -> (r: EvalError)
    ensures
        r is TryFromValue,
{
    EvalError::TryFromValue { msg: "state value cannot be read as the expected type".to_owned() }
}

/// Counts of `true` and `false` inputs; serves `Any`, `All`, `MaxBool` and
/// `MinBool`.
#[derive(Debug, Clone, Copy, PartialEq, Eq, Structural)]
pub struct Bool {
    /// The number of `true` values observed.
    pub trues: i64,
    /// The number of `false` values observed.
    pub falses: i64,
}

/// Ghost model of [`Bool::try_from`].
pub open spec fn spec_bool_try_from(state: Seq<Value>) -> Result<Bool, AccumError> {
    if state.len() != 2 {
        Err(AccumError::BadStateArity)
    } else {
        match (spec_value_as_diff(state[0]), spec_value_as_diff(state[1])) {
            (Some(t), Some(f)) => Ok(Bool { trues: t, falses: f }),
            _ => Err(AccumError::BadStateValue),
        }
    }
}

/// Ghost model of [`Bool::update`].
pub open spec fn spec_bool_update(b: Bool, f: AggregateFunc, v: Value, d: int) -> Result<
    Bool,
    AccumError,
> {
    if !f.spec_is_bool_fn() {
        Err(AccumError::Unsupported)
    } else {
        match v {
            Value::Boolean(x) => {
                if x {
                    Ok(Bool { trues: (b.trues + d) as i64, falses: b.falses })
                } else {
                    Ok(Bool { trues: b.trues, falses: (b.falses + d) as i64 })
                }
            },
            _ => Err(
                AccumError::TypeMismatch {
                    expected: ConcreteDataType::Boolean,
                    actual: v.spec_data_type(),
                },
            ),
        }
    }
}

/// Whether the counter updated by [`Bool::update`] stays within `i64`.
pub open spec fn spec_bool_update_fits(b: Bool, f: AggregateFunc, v: Value, d: int) -> bool {
    f.spec_is_bool_fn() ==> match v {
        Value::Boolean(x) => {
            if x {
                i64::MIN <= b.trues + d <= i64::MAX
            } else {
                i64::MIN <= b.falses + d <= i64::MAX
            }
        },
        _ => true,
    }
}

/// Ghost model of [`Bool::eval`].
pub open spec fn spec_bool_eval(b: Bool, f: AggregateFunc) -> Result<Value, AccumError> {
    match f {
        AggregateFunc::Any => Ok(Value::Boolean(b.trues > 0)),
        AggregateFunc::MaxBool => Ok(Value::Boolean(b.trues > 0)),
        AggregateFunc::All => Ok(Value::Boolean(b.falses == 0)),
        AggregateFunc::MinBool => Ok(Value::Boolean(b.falses == 0)),
        _ => Err(AccumError::Unsupported),
    }
}

impl Bool {
    /// Rebuild from a state row of two signed counts.
    pub fn try_from(state: Vec<Value>) -> (r: Result<Bool, EvalError>)
        ensures
            match spec_bool_try_from(state@) {
                Ok(b) => r == Ok::<Bool, EvalError>(b),
                Err(AccumError::BadStateArity) => r matches Err(e) && spec_is_internal(
                    e,
                    "Bool Accumulator state should have 2 values"@,
                ),
                Err(_) => r matches Err(e) && e is TryFromValue,
            },
    {
        if state.len() != 2 {
            return Err(err_internal("Bool Accumulator state should have 2 values"));
        }
        let t = match value_as_diff(&state[0]) {
            Some(t) => t,
            None => {
                return Err(err_try_from_value());
            },
        };
        let f = match value_as_diff(&state[1]) {
            Some(f) => f,
            None => {
                return Err(err_try_from_value());
            },
        };
        Ok(Bool { trues: t, falses: f })
    }

    /// Flatten into the two-value state row.
    pub fn into_state(self) -> (r: Vec<Value>)
        ensures
            r@ == seq![Value::Int64(self.trues), Value::Int64(self.falses)],
    {
        let mut out: Vec<Value> = Vec::new();
        out.push(Value::Int64(self.trues));
        out.push(Value::Int64(self.falses));
        proof {
            assert(out@ =~= seq![Value::Int64(self.trues), Value::Int64(self.falses)]);
        }
        out
    }

    /// Count one boolean input with the given diff.
    pub fn update(&mut self, aggr_fn: &AggregateFunc, value: Value, diff: i64) -> (r: Result<
        (),
        EvalError,
    >)
        requires
            spec_bool_update_fits(*old(self), *aggr_fn, value, diff as int),
        ensures
            match spec_bool_update(*old(self), *aggr_fn, value, diff as int) {
                Ok(b2) => r is Ok && *final(self) == b2,
                Err(AccumError::TypeMismatch { expected, actual }) => *final(self) == *old(self)
                    && r == Err::<(), EvalError>(EvalError::TypeMismatch { expected, actual }),
                Err(_) => *final(self) == *old(self) && (r matches Err(e) && spec_is_internal(
                    e,
                    "Bool Accumulator does not support this aggregation function"@,
                )),
            },
    {
        if !(matches!(
            aggr_fn,
            AggregateFunc::Any | AggregateFunc::All | AggregateFunc::MaxBool
                | AggregateFunc::MinBool
        )) {
            return Err(
                err_internal("Bool Accumulator does not support this aggregation function"),
            );
        }
        match value {
            Value::Boolean(true) => {
                self.trues = self.trues + diff;
            },
            Value::Boolean(false) => {
                self.falses = self.falses + diff;
            },
            x => {
                return Err(
                    EvalError::TypeMismatch {
                        expected: ConcreteDataType::Boolean,
                        actual: x.data_type(),
                    },
                );
            },
        }
        Ok(())
    }

    /// Report the aggregate: `Any`/`MaxBool` ask whether a `true` was seen,
    /// `All`/`MinBool` whether no `false` was.
    pub fn eval(&self, aggr_fn: &AggregateFunc) -> (r: Result<Value, EvalError>)
        ensures
            match spec_bool_eval(*self, *aggr_fn) {
                Ok(v) => r == Ok::<Value, EvalError>(v),
                Err(_) => r matches Err(e) && spec_is_internal(
                    e,
                    "Bool Accumulator does not support this aggregation function"@,
                ),
            },
    {
        match aggr_fn {
            AggregateFunc::Any => Ok(Value::Boolean(self.trues > 0)),
            AggregateFunc::All => Ok(Value::Boolean(self.falses == 0)),
            AggregateFunc::MaxBool => Ok(Value::Boolean(self.trues > 0)),
            AggregateFunc::MinBool => Ok(Value::Boolean(self.falses == 0)),
            _ => Err(err_internal("Bool Accumulator does not support this aggregation function")),
        }
    }
}

/// A 128-bit running sum of integer inputs with a count of non-null values.
#[derive(Debug, Clone, Copy, PartialEq, Eq, Structural)]
pub struct SimpleNumber {
    /// The accumulation of all non-NULL values observed.
    pub accum: i128,
    /// The number of non-NULL values observed.
    pub non_nulls: i64,
}

/// Ghost model of [`SimpleNumber::try_from`].
pub open spec fn spec_simple_number_try_from(state: Seq<Value>) -> Result<
    SimpleNumber,
    AccumError,
> {
    if state.len() != 2 {
        Err(AccumError::BadStateArity)
    } else {
        match (state[0], spec_value_as_diff(state[1])) {
            (Value::Decimal128(d), Some(n)) => Ok(SimpleNumber { accum: d.v, non_nulls: n }),
            _ => Err(AccumError::BadStateValue),
        }
    }
}

/// Ghost model of [`SimpleNumber::update`]; arithmetic is over mathematical
/// integers, the fits-condition below keeps the executable step inside
/// `i128`.
pub open spec fn spec_simple_number_update(
    a: SimpleNumber,
    f: AggregateFunc,
    v: Value,
    d: int,
) -> Result<SimpleNumber, AccumError> {
    if !f.spec_is_number_sum_fn() {
        Err(AccumError::Unsupported)
    } else {
        match spec_value_widen(v) {
            Some(w) => Ok(
                SimpleNumber {
                    accum: (a.accum + w * d) as i128,
                    non_nulls: (a.non_nulls + d) as i64,
                },
            ),
            None => Err(
                AccumError::TypeMismatch {
                    expected: f.spec_sum_expected_type(),
                    actual: v.spec_data_type(),
                },
            ),
        }
    }
}

/// Whether the product and the two running counters of
/// [`SimpleNumber::update`] stay in range.
pub open spec fn spec_simple_number_update_fits(
    a: SimpleNumber,
    f: AggregateFunc,
    v: Value,
    d: int,
) -> bool {
    f.spec_is_number_sum_fn() ==> match spec_value_widen(v) {
        Some(w) => {
            &&& i128::MIN <= w * d <= i128::MAX
            &&& i128::MIN <= a.accum + w * d <= i128::MAX
            &&& i64::MIN <= a.non_nulls + d <= i64::MAX
        },
        None => true,
    }
}

/// Ghost model of [`SimpleNumber::eval`]: the sum truncated to the output
/// width.
pub open spec fn spec_simple_number_eval(a: SimpleNumber, f: AggregateFunc) -> Result<
    Value,
    AccumError,
> {
    match f {
        AggregateFunc::SumInt16 | AggregateFunc::SumInt32 | AggregateFunc::SumInt64 => Ok(
            Value::Int64(a.accum as i64),
        ),
        AggregateFunc::SumUInt16 | AggregateFunc::SumUInt32 | AggregateFunc::SumUInt64 => Ok(
            Value::UInt64(a.accum as u64),
        ),
        _ => Err(AccumError::Unsupported),
    }
}

impl SimpleNumber {
    /// Rebuild from a state row of a decimal sum and a count.
    pub fn try_from(state: Vec<Value>) -> (r: Result<SimpleNumber, EvalError>)
        ensures
            match spec_simple_number_try_from(state@) {
                Ok(a) => r == Ok::<SimpleNumber, EvalError>(a),
                Err(AccumError::BadStateArity) => r matches Err(e) && spec_is_internal(
                    e,
                    "Number Accumulator state should have 2 values"@,
                ),
                Err(_) => r matches Err(e) && e is TryFromValue,
            },
    {
        if state.len() != 2 {
            return Err(err_internal("Number Accumulator state should have 2 values"));
        }
        let accum = match &state[0] {
            Value::Decimal128(d) => d.v,
            _ => {
                return Err(err_try_from_value());
            },
        };
        let n = match value_as_diff(&state[1]) {
            Some(n) => n,
            None => {
                return Err(err_try_from_value());
            },
        };
        Ok(SimpleNumber { accum, non_nulls: n })
    }

    /// Flatten into the two-value state row: the sum as a decimal of
    /// precision 38 and scale 0, and the count.
    pub fn into_state(self) -> (r: Vec<Value>)
        ensures
            r@ == seq![
                Value::Decimal128(Decimal128 { v: self.accum, precision: 38, scale: 0 }),
                Value::Int64(self.non_nulls),
            ],
    {
        let mut out: Vec<Value> = Vec::new();
        out.push(Value::Decimal128(Decimal128::new(self.accum, 38, 0)));
        out.push(Value::Int64(self.non_nulls));
        proof {
            assert(out@ =~= seq![
                Value::Decimal128(Decimal128 { v: self.accum, precision: 38, scale: 0 }),
                Value::Int64(self.non_nulls),
            ]);
        }
        out
    }

    /// Add `value × diff` to the running sum.
    pub fn update(&mut self, aggr_fn: &AggregateFunc, value: Value, diff: i64) -> (r: Result<
        (),
        EvalError,
    >)
        requires
            spec_simple_number_update_fits(*old(self), *aggr_fn, value, diff as int),
        ensures
            match spec_simple_number_update(*old(self), *aggr_fn, value, diff as int) {
                Ok(a2) => r is Ok && *final(self) == a2,
                Err(AccumError::TypeMismatch { expected, actual }) => *final(self) == *old(self)
                    && r == Err::<(), EvalError>(EvalError::TypeMismatch { expected, actual }),
                Err(_) => *final(self) == *old(self) && (r matches Err(e) && spec_is_internal(
                    e,
                    "SimpleNumber Accumulator does not support this aggregation function"@,
                )),
            },
    {
        if !(matches!(
            aggr_fn,
            AggregateFunc::SumInt16 | AggregateFunc::SumInt32 | AggregateFunc::SumInt64
                | AggregateFunc::SumUInt16 | AggregateFunc::SumUInt32 | AggregateFunc::SumUInt64
        )) {
            return Err(
                err_internal("SimpleNumber Accumulator does not support this aggregation function"),
            );
        }
        let w = match value_widen(&value) {
            Some(w) => w,
            None => {
                return Err(
                    EvalError::TypeMismatch {
                        expected: aggr_fn.sum_expected_type(),
                        actual: value.data_type(),
                    },
                );
            },
        };
        self.accum = self.accum + w * (diff as i128);
        self.non_nulls = self.non_nulls + diff;
        Ok(())
    }

    /// Report the sum, cast to the signed or unsigned 64-bit output.
    pub fn eval(&self, aggr_fn: &AggregateFunc) -> (r: Result<Value, EvalError>)
        ensures
            match spec_simple_number_eval(*self, *aggr_fn) {
                Ok(v) => r == Ok::<Value, EvalError>(v),
                Err(_) => r matches Err(e) && spec_is_internal(
                    e,
                    "SimpleNumber Accumulator does not support this aggregation function"@,
                ),
            },
    {
        match aggr_fn {
            AggregateFunc::SumInt16 | AggregateFunc::SumInt32 | AggregateFunc::SumInt64 => Ok(
                Value::Int64(#[verifier::truncate] (self.accum as i64)),
            ),
            AggregateFunc::SumUInt16 | AggregateFunc::SumUInt32 | AggregateFunc::SumUInt64 => Ok(
                Value::UInt64(#[verifier::truncate] (self.accum as u64)),
            ),
            _ => Err(
                err_internal("SimpleNumber Accumulator does not support this aggregation function"),
            ),
        }
    }
}

/// Classification of a floating-point input by its bit pattern.
#[derive(Debug, Clone, Copy, PartialEq, Eq, Structural)]
pub enum FloatClass {
    Nan,
    PosInf,
    NegInf,
    Finite,
}

/// Classify a double by its bits.
pub open spec fn spec_classify_f64(b: u64) -> FloatClass {
    if crate::value::spec_f64_is_nan(b) {
        FloatClass::Nan
    } else if crate::value::spec_f64_is_inf(b) {
        if crate::value::spec_f64_sign(b) {
            FloatClass::NegInf
        } else {
            FloatClass::PosInf
        }
    } else {
        FloatClass::Finite
    }
}

pub fn classify_f64(b: u64) -> (r: FloatClass)
    ensures
        r == spec_classify_f64(b),
{
    let mag: u64 = b & 0x7fff_ffff_ffff_ffff;
    if mag > 0x7ff0_0000_0000_0000 {
        FloatClass::Nan
    } else if mag == 0x7ff0_0000_0000_0000 {
        if (b >> 63) == 1 {
            FloatClass::NegInf
        } else {
            FloatClass::PosInf
        }
    } else {
        FloatClass::Finite
    }
}

/// Classify a single-precision float by its bits.
pub open spec fn spec_classify_f32(b: u32) -> FloatClass {
    if crate::value::spec_f32_is_nan(b) {
        FloatClass::Nan
    } else if crate::value::spec_f32_mag(b) == 0x7f80_0000 {
        if crate::value::spec_f32_sign(b) {
            FloatClass::NegInf
        } else {
            FloatClass::PosInf
        }
    } else {
        FloatClass::Finite
    }
}

pub fn classify_f32(b: u32) -> (r: FloatClass)
    ensures
        r == spec_classify_f32(b),
{
    let mag: u32 = b & 0x7fff_ffff;
    if mag > 0x7f80_0000 {
        FloatClass::Nan
    } else if mag == 0x7f80_0000 {
        if (b >> 31) == 1 {
            FloatClass::NegInf
        } else {
            FloatClass::PosInf
        }
    } else {
        FloatClass::Finite
    }
}

/// Running sum of float inputs, carried as an IEEE-754 double bit pattern,
/// with special values counted apart so that retractions stay exact.
///
/// The classification of inputs, the state round-trip and the
/// double-precision readout are all plain bit and counter logic and are
/// verified here.  Only the addition over finite values and the narrowing to
/// single precision use machine floating point, which the embedding runtime
/// performs before calling [`Float::apply_update`].
#[derive(Debug, Clone, Copy, PartialEq, Eq, Structural)]
pub struct Float {
    /// Bits of the sum of non-special values; forced to zero on
    /// reconstruction when `non_nulls` is zero.
    pub accum: u64,
    /// Counts +inf.
    pub pos_infs: i64,
    /// Counts -inf.
    pub neg_infs: i64,
    /// Counts NaNs.
    pub nans: i64,
    /// Counts non-NULL values.
    pub non_nulls: i64,
}

/// Ghost model of [`Float::try_from`]: a reconstruction whose count of
/// non-null values is zero reports a zero sum, whatever residue the state
/// row carries.
pub open spec fn spec_float_try_from(state: Seq<Value>) -> Result<Float, AccumError> {
    if state.len() != 5 {
        Err(AccumError::BadStateArity)
    } else {
        match (state[0], spec_value_as_diff(state[1]), spec_value_as_diff(state[2]),
        spec_value_as_diff(state[3]), spec_value_as_diff(state[4])) {
            (Value::Float64(b), Some(p), Some(n), Some(na), Some(nn)) => Ok(
                Float {
                    accum: if nn == 0 { 0 } else { b },
                    pos_infs: p,
                    neg_infs: n,
                    nans: na,
                    non_nulls: nn,
                },
            ),
            _ => Err(AccumError::BadStateValue),
        }
    }
}

/// Ghost model of [`Float::apply_update`]: `sum` is the caller-computed sum
/// of the old accumulation and the finite contribution, and is taken over
/// only in the `Finite` case.
pub open spec fn spec_float_apply_update(
    a: Float,
    f: AggregateFunc,
    class: FloatClass,
    d: int,
    sum: u64,
) -> Result<Float, AccumError> {
    if !f.spec_is_float_sum_fn() {
        Err(AccumError::Unsupported)
    } else {
        let stepped = match class {
            FloatClass::Nan => Float { nans: (a.nans + d) as i64, ..a },
            FloatClass::PosInf => Float { pos_infs: (a.pos_infs + d) as i64, ..a },
            FloatClass::NegInf => Float { neg_infs: (a.neg_infs + d) as i64, ..a },
            FloatClass::Finite => Float { accum: sum, ..a },
        };
        Ok(Float { non_nulls: (a.non_nulls + d) as i64, ..stepped })
    }
}

/// Whether the counters stepped by [`Float::apply_update`] stay in `i64`.
pub open spec fn spec_float_update_fits(a: Float, f: AggregateFunc, class: FloatClass, d: int) -> bool {
    f.spec_is_float_sum_fn() ==> {
        &&& i64::MIN <= a.non_nulls + d <= i64::MAX
        &&& (class == FloatClass::Nan ==> i64::MIN <= a.nans + d <= i64::MAX)
        &&& (class == FloatClass::PosInf ==> i64::MIN <= a.pos_infs + d <= i64::MAX)
        &&& (class == FloatClass::NegInf ==> i64::MIN <= a.neg_infs + d <= i64::MAX)
    }
}

/// Ghost model of [`Float::eval`]: the double-precision readout is exact;
/// the single-precision readout needs the host's narrowing conversion.
pub open spec fn spec_float_eval(a: Float, f: AggregateFunc) -> Result<Value, AccumError> {
    match f {
        AggregateFunc::SumFloat64 => Ok(Value::Float64(a.accum)),
        AggregateFunc::SumFloat32 => Err(AccumError::HostFloat),
        _ => Err(AccumError::Unsupported),
    }
}

impl Float {
    /// Rebuild from a state row of the sum bits and four counts, zeroing the
    /// sum when no non-null value remains.
    pub fn try_from(state: Vec<Value>) -> (r: Result<Float, EvalError>)
        ensures
            match spec_float_try_from(state@) {
                Ok(a) => r == Ok::<Float, EvalError>(a),
                Err(AccumError::BadStateArity) => r matches Err(e) && spec_is_internal(
                    e,
                    "Float Accumulator state should have 5 values"@,
                ),
                Err(_) => r matches Err(e) && e is TryFromValue,
            },
    {
        if state.len() != 5 {
            return Err(err_internal("Float Accumulator state should have 5 values"));
        }
        let b = match &state[0] {
            Value::Float64(b) => *b,
            _ => {
                return Err(err_try_from_value());
            },
        };
        let p = match value_as_diff(&state[1]) {
            Some(x) => x,
            None => {
                return Err(err_try_from_value());
            },
        };
        let n = match value_as_diff(&state[2]) {
            Some(x) => x,
            None => {
                return Err(err_try_from_value());
            },
        };
        let na = match value_as_diff(&state[3]) {
            Some(x) => x,
            None => {
                return Err(err_try_from_value());
            },
        };
        let nn = match value_as_diff(&state[4]) {
            Some(x) => x,
            None => {
                return Err(err_try_from_value());
            },
        };
        let accum: u64 = if nn == 0 {
            0
        } else {
            b
        };
        Ok(Float { accum, pos_infs: p, neg_infs: n, nans: na, non_nulls: nn })
    }

    /// Flatten into the five-value state row.
    pub fn into_state(self) -> (r: Vec<Value>)
        ensures
            r@ == seq![
                Value::Float64(self.accum),
                Value::Int64(self.pos_infs),
                Value::Int64(self.neg_infs),
                Value::Int64(self.nans),
                Value::Int64(self.non_nulls),
            ],
    {
        let mut out: Vec<Value> = Vec::new();
        out.push(Value::Float64(self.accum));
        out.push(Value::Int64(self.pos_infs));
        out.push(Value::Int64(self.neg_infs));
        out.push(Value::Int64(self.nans));
        out.push(Value::Int64(self.non_nulls));
        proof {
            assert(out@ =~= seq![
                Value::Float64(self.accum),
                Value::Int64(self.pos_infs),
                Value::Int64(self.neg_infs),
                Value::Int64(self.nans),
                Value::Int64(self.non_nulls),
            ]);
        }
        out
    }

    /// Classify one float input for the given sum function: the class of its
    /// bits, or an error when the function or the value's type is wrong.
    pub fn input_class(aggr_fn: &AggregateFunc, value: &Value) -> (r: Result<FloatClass, EvalError>)
        ensures
            !aggr_fn.spec_is_float_sum_fn() ==> (r matches Err(e) && spec_is_internal(
                e,
                "Float Accumulator does not support this aggregation function"@,
            )),
            aggr_fn.spec_is_float_sum_fn() ==> match *value {
                Value::Float32(b) => r == Ok::<FloatClass, EvalError>(spec_classify_f32(b)),
                Value::Float64(b) => r == Ok::<FloatClass, EvalError>(spec_classify_f64(b)),
                _ => r == Err::<FloatClass, EvalError>(EvalError::TypeMismatch {
                    expected: aggr_fn.spec_sum_expected_type(),
                    actual: value.spec_data_type(),
                }),
            },
    {
        if !(matches!(aggr_fn, AggregateFunc::SumFloat32 | AggregateFunc::SumFloat64)) {
            return Err(
                err_internal("Float Accumulator does not support this aggregation function"),
            );
        }
        match value {
            Value::Float32(b) => Ok(classify_f32(*b)),
            Value::Float64(b) => Ok(classify_f64(*b)),
            v => Err(
                EvalError::TypeMismatch {
                    expected: aggr_fn.sum_expected_type(),
                    actual: v.data_type(),
                },
            ),
        }
    }

    /// Step the accumulator by one classified input.  For a finite input the
    /// caller passes in `sum`, the bits of `accum + value × diff` computed
    /// with machine floating point; special values only move their counters.
    pub fn apply_update(
        &mut self,
        aggr_fn: &AggregateFunc,
        class: FloatClass,
        diff: i64,
        sum: u64,
    ) -> (r: Result<(), EvalError>)
        requires
            spec_float_update_fits(*old(self), *aggr_fn, class, diff as int),
        ensures
            match spec_float_apply_update(*old(self), *aggr_fn, class, diff as int, sum) {
                Ok(a2) => r is Ok && *final(self) == a2,
                Err(_) => *final(self) == *old(self) && (r matches Err(e) && spec_is_internal(
                    e,
                    "Float Accumulator does not support this aggregation function"@,
                )),
            },
    {
        if !(matches!(aggr_fn, AggregateFunc::SumFloat32 | AggregateFunc::SumFloat64)) {
            return Err(
                err_internal("Float Accumulator does not support this aggregation function"),
            );
        }
        match class {
            FloatClass::Nan => {
                self.nans = self.nans + diff;
            },
            FloatClass::PosInf => {
                self.pos_infs = self.pos_infs + diff;
            },
            FloatClass::NegInf => {
                self.neg_infs = self.neg_infs + diff;
            },
            FloatClass::Finite => {
                self.accum = sum;
            },
        }
        self.non_nulls = self.non_nulls + diff;
        Ok(())
    }

    /// Report the double-precision sum.  The single-precision readout needs
    /// the host's narrowing conversion and is reported as internal here; the
    /// embedding runtime derives it from the double-precision bits.
    pub fn eval(&self, aggr_fn: &AggregateFunc) -> (r: Result<Value, EvalError>)
        ensures
            match spec_float_eval(*self, *aggr_fn) {
                Ok(v) => r == Ok::<Value, EvalError>(v),
                Err(AccumError::HostFloat) => r matches Err(e) && spec_is_internal(
                    e,
                    "Float Accumulator readout to single precision needs the host's narrowing conversion"@,
                ),
                Err(_) => r matches Err(e) && spec_is_internal(
                    e,
                    "Float Accumulator does not support this aggregation function"@,
                ),
            },
    {
        match aggr_fn {
            AggregateFunc::SumFloat64 => Ok(Value::Float64(self.accum)),
            AggregateFunc::SumFloat32 => Err(
                err_internal(
                    "Float Accumulator readout to single precision needs the host's narrowing conversion",
                ),
            ),
            _ => Err(err_internal("Float Accumulator does not support this aggregation function")),
        }
    }
}

/// A single ordered value with a count; serves `Count` and every min/max.
#[derive(Debug, Clone, Copy, PartialEq, Eq)]
pub struct OrdValue {
    pub val: Option<Value>,
    pub non_nulls: i64,
}

/// Ghost model of [`OrdValue::try_from`].
pub open spec fn spec_ord_value_try_from(state: Seq<Value>) -> Result<OrdValue, AccumError> {
    if state.len() != 2 {
        Err(AccumError::BadStateArity)
    } else {
        match spec_value_as_diff(state[1]) {
            Some(n) => Ok(OrdValue { val: Some(state[0]), non_nulls: n }),
            None => Err(AccumError::BadStateValue),
        }
    }
}

/// Ghost model of [`OrdValue::update`].  Min and max reject non-positive
/// diffs: a retraction cannot be undone on an order statistic.
pub open spec fn spec_ord_value_update(a: OrdValue, f: AggregateFunc, v: Value, d: int) -> Result<
    OrdValue,
    AccumError,
> {
    if !f.spec_is_ord_fn() {
        Err(AccumError::Unsupported)
    } else if a.val matches Some(cur) && cur.spec_data_type() != v.spec_data_type() {
        Err(
            AccumError::TypeMismatch {
                expected: a.val->Some_0.spec_data_type(),
                actual: v.spec_data_type(),
            },
        )
    } else if d <= 0 && (f.spec_is_max() || f.spec_is_min()) {
        Err(AccumError::NonMonotonic)
    } else {
        let val = if f.spec_is_max() {
            match a.val {
                Some(cur) => Some(spec_value_max(cur, v)),
                None => Some(v),
            }
        } else if f.spec_is_min() {
            match a.val {
                Some(cur) => Some(spec_value_min(cur, v)),
                None => Some(v),
            }
        } else {
            a.val
        };
        Ok(OrdValue { val, non_nulls: (a.non_nulls + d) as i64 })
    }
}

/// Whether the count stepped by [`OrdValue::update`] stays in `i64`.
pub open spec fn spec_ord_value_update_fits(a: OrdValue, f: AggregateFunc, v: Value, d: int) -> bool {
    f.spec_is_ord_fn() ==> i64::MIN <= a.non_nulls + d <= i64::MAX
}

impl OrdValue {
    /// Rebuild from a state row of the current value and a count.
    pub fn try_from(state: Vec<Value>) -> (r: Result<OrdValue, EvalError>)
        ensures
            match spec_ord_value_try_from(state@) {
                Ok(a) => r == Ok::<OrdValue, EvalError>(a),
                Err(AccumError::BadStateArity) => r matches Err(e) && spec_is_internal(
                    e,
                    "OrdValue Accumulator state should have 2 values"@,
                ),
                Err(_) => r matches Err(e) && e is TryFromValue,
            },
    {
        if state.len() != 2 {
            return Err(err_internal("OrdValue Accumulator state should have 2 values"));
        }
        let n = match value_as_diff(&state[1]) {
            Some(n) => n,
            None => {
                return Err(err_try_from_value());
            },
        };
        Ok(OrdValue { val: Some(state[0]), non_nulls: n })
    }

    /// Flatten into the two-value state row; an empty value is stored as
    /// `Null`.
    pub fn into_state(self) -> (r: Vec<Value>)
        ensures
            r@ == seq![
                match self.val {
                    Some(v) => v,
                    None => Value::Null,
                },
                Value::Int64(self.non_nulls),
            ],
    {
        let v = match self.val {
            Some(v) => v,
            None => Value::Null,
        };
        let mut out: Vec<Value> = Vec::new();
        out.push(v);
        out.push(Value::Int64(self.non_nulls));
        proof {
            assert(out@ =~= seq![
                match self.val {
                    Some(v) => v,
                    None => Value::Null,
                },
                Value::Int64(self.non_nulls),
            ]);
        }
        out
    }

    /// Fold one value into the order statistic.
    pub fn update(&mut self, aggr_fn: &AggregateFunc, value: Value, diff: i64) -> (r: Result<
        (),
        EvalError,
    >)
        requires
            spec_ord_value_update_fits(*old(self), *aggr_fn, value, diff as int),
        ensures
            match spec_ord_value_update(*old(self), *aggr_fn, value, diff as int) {
                Ok(a2) => r is Ok && *final(self) == a2,
                Err(AccumError::TypeMismatch { expected, actual }) => *final(self) == *old(self)
                    && r == Err::<(), EvalError>(EvalError::TypeMismatch { expected, actual }),
                Err(AccumError::NonMonotonic) => *final(self) == *old(self) && (r matches Err(e)
                    && spec_is_internal(
                    e,
                    "OrdValue Accumulator does not support non-monotonic input for min/max aggregation"@,
                )),
                Err(_) => *final(self) == *old(self) && (r matches Err(e) && spec_is_internal(
                    e,
                    "OrdValue Accumulator does not support this aggregation function"@,
                )),
            },
    {
        let is_max = aggr_fn.is_max();
        let is_min = aggr_fn.is_min();
        if !(is_max || is_min || matches!(aggr_fn, AggregateFunc::Count)) {
            return Err(
                err_internal("OrdValue Accumulator does not support this aggregation function"),
            );
        }
        if let Some(v) = &self.val {
            if v.data_type() != value.data_type() {
                return Err(
                    EvalError::TypeMismatch { expected: v.data_type(), actual: value.data_type() },
                );
            }
        }
        if diff <= 0 && (is_max || is_min) {
            return Err(
                err_internal(
                    "OrdValue Accumulator does not support non-monotonic input for min/max aggregation",
                ),
            );
        }
        if is_max {
            self.val = match self.val {
                Some(cur) => Some(value_max(cur, value)),
                None => Some(value),
            };
        } else if is_min {
            self.val = match self.val {
                Some(cur) => Some(value_min(cur, value)),
                None => Some(value),
            };
        }
        self.non_nulls = self.non_nulls + diff;
        Ok(())
    }

    /// Report the held value, or `Null` when none was folded in.
    pub fn eval(&self, _aggr_fn: &AggregateFunc) -> (r: Result<Value, EvalError>)
        ensures
            r == Ok::<Value, EvalError>(
                match self.val {
                    Some(v) => v,
                    None => Value::Null,
                },
            ),
    {
        match &self.val {
            Some(v) => Ok(*v),
            None => Ok(Value::Null),
        }
    }
}

/// A tagged accumulator, selected by the aggregate function's kind.
#[derive(Debug, Clone, Copy, PartialEq, Eq)]
pub enum Accum {
    /// Accumulates boolean values.
    Bool(Bool),
    /// Accumulates simple numeric values.
    SimpleNumber(SimpleNumber),
    /// Accumulates float values.
    Float(Float),
    /// Accumulates values that carry a total order.
    OrdValue(OrdValue),
}

/// The accumulator an aggregate function starts from.
pub open spec fn spec_new_accum(f: AggregateFunc) -> Accum {
    if f.spec_is_bool_fn() {
        Accum::Bool(Bool { trues: 0, falses: 0 })
    } else if f.spec_is_number_sum_fn() {
        Accum::SimpleNumber(SimpleNumber { accum: 0, non_nulls: 0 })
    } else if f.spec_is_float_sum_fn() {
        Accum::Float(Float { accum: 0, pos_infs: 0, neg_infs: 0, nans: 0, non_nulls: 0 })
    } else {
        Accum::OrdValue(OrdValue { val: None, non_nulls: 0 })
    }
}

/// Ghost model of [`Accum::try_into_accum`].
pub open spec fn spec_accum_try_from(f: AggregateFunc, state: Seq<Value>) -> Result<
    Accum,
    AccumError,
> {
    if f.spec_is_bool_fn() {
        match spec_bool_try_from(state) {
            Ok(b) => Ok(Accum::Bool(b)),
            Err(k) => Err(k),
        }
    } else if f.spec_is_number_sum_fn() {
        match spec_simple_number_try_from(state) {
            Ok(a) => Ok(Accum::SimpleNumber(a)),
            Err(k) => Err(k),
        }
    } else if f.spec_is_float_sum_fn() {
        match spec_float_try_from(state) {
            Ok(a) => Ok(Accum::Float(a)),
            Err(k) => Err(k),
        }
    } else {
        match spec_ord_value_try_from(state) {
            Ok(a) => Ok(Accum::OrdValue(a)),
            Err(k) => Err(k),
        }
    }
}

/// Ghost model of [`Accum::into_state`].
pub open spec fn spec_accum_state(a: Accum) -> Seq<Value> {
    match a {
        Accum::Bool(b) => seq![Value::Int64(b.trues), Value::Int64(b.falses)],
        Accum::SimpleNumber(x) => seq![
            Value::Decimal128(Decimal128 { v: x.accum, precision: 38, scale: 0 }),
            Value::Int64(x.non_nulls),
        ],
        Accum::Float(x) => seq![
            Value::Float64(x.accum),
            Value::Int64(x.pos_infs),
            Value::Int64(x.neg_infs),
            Value::Int64(x.nans),
            Value::Int64(x.non_nulls),
        ],
        Accum::OrdValue(x) => seq![
            match x.val {
                Some(v) => v,
                None => Value::Null,
            },
            Value::Int64(x.non_nulls),
        ],
    }
}

/// Ghost model of [`Accum::update`].  A finite float input needs the host's
/// floating-point addition and is reported as [`AccumError::HostFloat`];
/// the embedding runtime steps the float accumulator through
/// [`Float::apply_update`] instead.
pub open spec fn spec_accum_update(a: Accum, f: AggregateFunc, v: Value, d: int) -> Result<
    Accum,
    AccumError,
> {
    match a {
        Accum::Bool(b) => match spec_bool_update(b, f, v, d) {
            Ok(b2) => Ok(Accum::Bool(b2)),
            Err(k) => Err(k),
        },
        Accum::SimpleNumber(x) => match spec_simple_number_update(x, f, v, d) {
            Ok(x2) => Ok(Accum::SimpleNumber(x2)),
            Err(k) => Err(k),
        },
        Accum::Float(x) => {
            if !f.spec_is_float_sum_fn() {
                Err(AccumError::Unsupported)
            } else {
                let class = match v {
                    Value::Float32(b) => Some(spec_classify_f32(b)),
                    Value::Float64(b) => Some(spec_classify_f64(b)),
                    _ => None,
                };
                match class {
                    None => Err(
                        AccumError::TypeMismatch {
                            expected: f.spec_sum_expected_type(),
                            actual: v.spec_data_type(),
                        },
                    ),
                    Some(FloatClass::Finite) => Err(AccumError::HostFloat),
                    Some(c) => match spec_float_apply_update(x, f, c, d, x.accum) {
                        Ok(x2) => Ok(Accum::Float(x2)),
                        Err(k) => Err(k),
                    },
                }
            }
        },
        Accum::OrdValue(x) => match spec_ord_value_update(x, f, v, d) {
            Ok(x2) => Ok(Accum::OrdValue(x2)),
            Err(k) => Err(k),
        },
    }
}

/// Whether one step of [`Accum::update`] stays within machine bounds.
pub open spec fn spec_accum_update_fits(a: Accum, f: AggregateFunc, v: Value, d: int) -> bool {
    match a {
        Accum::Bool(b) => spec_bool_update_fits(b, f, v, d),
        Accum::SimpleNumber(x) => spec_simple_number_update_fits(x, f, v, d),
        Accum::Float(x) => {
            let class = match v {
                Value::Float32(b) => Some(spec_classify_f32(b)),
                Value::Float64(b) => Some(spec_classify_f64(b)),
                _ => None,
            };
            match class {
                Some(c) => spec_float_update_fits(x, f, c, d),
                None => true,
            }
        },
        Accum::OrdValue(x) => spec_ord_value_update_fits(x, f, v, d),
    }
}

/// Ghost model of [`Accum::eval`].
pub open spec fn spec_accum_eval(a: Accum, f: AggregateFunc) -> Result<Value, AccumError> {
    match a {
        Accum::Bool(b) => spec_bool_eval(b, f),
        Accum::SimpleNumber(x) => spec_simple_number_eval(x, f),
        Accum::Float(x) => spec_float_eval(x, f),
        Accum::OrdValue(x) => Ok(
            match x.val {
                Some(v) => v,
                None => Value::Null,
            },
        ),
    }
}

/// The message used when this accumulator rejects an aggregate function.
pub open spec fn spec_unsupported_msg(a: Accum) -> Seq<char> {
    match a {
        Accum::Bool(_) => "Bool Accumulator does not support this aggregation function"@,
        Accum::SimpleNumber(_) => "SimpleNumber Accumulator does not support this aggregation function"@,
        Accum::Float(_) => "Float Accumulator does not support this aggregation function"@,
        Accum::OrdValue(_) => "OrdValue Accumulator does not support this aggregation function"@,
    }
}

/// How a ghost failure of an update on `a` shows up as an [`EvalError`].
pub open spec fn spec_accum_err_corresponds(e: EvalError, k: AccumError, a: Accum) -> bool {
    match k {
        AccumError::Unsupported => spec_is_internal(e, spec_unsupported_msg(a)),
        AccumError::TypeMismatch { expected, actual } => e == (EvalError::TypeMismatch {
            expected,
            actual,
        }),
        AccumError::NonMonotonic => spec_is_internal(
            e,
            "OrdValue Accumulator does not support non-monotonic input for min/max aggregation"@,
        ),
        AccumError::HostFloat => spec_is_internal(
            e,
            "Float Accumulator arithmetic on finite values is performed by the embedding runtime"@,
        ),
        _ => e is Internal || e is TryFromValue,
    }
}

/// Ghost model of [`Accum::update_batch`]: the state reached when the
/// updates are applied in order, together with the first failure, at whose
/// point the batch stops.
pub open spec fn spec_accum_update_seq(a: Accum, f: AggregateFunc, s: Seq<(Value, i64)>) -> (
    Accum,
    Option<AccumError>,
)
    decreases s.len(),
{
    if s.len() == 0 {
        (a, None)
    } else {
        match spec_accum_update(a, f, s[0].0, s[0].1 as int) {
            Ok(a2) => spec_accum_update_seq(a2, f, s.drop_first()),
            Err(k) => (a, Some(k)),
        }
    }
}

/// Whether every step actually taken by a batch stays within machine bounds.
pub open spec fn spec_accum_batch_fits(a: Accum, f: AggregateFunc, s: Seq<(Value, i64)>) -> bool
    decreases s.len(),
{
    s.len() > 0 ==> {
        &&& spec_accum_update_fits(a, f, s[0].0, s[0].1 as int)
        &&& match spec_accum_update(a, f, s[0].0, s[0].1 as int) {
            Ok(a2) => spec_accum_batch_fits(a2, f, s.drop_first()),
            Err(_) => true,
        }
    }
}

impl Accum {
    /// A fresh accumulator for the given aggregate function.
    pub fn new_accum(aggr_fn: &AggregateFunc) -> (r: Result<Accum, EvalError>)
        ensures
            r == Ok::<Accum, EvalError>(spec_new_accum(*aggr_fn)),
    {
        if matches!(
            aggr_fn,
            AggregateFunc::Any | AggregateFunc::All | AggregateFunc::MaxBool
                | AggregateFunc::MinBool
        ) {
            Ok(Accum::Bool(Bool { trues: 0, falses: 0 }))
        } else if matches!(
            aggr_fn,
            AggregateFunc::SumInt16 | AggregateFunc::SumInt32 | AggregateFunc::SumInt64
                | AggregateFunc::SumUInt16 | AggregateFunc::SumUInt32 | AggregateFunc::SumUInt64
        ) {
            Ok(Accum::SimpleNumber(SimpleNumber { accum: 0, non_nulls: 0 }))
        } else if matches!(aggr_fn, AggregateFunc::SumFloat32 | AggregateFunc::SumFloat64) {
            Ok(Accum::Float(Float { accum: 0, pos_infs: 0, neg_infs: 0, nans: 0, non_nulls: 0 }))
        } else {
            Ok(Accum::OrdValue(OrdValue { val: None, non_nulls: 0 }))
        }
    }

    /// Rebuild an accumulator for `aggr_fn` from its state row.
    pub fn try_into_accum(aggr_fn: &AggregateFunc, state: Vec<Value>) -> (r: Result<
        Accum,
        EvalError,
    >)
        ensures
            match spec_accum_try_from(*aggr_fn, state@) {
                Ok(a) => r == Ok::<Accum, EvalError>(a),
                Err(AccumError::BadStateArity) => r matches Err(e) && spec_is_internal(
                    e,
                    spec_arity_msg(*aggr_fn),
                ),
                Err(_) => r matches Err(e) && e is TryFromValue,
            },
    {
        if matches!(
            aggr_fn,
            AggregateFunc::Any | AggregateFunc::All | AggregateFunc::MaxBool
                | AggregateFunc::MinBool
        ) {
            match Bool::try_from(state) {
                Ok(b) => Ok(Accum::Bool(b)),
                Err(e) => Err(e),
            }
        } else if matches!(
            aggr_fn,
            AggregateFunc::SumInt16 | AggregateFunc::SumInt32 | AggregateFunc::SumInt64
                | AggregateFunc::SumUInt16 | AggregateFunc::SumUInt32 | AggregateFunc::SumUInt64
        ) {
            match SimpleNumber::try_from(state) {
                Ok(a) => Ok(Accum::SimpleNumber(a)),
                Err(e) => Err(e),
            }
        } else if matches!(aggr_fn, AggregateFunc::SumFloat32 | AggregateFunc::SumFloat64) {
            match Float::try_from(state) {
                Ok(a) => Ok(Accum::Float(a)),
                Err(e) => Err(e),
            }
        } else {
            match OrdValue::try_from(state) {
                Ok(a) => Ok(Accum::OrdValue(a)),
                Err(e) => Err(e),
            }
        }
    }

    /// Flatten into the state row of the underlying accumulator.
    pub fn into_state(self) -> (r: Vec<Value>)
        ensures
            r@ == spec_accum_state(self),
    {
        match self {
            Accum::Bool(b) => b.into_state(),
            Accum::SimpleNumber(x) => x.into_state(),
            Accum::Float(x) => x.into_state(),
            Accum::OrdValue(x) => x.into_state(),
        }
    }

    /// Apply one `(value, diff)` update.
    pub fn update(&mut self, aggr_fn: &AggregateFunc, value: Value, diff: i64) -> (r: Result<
        (),
        EvalError,
    >)
        requires
            spec_accum_update_fits(*old(self), *aggr_fn, value, diff as int),
        ensures
            match spec_accum_update(*old(self), *aggr_fn, value, diff as int) {
                Ok(a2) => r is Ok && *final(self) == a2,
                Err(k) => *final(self) == *old(self) && (r matches Err(e)
                    && spec_accum_err_corresponds(e, k, *old(self))),
            },
    {
        match self {
            Accum::Bool(b) => b.update(aggr_fn, value, diff),
            Accum::SimpleNumber(x) => x.update(aggr_fn, value, diff),
            Accum::Float(x) => {
                if !(matches!(aggr_fn, AggregateFunc::SumFloat32 | AggregateFunc::SumFloat64)) {
                    return Err(
                        err_internal("Float Accumulator does not support this aggregation function"),
                    );
                }
                let class = match &value {
                    Value::Float32(b) => classify_f32(*b),
                    Value::Float64(b) => classify_f64(*b),
                    v => {
                        return Err(
                            EvalError::TypeMismatch {
                                expected: aggr_fn.sum_expected_type(),
                                actual: v.data_type(),
                            },
                        );
                    },
                };
                if matches!(class, FloatClass::Finite) {
                    return Err(
                        err_internal(
                            "Float Accumulator arithmetic on finite values is performed by the embedding runtime",
                        ),
                    );
                }
                let sum = x.accum;
                x.apply_update(aggr_fn, class, diff, sum)
            },
            Accum::OrdValue(x) => x.update(aggr_fn, value, diff),
        }
    }

    /// Apply a batch of updates in order, stopping at the first failure.
    pub fn update_batch(&mut self, aggr_fn: &AggregateFunc, value_diffs: Vec<(Value, i64)>) -> (r:
        Result<(), EvalError>)
        requires
            spec_accum_batch_fits(*old(self), *aggr_fn, value_diffs@),
        ensures
            ({
                let (a2, err) = spec_accum_update_seq(*old(self), *aggr_fn, value_diffs@);
                match err {
                    None => r is Ok && *final(self) == a2,
                    Some(k) => *final(self) == a2 && (r matches Err(e)
                        && spec_accum_err_corresponds(e, k, a2)),
                }
            }),
    {
        let ghost orig = *self;
        let ghost all = value_diffs@;
        proof {
            assert(all.skip(0) =~= all);
        }
        let n = value_diffs.len();
        let mut i: usize = 0;
        #[verifier::loop_isolation(false)]
        while i < n
            invariant
                orig == *old(self),
                n == all.len(),
                i <= n,
                value_diffs@ == all,
                spec_accum_batch_fits(*self, *aggr_fn, all.skip(i as int)),
                spec_accum_update_seq(orig, *aggr_fn, all) == spec_accum_update_seq(
                    *self,
                    *aggr_fn,
                    all.skip(i as int),
                ),
            decreases n - i,
        {
            let vd = &value_diffs[i];
            let v = vd.0;
            let d = vd.1;
            proof {
                assert(all.skip(i as int)[0] == all[i as int]);
                assert(all.skip(i as int).drop_first() =~= all.skip(i + 1 as int));
            }
            let ghost before = *self;
            let res = self.update(aggr_fn, v, d);
            match res {
                Ok(()) => {},
                Err(e) => {
                    proof {
                        let s_i = all.skip(i as int);
                        assert(s_i[0] == all[i as int]);
                        match spec_accum_update(before, *aggr_fn, v, d as int) {
                            Ok(a2) => {
                                assert(false);
                            },
                            Err(k) => {
                                assert(spec_accum_update_seq(orig, *aggr_fn, all) == (
                                    before,
                                    Some(k),
                                ));
                            },
                        }
                    }
                    return Err(e);
                },
            }
            i += 1;
        }
        proof {
            assert(all.skip(n as int) =~= Seq::<(Value, i64)>::empty());
        }
        Ok(())
    }

    /// Report the aggregate for `aggr_fn`.
    pub fn eval(&self, aggr_fn: &AggregateFunc) -> (r: Result<Value, EvalError>)
        ensures
            match spec_accum_eval(*self, *aggr_fn) {
                Ok(v) => r == Ok::<Value, EvalError>(v),
                Err(k) => r matches Err(e) && spec_accum_err_corresponds(e, k, *self),
            },
    {
        match self {
            Accum::Bool(b) => b.eval(aggr_fn),
            Accum::SimpleNumber(x) => x.eval(aggr_fn),
            Accum::Float(x) => {
                match aggr_fn {
                    AggregateFunc::SumFloat64 => Ok(Value::Float64(x.accum)),
                    AggregateFunc::SumFloat32 => Err(
                        err_internal(
                            "Float Accumulator arithmetic on finite values is performed by the embedding runtime",
                        ),
                    ),
                    _ => Err(
                        err_internal("Float Accumulator does not support this aggregation function"),
                    ),
                }
            },
            Accum::OrdValue(x) => x.eval(aggr_fn),
        }
    }
}

/// The arity message reported when the state row for `f`'s accumulator has
/// the wrong length.
pub open spec fn spec_arity_msg(f: AggregateFunc) -> Seq<char> {
    if f.spec_is_bool_fn() {
        "Bool Accumulator state should have 2 values"@
    } else if f.spec_is_number_sum_fn() {
        "Number Accumulator state should have 2 values"@
    } else if f.spec_is_float_sum_fn() {
        "Float Accumulator state should have 5 values"@
    } else {
        "OrdValue Accumulator state should have 2 values"@
    }
}

} // verus!
