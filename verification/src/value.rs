//! Typed scalar values and their total ordering.
//!
//! Floating-point values are carried as IEEE-754 bit patterns so that the
//! comparison semantics (NaN greatest and equal to itself, negative and
//! positive zero equal) can be stated and verified as plain bit logic.

use vstd::prelude::*;

verus! {

/// A 128-bit decimal with precision and scale.
#[derive(Debug, Clone, Copy, PartialEq, Eq, Structural)]
pub struct Decimal128 {
    pub v: i128,
    pub precision: u8,
    pub scale: i8,
}

impl Decimal128 {
    pub fn new(v: i128, precision: u8, scale: i8) -> (r: Decimal128)
        ensures
            r == (Decimal128 { v, precision, scale }),
    {
        Decimal128 { v, precision, scale }
    }

    pub fn val(&self) -> (r: i128)
        ensures
            r == self.v,
    {
        self.v
    }
}

/// The concrete type of a [`Value`].
#[derive(Debug, Clone, Copy, PartialEq, Eq, Structural)]
pub enum ConcreteDataType {
    Null,
    Boolean,
    Int16,
    Int32,
    Int64,
    UInt16,
    UInt32,
    UInt64,
    Float32,
    Float64,
    Decimal128,
    Date,
    DateTime,
}

/// A typed scalar value.
///
/// `Float32` and `Float64` hold the IEEE-754 bit pattern of the number.
/// Equality is bitwise; ordering follows the usual ordered-float convention.
#[derive(Debug, Clone, Copy, PartialEq, Eq, Structural)]
pub enum Value {
    Null,
    Boolean(bool),
    Int16(i16),
    Int32(i32),
    Int64(i64),
    UInt16(u16),
    UInt32(u32),
    UInt64(u64),
    Float32(u32),
    Float64(u64),
    Decimal128(Decimal128),
    Date(i32),
    DateTime(i64),
}

/// Comparison outcome for values.
#[derive(Debug, Clone, Copy, PartialEq, Eq, Structural)]
pub enum ValOrd {
    Lt,
    Eq,
    Gt,
}

pub open spec fn spec_f64_sign(b: u64) -> bool {
    b >> 63 == 1
}

pub open spec fn spec_f64_mag(b: u64) -> u64 {
    b & 0x7fff_ffff_ffff_ffff
}

pub open spec fn spec_f64_is_nan(b: u64) -> bool {
    spec_f64_mag(b) > 0x7ff0_0000_0000_0000
}

pub open spec fn spec_f64_is_inf(b: u64) -> bool {
    spec_f64_mag(b) == 0x7ff0_0000_0000_0000
}

pub open spec fn spec_f32_sign(b: u32) -> bool {
    b >> 31 == 1
}

pub open spec fn spec_f32_mag(b: u32) -> u32 {
    b & 0x7fff_ffff
}

pub open spec fn spec_f32_is_nan(b: u32) -> bool {
    spec_f32_mag(b) > 0x7f80_0000
}

/// Ordering of two doubles given as bit patterns: NaN is greater than
/// everything and equal to itself; the two zeros are equal; otherwise the
/// usual numeric order.
pub open spec fn spec_cmp_f64(a: u64, b: u64) -> ValOrd {
    if spec_f64_is_nan(a) && spec_f64_is_nan(b) {
        ValOrd::Eq
    } else if spec_f64_is_nan(a) {
        ValOrd::Gt
    } else if spec_f64_is_nan(b) {
        ValOrd::Lt
    } else if spec_f64_mag(a) == 0 && spec_f64_mag(b) == 0 {
        ValOrd::Eq
    } else if spec_f64_sign(a) != spec_f64_sign(b) {
        if spec_f64_sign(a) {
            ValOrd::Lt
        } else {
            ValOrd::Gt
        }
    } else if spec_f64_sign(a) {
        spec_cmp_u64(spec_f64_mag(b), spec_f64_mag(a))
    } else {
        spec_cmp_u64(spec_f64_mag(a), spec_f64_mag(b))
    }
}

pub open spec fn spec_cmp_f32(a: u32, b: u32) -> ValOrd {
    if spec_f32_is_nan(a) && spec_f32_is_nan(b) {
        ValOrd::Eq
    } else if spec_f32_is_nan(a) {
        ValOrd::Gt
    } else if spec_f32_is_nan(b) {
        ValOrd::Lt
    } else if spec_f32_mag(a) == 0 && spec_f32_mag(b) == 0 {
        ValOrd::Eq
    } else if spec_f32_sign(a) != spec_f32_sign(b) {
        if spec_f32_sign(a) {
            ValOrd::Lt
        } else {
            ValOrd::Gt
        }
    } else if spec_f32_sign(a) {
        spec_cmp_u32(spec_f32_mag(b), spec_f32_mag(a))
    } else {
        spec_cmp_u32(spec_f32_mag(a), spec_f32_mag(b))
    }
}

pub open spec fn spec_cmp_int(a: int, b: int) -> ValOrd {
    if a < b {
        ValOrd::Lt
    } else if a == b {
        ValOrd::Eq
    } else {
        ValOrd::Gt
    }
}

pub open spec fn spec_cmp_u64(a: u64, b: u64) -> ValOrd {
    spec_cmp_int(a as int, b as int)
}

pub open spec fn spec_cmp_u32(a: u32, b: u32) -> ValOrd {
    spec_cmp_int(a as int, b as int)
}

pub open spec fn spec_cmp_bool(a: bool, b: bool) -> ValOrd {
    if a == b {
        ValOrd::Eq
    } else if b {
        ValOrd::Lt
    } else {
        ValOrd::Gt
    }
}

impl Value {
    /// The concrete type of this value.
    pub open spec fn spec_data_type(self) -> ConcreteDataType {
        match self {
            Value::Null => ConcreteDataType::Null,
            Value::Boolean(_) => ConcreteDataType::Boolean,
            Value::Int16(_) => ConcreteDataType::Int16,
            Value::Int32(_) => ConcreteDataType::Int32,
            Value::Int64(_) => ConcreteDataType::Int64,
            Value::UInt16(_) => ConcreteDataType::UInt16,
            Value::UInt32(_) => ConcreteDataType::UInt32,
            Value::UInt64(_) => ConcreteDataType::UInt64,
            Value::Float32(_) => ConcreteDataType::Float32,
            Value::Float64(_) => ConcreteDataType::Float64,
            Value::Decimal128(_) => ConcreteDataType::Decimal128,
            Value::Date(_) => ConcreteDataType::Date,
            Value::DateTime(_) => ConcreteDataType::DateTime,
        }
    }

    pub fn data_type(&self) -> (r: ConcreteDataType)
        ensures
            r == self.spec_data_type(),
    {
        match self {
            Value::Null => ConcreteDataType::Null,
            Value::Boolean(_) => ConcreteDataType::Boolean,
            Value::Int16(_) => ConcreteDataType::Int16,
            Value::Int32(_) => ConcreteDataType::Int32,
            Value::Int64(_) => ConcreteDataType::Int64,
            Value::UInt16(_) => ConcreteDataType::UInt16,
            Value::UInt32(_) => ConcreteDataType::UInt32,
            Value::UInt64(_) => ConcreteDataType::UInt64,
            Value::Float32(_) => ConcreteDataType::Float32,
            Value::Float64(_) => ConcreteDataType::Float64,
            Value::Decimal128(_) => ConcreteDataType::Decimal128,
            Value::Date(_) => ConcreteDataType::Date,
            Value::DateTime(_) => ConcreteDataType::DateTime,
        }
    }

    /// Rank of the variant, used to order values of different types.
    pub open spec fn spec_rank(self) -> int {
        match self {
            Value::Null => 0,
            Value::Boolean(_) => 1,
            Value::Int16(_) => 2,
            Value::Int32(_) => 3,
            Value::Int64(_) => 4,
            Value::UInt16(_) => 5,
            Value::UInt32(_) => 6,
            Value::UInt64(_) => 7,
            Value::Float32(_) => 8,
            Value::Float64(_) => 9,
            Value::Decimal128(_) => 10,
            Value::Date(_) => 11,
            Value::DateTime(_) => 12,
        }
    }
}

/// Total order on values: same-typed values compare by content, values of
/// different types by variant rank.
pub open spec fn spec_value_cmp(a: Value, b: Value) -> ValOrd {
    match (a, b) {
        (Value::Null, Value::Null) => ValOrd::Eq,
        (Value::Boolean(x), Value::Boolean(y)) => spec_cmp_bool(x, y),
        (Value::Int16(x), Value::Int16(y)) => spec_cmp_int(x as int, y as int),
        (Value::Int32(x), Value::Int32(y)) => spec_cmp_int(x as int, y as int),
        (Value::Int64(x), Value::Int64(y)) => spec_cmp_int(x as int, y as int),
        (Value::UInt16(x), Value::UInt16(y)) => spec_cmp_int(x as int, y as int),
        (Value::UInt32(x), Value::UInt32(y)) => spec_cmp_int(x as int, y as int),
        (Value::UInt64(x), Value::UInt64(y)) => spec_cmp_int(x as int, y as int),
        (Value::Float32(x), Value::Float32(y)) => spec_cmp_f32(x, y),
        (Value::Float64(x), Value::Float64(y)) => spec_cmp_f64(x, y),
        (Value::Decimal128(x), Value::Decimal128(y)) => {
            if x.v != y.v {
                spec_cmp_int(x.v as int, y.v as int)
            } else if x.precision != y.precision {
                spec_cmp_int(x.precision as int, y.precision as int)
            } else {
                spec_cmp_int(x.scale as int, y.scale as int)
            }
        },
        (Value::Date(x), Value::Date(y)) => spec_cmp_int(x as int, y as int),
        (Value::DateTime(x), Value::DateTime(y)) => spec_cmp_int(x as int, y as int),
        _ => spec_cmp_int(a.spec_rank(), b.spec_rank()),
    }
}

fn cmp_i128(x: i128, y: i128) -> (r: ValOrd)
    ensures
        r == spec_cmp_int(x as int, y as int),
{
    if x < y {
        ValOrd::Lt
    } else if x == y {
        ValOrd::Eq
    } else {
        ValOrd::Gt
    }
}

fn cmp_u64(x: u64, y: u64) -> (r: ValOrd)
    ensures
        r == spec_cmp_u64(x, y),
{
    if x < y {
        ValOrd::Lt
    } else if x == y {
        ValOrd::Eq
    } else {
        ValOrd::Gt
    }
}

fn cmp_u32(x: u32, y: u32) -> (r: ValOrd)
    ensures
        r == spec_cmp_u32(x, y),
{
    if x < y {
        ValOrd::Lt
    } else if x == y {
        ValOrd::Eq
    } else {
        ValOrd::Gt
    }
}

fn cmp_f64_bits(a: u64, b: u64) -> (r: ValOrd)
    ensures
        r == spec_cmp_f64(a, b),
{
    let ma: u64 = a & 0x7fff_ffff_ffff_ffff;
    let mb: u64 = b & 0x7fff_ffff_ffff_ffff;
    let nan_a = ma > 0x7ff0_0000_0000_0000;
    let nan_b = mb > 0x7ff0_0000_0000_0000;
    let sa = (a >> 63) == 1;
    let sb = (b >> 63) == 1;
    if nan_a && nan_b {
        ValOrd::Eq
    } else if nan_a {
        ValOrd::Gt
    } else if nan_b {
        ValOrd::Lt
    } else if ma == 0 && mb == 0 {
        ValOrd::Eq
    } else if sa != sb {
        if sa {
            ValOrd::Lt
        } else {
            ValOrd::Gt
        }
    } else if sa {
        cmp_u64(mb, ma)
    } else {
        cmp_u64(ma, mb)
    }
}

fn cmp_f32_bits(a: u32, b: u32) -> (r: ValOrd)
    ensures
        r == spec_cmp_f32(a, b),
{
    let ma: u32 = a & 0x7fff_ffff;
    let mb: u32 = b & 0x7fff_ffff;
    let nan_a = ma > 0x7f80_0000;
    let nan_b = mb > 0x7f80_0000;
    let sa = (a >> 31) == 1;
    let sb = (b >> 31) == 1;
    if nan_a && nan_b {
        ValOrd::Eq
    } else if nan_a {
        ValOrd::Gt
    } else if nan_b {
        ValOrd::Lt
    } else if ma == 0 && mb == 0 {
        ValOrd::Eq
    } else if sa != sb {
        if sa {
            ValOrd::Lt
        } else {
            ValOrd::Gt
        }
    } else if sa {
        cmp_u32(mb, ma)
    } else {
        cmp_u32(ma, mb)
    }
}

fn rank(a: &Value) -> (r: u8)
    ensures
        r as int == a.spec_rank(),
{
    match a {
        Value::Null => 0,
        Value::Boolean(_) => 1,
        Value::Int16(_) => 2,
        Value::Int32(_) => 3,
        Value::Int64(_) => 4,
        Value::UInt16(_) => 5,
        Value::UInt32(_) => 6,
        Value::UInt64(_) => 7,
        Value::Float32(_) => 8,
        Value::Float64(_) => 9,
        Value::Decimal128(_) => 10,
        Value::Date(_) => 11,
        Value::DateTime(_) => 12,
    }
}

/// Compare two values in the total order of [`spec_value_cmp`].
pub fn value_cmp(a: &Value, b: &Value) -> (r: ValOrd)
    ensures
        r == spec_value_cmp(*a, *b),
{
    match (a, b) {
        (Value::Null, Value::Null) => ValOrd::Eq,
        (Value::Boolean(x), Value::Boolean(y)) => {
            if *x == *y {
                ValOrd::Eq
            } else if *y {
                ValOrd::Lt
            } else {
                ValOrd::Gt
            }
        },
        (Value::Int16(x), Value::Int16(y)) => cmp_i128(*x as i128, *y as i128),
        (Value::Int32(x), Value::Int32(y)) => cmp_i128(*x as i128, *y as i128),
        (Value::Int64(x), Value::Int64(y)) => cmp_i128(*x as i128, *y as i128),
        (Value::UInt16(x), Value::UInt16(y)) => cmp_i128(*x as i128, *y as i128),
        (Value::UInt32(x), Value::UInt32(y)) => cmp_i128(*x as i128, *y as i128),
        (Value::UInt64(x), Value::UInt64(y)) => cmp_i128(*x as i128, *y as i128),
        (Value::Float32(x), Value::Float32(y)) => cmp_f32_bits(*x, *y),
        (Value::Float64(x), Value::Float64(y)) => cmp_f64_bits(*x, *y),
        (Value::Decimal128(x), Value::Decimal128(y)) => {
            if x.v != y.v {
                cmp_i128(x.v, y.v)
            } else if x.precision != y.precision {
                cmp_i128(x.precision as i128, y.precision as i128)
            } else {
                cmp_i128(x.scale as i128, y.scale as i128)
            }
        },
        (Value::Date(x), Value::Date(y)) => cmp_i128(*x as i128, *y as i128),
        (Value::DateTime(x), Value::DateTime(y)) => cmp_i128(*x as i128, *y as i128),
        _ => {
            let ra = rank(a);
            let rb = rank(b);
            cmp_i128(ra as i128, rb as i128)
        },
    }
}

/// The greater of two values; on a tie the second is returned, as `Ord::max`
/// does.
pub open spec fn spec_value_max(a: Value, b: Value) -> Value {
    if spec_value_cmp(a, b) == ValOrd::Gt {
        a
    } else {
        b
    }
}

pub fn value_max(a: Value, b: Value) -> (r: Value)
    ensures
        r == spec_value_max(a, b),
{
    match value_cmp(&a, &b) {
        ValOrd::Gt => a,
        _ => b,
    }
}

/// The lesser of two values; on a tie the first is returned, as `Ord::min`
/// does.
pub open spec fn spec_value_min(a: Value, b: Value) -> Value {
    if spec_value_cmp(a, b) == ValOrd::Gt {
        b
    } else {
        a
    }
}

pub fn value_min(a: Value, b: Value) -> (r: Value)
    ensures
        r == spec_value_min(a, b),
{
    match value_cmp(&a, &b) {
        ValOrd::Gt => b,
        _ => a,
    }
}

/// Every value compares equal to itself.
pub proof fn lemma_value_cmp_refl(v: Value)
    ensures
        spec_value_cmp(v, v) == ValOrd::Eq,
{
}

/// Swapping the sides of a comparison flips its outcome.
pub proof fn lemma_value_cmp_flip(a: Value, b: Value)
    ensures
        (spec_value_cmp(a, b) == ValOrd::Lt) <==> (spec_value_cmp(b, a) == ValOrd::Gt),
        (spec_value_cmp(a, b) == ValOrd::Eq) <==> (spec_value_cmp(b, a) == ValOrd::Eq),
{
}

/// The order on values is transitive in its non-strict form.
pub proof fn lemma_value_cmp_trans(a: Value, b: Value, c: Value)
    requires
        spec_value_cmp(a, b) != ValOrd::Gt,
        spec_value_cmp(b, c) != ValOrd::Gt,
    ensures
        spec_value_cmp(a, c) != ValOrd::Gt,
{
}

} // verus!
