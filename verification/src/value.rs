//! The runtime value model and its operator semantics.
//!
//! A value is a tagged union of a number (held as its IEEE-754 binary64 bit
//! pattern), a boolean, nil, or a reference into the virtual machine's
//! interned-string table. Arithmetic is defined only on pairs of numbers;
//! any other combination fails with a kind naming which side had the
//! unexpected type. Division additionally fails on a zero right operand.

use vstd::prelude::*;

use crate::numeric::spec_add_bits;
use crate::numeric::spec_div_bits;
use crate::numeric::spec_eq_bits;
use crate::numeric::spec_is_nan_bits;
use crate::numeric::spec_is_zero_bits;
use crate::numeric::spec_lt_bits;
use crate::numeric::spec_mul_bits;
use crate::numeric::spec_neg_bits;
use crate::numeric::spec_sub_bits;
use crate::numeric::add_bits;
use crate::numeric::div_bits;
use crate::numeric::is_nan_bits;
use crate::numeric::is_zero_bits;
use crate::numeric::lt_bits;
use crate::numeric::mul_bits;
use crate::numeric::neg_bits;
use crate::numeric::sub_bits;

verus! {

/// A reference to a heap object; the only kind is an index into the
/// virtual machine's interned-string table.
#[derive(Debug, Clone, Copy, PartialEq, Eq, Structural)]
pub enum Object {
    StringObject(usize),
}

/// A runtime value. `Float` carries the IEEE-754 binary64 bit pattern of
/// the number it stands for.
#[derive(Debug, Clone, Copy, PartialEq, Eq, Structural)]
pub enum Value {
    Float(u64),
    Boolean(bool),
    Nil,
    Obj(Object),
}

impl Value {
    /// A value referring to the interned string at the given index.
    pub fn new_string(pointer: usize) -> (r: Self)
        ensures
            r == Value::Obj(Object::StringObject(pointer)),
    {
        Value::Obj(Object::StringObject(pointer))
    }

    /// Whether the value is a string reference.
    pub fn is_string_object(&self) -> (r: bool)
        ensures
            r == self is Obj,
    {
        matches!(self, Value::Obj(Object::StringObject(..)))
    }

    /// The index of the interned string the value refers to, if any.
    pub fn get_string_ref(&self) -> (r: Option<usize>)
        ensures
            r == spec_string_ref(*self),
    {
        match self {
            Value::Obj(Object::StringObject(s)) => Some(*s),
            _ => None,
        }
    }
}

/// The interned-string index a value refers to, if any.
pub open spec fn spec_string_ref(v: Value) -> Option<usize> {
    match v {
        Value::Obj(Object::StringObject(s)) => Some(s),
        _ => None,
    }
}

/// Every string reference in the value is an index into the string table.
pub open spec fn value_wf(v: Value, nstrings: int) -> bool {
    match spec_string_ref(v) {
        Some(i) => i < nstrings,
        None => true,
    }
}

/// Every string reference among the values addresses the string table.
pub open spec fn values_wf(vs: Seq<Value>, nstrings: int) -> bool {
    forall|i: int| 0 <= i < vs.len() ==> value_wf(vs[i], nstrings)
}

/// The side of a binary operation that had an unexpected operand type.
#[derive(Debug, Clone, Copy, PartialEq, Eq, Structural)]
pub enum OpErr {
    BooleanErr,
    FloatBooleanErr,
    BooleanFloatErr,
}

/// Failure of an addition: a typed operand mismatch.
#[derive(Debug, Clone, Copy, PartialEq, Eq, Structural)]
pub struct AdditionErr(pub OpErr);

/// Failure of a subtraction: a typed operand mismatch.
#[derive(Debug, Clone, Copy, PartialEq, Eq, Structural)]
pub struct SubtractionErr(pub OpErr);

/// Failure of a division: a typed operand mismatch, or a zero right operand.
#[derive(Debug, Clone, Copy, PartialEq, Eq, Structural)]
pub struct DivisionErr {
    pub op_err: Option<OpErr>,
    pub divide_by_zero: bool,
}

/// Failure of a multiplication: a typed operand mismatch.
#[derive(Debug, Clone, Copy, PartialEq, Eq, Structural)]
pub struct MultiplyErr(pub OpErr);

/// Failure of a negation: the operand was not a number.
#[derive(Debug, Clone, Copy, PartialEq, Eq, Structural)]
pub struct NegErr(pub OpErr);

impl From<OpErr> for AdditionErr {
    /// An addition failure from the side that was mistyped.
    fn from(value: OpErr) -> (r: Self) {
        Self(value)
    }
}

impl vstd::std_specs::convert::FromSpecImpl<OpErr> for AdditionErr {
    open spec fn obeys_from_spec() -> bool {
        true
    }

    open spec fn from_spec(v: OpErr) -> Self {
        AdditionErr(v)
    }
}

impl From<OpErr> for SubtractionErr {
    /// A subtraction failure from the side that was mistyped.
    fn from(value: OpErr) -> (r: Self) {
        Self(value)
    }
}

impl vstd::std_specs::convert::FromSpecImpl<OpErr> for SubtractionErr {
    open spec fn obeys_from_spec() -> bool {
        true
    }

    open spec fn from_spec(v: OpErr) -> Self {
        SubtractionErr(v)
    }
}

impl From<OpErr> for MultiplyErr {
    /// A multiplication failure from the side that was mistyped.
    fn from(value: OpErr) -> (r: Self) {
        Self(value)
    }
}

impl vstd::std_specs::convert::FromSpecImpl<OpErr> for MultiplyErr {
    open spec fn obeys_from_spec() -> bool {
        true
    }

    open spec fn from_spec(v: OpErr) -> Self {
        MultiplyErr(v)
    }
}

impl From<OpErr> for DivisionErr {
    /// A division failure from the side that was mistyped, not the
    /// divide-by-zero kind.
    fn from(value: OpErr) -> (r: Self) {
        Self { op_err: Some(value), divide_by_zero: false }
    }
}

impl vstd::std_specs::convert::FromSpecImpl<OpErr> for DivisionErr {
    open spec fn obeys_from_spec() -> bool {
        true
    }

    open spec fn from_spec(v: OpErr) -> Self {
        DivisionErr { op_err: Some(v), divide_by_zero: false }
    }
}

impl From<OpErr> for NegErr {
    /// A negation failure from the mistyped operand.
    fn from(value: OpErr) -> (r: Self) {
        Self(value)
    }
}

impl vstd::std_specs::convert::FromSpecImpl<OpErr> for NegErr {
    open spec fn obeys_from_spec() -> bool {
        true
    }

    open spec fn from_spec(v: OpErr) -> Self {
        NegErr(v)
    }
}

impl DivisionErr {
    /// The division error for a zero right operand.
    pub fn divide_by_zero_err() -> (r: Self)
        ensures
            r == (DivisionErr { op_err: None, divide_by_zero: true }),
    {
        Self { op_err: None, divide_by_zero: true }
    }
}

/// Which side of a non-numeric operand pair was the unexpected one: the kind
/// names the left tag then the right tag, a number counting as `Float` and
/// every other tag counting as `Boolean`.
pub open spec fn spec_mismatch_kind(a: Value, b: Value) -> OpErr {
    match (a, b) {
        (Value::Float(_), _) => OpErr::FloatBooleanErr,
        (_, Value::Float(_)) => OpErr::BooleanFloatErr,
        _ => OpErr::BooleanErr,
    }
}

/// Addition: defined only on two numbers; the sum's bit pattern otherwise a
/// typed mismatch. (String concatenation is the virtual machine's affair:
/// it needs the intern table and is handled before this operator is asked.)
pub open spec fn spec_add_value(a: Value, b: Value) -> Result<Value, AdditionErr> {
    match (a, b) {
        (Value::Float(x), Value::Float(y)) => Ok(Value::Float(spec_add_bits(x, y))),
        _ => Err(AdditionErr(spec_mismatch_kind(a, b))),
    }
}

/// Subtraction: defined only on two numbers.
pub open spec fn spec_sub_value(a: Value, b: Value) -> Result<Value, SubtractionErr> {
    match (a, b) {
        (Value::Float(x), Value::Float(y)) => Ok(Value::Float(spec_sub_bits(x, y))),
        _ => Err(SubtractionErr(spec_mismatch_kind(a, b))),
    }
}

/// Multiplication: defined only on two numbers.
pub open spec fn spec_mul_value(a: Value, b: Value) -> Result<Value, MultiplyErr> {
    match (a, b) {
        (Value::Float(x), Value::Float(y)) => Ok(Value::Float(spec_mul_bits(x, y))),
        _ => Err(MultiplyErr(spec_mismatch_kind(a, b))),
    }
}

/// Division: defined only on two numbers, and the right one must not encode
/// zero; a zero right operand is its own error kind, reported whatever the
/// left operand's tag.
pub open spec fn spec_div_value(a: Value, b: Value) -> Result<Value, DivisionErr> {
    match (a, b) {
        (Value::Float(x), Value::Float(y)) => if spec_is_zero_bits(y) {
            Err(DivisionErr { op_err: None, divide_by_zero: true })
        } else {
            Ok(Value::Float(spec_div_bits(x, y)))
        },
        _ => Err(
            DivisionErr { op_err: Some(spec_mismatch_kind(a, b)), divide_by_zero: false },
        ),
    }
}

/// Negation: defined only on a number, by flipping its sign bit.
pub open spec fn spec_neg_value(a: Value) -> Result<Value, NegErr> {
    match a {
        Value::Float(x) => Ok(Value::Float(spec_neg_bits(x))),
        _ => Err(NegErr(spec_mismatch_kind(a, a))),
    }
}

/// Equality of two values, given the interned-string table: values of
/// different tags are never equal; numbers compare as IEEE-754 values
/// (the two zeroes are equal, a NaN equals nothing, itself included);
/// string references compare by interned content, not by index; booleans
/// compare as booleans, and nil equals nil.
pub open spec fn spec_equal_values(a: Value, b: Value, strings: Seq<Seq<char>>) -> bool {
    match (a, b) {
        (Value::Float(x), Value::Float(y)) => spec_eq_bits(x, y),
        (Value::Boolean(p), Value::Boolean(q)) => p == q,
        (Value::Nil, Value::Nil) => true,
        (Value::Obj(Object::StringObject(i)), Value::Obj(Object::StringObject(j))) => strings[
            i as int
        ] == strings[j as int],
        _ => false,
    }
}

/// Whether ordering is defined between two values: both must be numbers and
/// neither a NaN.
pub open spec fn spec_comparable(a: Value, b: Value) -> bool {
    match (a, b) {
        (Value::Float(x), Value::Float(y)) => !spec_is_nan_bits(x) && !spec_is_nan_bits(y),
        _ => false,
    }
}

/// Strict `<` on two comparable values.
pub open spec fn spec_lt_value(a: Value, b: Value) -> bool
    recommends
        spec_comparable(a, b),
{
    match (a, b) {
        (Value::Float(x), Value::Float(y)) => spec_lt_bits(x, y),
        _ => false,
    }
}

impl Value {
    /// Add two values.
    pub fn add(self, rhs: Value) -> (r: Result<Value, AdditionErr>)
        ensures
            r == spec_add_value(self, rhs),
    {
        match (self, rhs) {
            (Value::Float(x), Value::Float(y)) => Ok(Value::Float(add_bits(x, y))),
            _ => Err(AdditionErr::from(mismatch_kind(self, rhs))),
        }
    }

    /// Subtract a value from this one.
    pub fn sub(self, rhs: Value) -> (r: Result<Value, SubtractionErr>)
        ensures
            r == spec_sub_value(self, rhs),
    {
        match (self, rhs) {
            (Value::Float(x), Value::Float(y)) => Ok(Value::Float(sub_bits(x, y))),
            _ => Err(SubtractionErr::from(mismatch_kind(self, rhs))),
        }
    }

    /// Multiply two values.
    pub fn mul(self, rhs: Value) -> (r: Result<Value, MultiplyErr>)
        ensures
            r == spec_mul_value(self, rhs),
    {
        match (self, rhs) {
            (Value::Float(x), Value::Float(y)) => Ok(Value::Float(mul_bits(x, y))),
            _ => Err(MultiplyErr::from(mismatch_kind(self, rhs))),
        }
    }

    /// Divide this value by another.
    pub fn div(self, rhs: Value) -> (r: Result<Value, DivisionErr>)
        ensures
            r == spec_div_value(self, rhs),
    {
        match (self, rhs) {
            (Value::Float(x), Value::Float(y)) => if is_zero_bits(y) {
                Err(DivisionErr { op_err: None, divide_by_zero: true })
            } else {
                Ok(Value::Float(div_bits(x, y)))
            },
            _ => Err(DivisionErr::from(mismatch_kind(self, rhs))),
        }
    }

    /// Negate a value.
    pub fn neg(self) -> (r: Result<Value, NegErr>)
        ensures
            r == spec_neg_value(self),
    {
        match self {
            Value::Float(x) => Ok(Value::Float(neg_bits(x))),
            _ => Err(NegErr::from(mismatch_kind(self, self))),
        }
    }

    /// Compare two values, if ordering is defined between them: `Less`,
    /// `Equal` or `Greater` for two non-NaN numbers, `None` otherwise.
    pub fn compare(self, rhs: Value) -> (r: Option<core::cmp::Ordering>)
        ensures
            spec_comparable(self, rhs) ==> r == Some(
                if spec_lt_value(self, rhs) {
                    core::cmp::Ordering::Less
                } else if spec_lt_value(rhs, self) {
                    core::cmp::Ordering::Greater
                } else {
                    core::cmp::Ordering::Equal
                },
            ),
            !spec_comparable(self, rhs) ==> r is None,
    {
        match (self, rhs) {
            (Value::Float(x), Value::Float(y)) => {
                if is_nan_bits(x) || is_nan_bits(y) {
                    None
                } else if lt_bits(x, y) {
                    Some(core::cmp::Ordering::Less)
                } else if lt_bits(y, x) {
                    Some(core::cmp::Ordering::Greater)
                } else {
                    Some(core::cmp::Ordering::Equal)
                }
            },
            _ => None,
        }
    }
}

/// Type-mismatch law: arithmetic never coerces. Unless both operands are
/// numbers, addition, subtraction, multiplication and division all fail with
/// a typed operand error, and negation fails unless its operand is a number.
/// (Addition of two string references is the virtual machine's
/// concatenation, handled before this operator is consulted.)
pub proof fn lemma_mixed_operands_rejected(a: Value, b: Value)
    requires
        !(a is Float && b is Float),
    ensures
        spec_add_value(a, b) is Err,
        spec_sub_value(a, b) is Err,
        spec_mul_value(a, b) is Err,
        spec_div_value(a, b) is Err,
        !(a is Float) ==> spec_neg_value(a) is Err,
{
}

/// Division law: on two numbers, division succeeds exactly when the right
/// operand does not encode zero, and a zero right operand is the distinct
/// divide-by-zero error — never a silent non-finite result.
pub proof fn lemma_division_total(x: u64, y: u64)
    ensures
        spec_is_zero_bits(y) ==> spec_div_value(Value::Float(x), Value::Float(y)) == Err::<
            Value,
            DivisionErr,
        >(DivisionErr { op_err: None, divide_by_zero: true }),
        !spec_is_zero_bits(y) ==> spec_div_value(Value::Float(x), Value::Float(y)) == Ok::<
            Value,
            DivisionErr,
        >(Value::Float(spec_div_bits(x, y))),
{
}

/// Equality law: values of different tags are never equal, and two string
/// references are equal exactly when their interned contents are — never by
/// index identity.
pub proof fn lemma_equality_tags(a: Value, b: Value, strings: Seq<Seq<char>>)
    ensures
        !((a is Float && b is Float) || (a is Boolean && b is Boolean) || (a is Nil && b is Nil)
            || (a is Obj && b is Obj)) ==> !spec_equal_values(a, b, strings),
        (a is Obj && b is Obj) ==> (spec_equal_values(a, b, strings) <==> strings[
            spec_string_ref(a).unwrap() as int
        ] == strings[spec_string_ref(b).unwrap() as int]),
{
}

/// Which side of a non-numeric operand pair was the unexpected one.
fn mismatch_kind(a: Value, b: Value) -> (r: OpErr)
    ensures
        r == spec_mismatch_kind(a, b),
{
    match (a, b) {
        (Value::Float(_), _) => OpErr::FloatBooleanErr,
        (_, Value::Float(_)) => OpErr::BooleanFloatErr,
        _ => OpErr::BooleanErr,
    }
}

} // verus!
