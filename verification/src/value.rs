//! The tagged scalar that every argument carries.

use vstd::prelude::*;
use vstd::std_specs::convert::IntoSpec;
use crate::error::Error;

verus! {

/// The four kinds a [`Value`] can have.
#[derive(Debug, Clone, Copy, PartialEq, Eq, Structural)]
pub enum Kind {
    Bool,
    Int64,
    Float64,
    String,
}

/// A scalar of one of four kinds, fixed when the value is made.
///
/// A `Float64` holds the IEEE-754 binary64 bit pattern of the number, so
/// that the value stays exact and comparable without floating-point
/// arithmetic.
#[derive(Debug, Clone, PartialEq, Eq)]
pub enum Value {
    Bool(bool),
    Float64(u64),
    Int64(i64),
    String(String),
}

/// The mathematical content of a [`Value`].
pub enum ValueView {
    Bool(bool),
    Float64(u64),
    Int64(i64),
    String(Seq<char>),
}

impl View for Value {
    type V = ValueView;

    open spec fn view(&self) -> ValueView {
        match *self {
            Value::Bool(b) => ValueView::Bool(b),
            Value::Float64(bits) => ValueView::Float64(bits),
            Value::Int64(i) => ValueView::Int64(i),
            Value::String(s) => ValueView::String(s@),
        }
    }
}

impl ValueView {
    /// The kind of the value.
    pub open spec fn kind(self) -> Kind {
        match self {
            ValueView::Bool(_) => Kind::Bool,
            ValueView::Float64(_) => Kind::Float64,
            ValueView::Int64(_) => Kind::Int64,
            ValueView::String(_) => Kind::String,
        }
    }
}

impl Value {
    /// The variant tag.
    pub fn kind(&self) -> (k: Kind)
        ensures
            k == self@.kind(),
    {
        match self {
            Value::Bool(_) => Kind::Bool,
            Value::Float64(_) => Kind::Float64,
            Value::Int64(_) => Kind::Int64,
            Value::String(_) => Kind::String,
        }
    }

    /// Whether the value is a boolean.
    pub fn is_bool(&self) -> (b: bool)
        ensures
            b == (self@ is Bool),
    {
        matches!(self, Value::Bool(..))
    }

    /// Whether the value is an integer.
    pub fn is_int64(&self) -> (b: bool)
        ensures
            b == (self@ is Int64),
    {
        matches!(self, Value::Int64(..))
    }

    /// Whether the value is a float.
    pub fn is_float64(&self) -> (b: bool)
        ensures
            b == (self@ is Float64),
    {
        matches!(self, Value::Float64(..))
    }

    /// Whether the value is a string.
    pub fn is_string(&self) -> (b: bool)
        ensures
            b == (self@ is String),
    {
        matches!(self, Value::String(..))
    }

    /// The boolean inside, or `ValueAccess("bool")` for any other kind.
    pub fn get_bool(&self) -> (r: Result<bool, Error>)
        ensures
            self@ matches ValueView::Bool(b) ==> r == Ok::<bool, Error>(b),
            !(self@ is Bool) ==> r == Err::<bool, Error>(Error::ValueAccess("bool")),
    {
        if let Value::Bool(b) = self {
            Ok(*b)
        } else {
            Err(Error::ValueAccess("bool"))
        }
    }

    /// The integer inside, or `ValueAccess("int64")` for any other kind.
    pub fn get_int64(&self) -> (r: Result<i64, Error>)
        ensures
            self@ matches ValueView::Int64(i) ==> r == Ok::<i64, Error>(i),
            !(self@ is Int64) ==> r == Err::<i64, Error>(Error::ValueAccess("int64")),
    {
        if let Value::Int64(i) = self {
            Ok(*i)
        } else {
            Err(Error::ValueAccess("int64"))
        }
    }

    /// The bit pattern of the float inside, or `ValueAccess("float64")` for
    /// any other kind.
    pub fn get_float64(&self) -> (r: Result<u64, Error>)
        ensures
            self@ matches ValueView::Float64(bits) ==> r == Ok::<u64, Error>(bits),
            !(self@ is Float64) ==> r == Err::<u64, Error>(Error::ValueAccess("float64")),
    {
        if let Value::Float64(bits) = self {
            Ok(*bits)
        } else {
            Err(Error::ValueAccess("float64"))
        }
    }

    /// The text inside, or `ValueAccess("string")` for any other kind.
    pub fn get_string(&self) -> (r: Result<&str, Error>)
        ensures
            self@ matches ValueView::String(s) ==> r is Ok && r->Ok_0@ == s,
            !(self@ is String) ==> r == Err::<&str, Error>(Error::ValueAccess("string")),
    {
        if let Value::String(s) = self {
            Ok(s.as_str())
        } else {
            Err(Error::ValueAccess("string"))
        }
    }
}

impl Value {
    /// Makes a value from anything that converts into one.
    pub fn new<T: Into<Value>>(val: T) -> (v: Value)
        ensures
            call_ensures(<T as Into<Value>>::into, (val,), v),
            T::obeys_into_spec() ==> v == val.into_spec(),
    {
        val.into()
    }

    /// Makes an integer value from an unsigned 64-bit number, which fits only
    /// up to `i64::MAX`: beyond that the conversion fails with
    /// `InvalidOperation`.
    pub fn from_u64(x: u64) -> (r: Result<Value, Error>)
        ensures
            x <= i64::MAX ==> r == Ok::<Value, Error>(Value::Int64(x as i64)),
            x > i64::MAX ==> r matches Err(Error::InvalidOperation(_)),
    {
        if x <= 0x7fff_ffff_ffff_ffffu64 {
            Ok(Value::Int64(x as i64))
        } else {
            Err(Error::InvalidOperation("unsigned integer exceeds the signed 64-bit range"))
        }
    }

    /// Makes a float value from the IEEE-754 binary64 bit pattern of the number.
    pub fn from_float_bits(bits: u64) -> (v: Value)
        ensures
            v == Value::Float64(bits),
    {
        Value::Float64(bits)
    }
}

/// `String::from` on a `char`, which std documents to give the string that
/// holds exactly that one character.
#[verifier::external_body]
pub(crate) fn char_to_string(c: char) -> (s: String)
    ensures
        s@ == seq![c],
{
    String::from(c)
}

/// A boolean is taken as it is.
impl From<bool> for Value {
    fn from(value: bool) -> (v: Value) {
        Value::Bool(value)
    }
}

impl vstd::std_specs::convert::FromSpecImpl<bool> for Value {
    open spec fn obeys_from_spec() -> bool {
        true
    }

    open spec fn from_spec(value: bool) -> Value {
        Value::Bool(value)
    }
}

/// An integer is taken as it is.
impl From<i64> for Value {
    fn from(value: i64) -> (v: Value) {
        Value::Int64(value)
    }
}

impl vstd::std_specs::convert::FromSpecImpl<i64> for Value {
    open spec fn obeys_from_spec() -> bool {
        true
    }

    open spec fn from_spec(value: i64) -> Value {
        Value::Int64(value)
    }
}

/// A narrower integer is widened to 64 bits.
impl From<i8> for Value {
    fn from(value: i8) -> (v: Value) {
        Value::Int64(value as i64)
    }
}

impl vstd::std_specs::convert::FromSpecImpl<i8> for Value {
    open spec fn obeys_from_spec() -> bool {
        true
    }

    open spec fn from_spec(value: i8) -> Value {
        Value::Int64(value as i64)
    }
}

/// A narrower integer is widened to 64 bits.
impl From<i16> for Value {
    fn from(value: i16) -> (v: Value) {
        Value::Int64(value as i64)
    }
}

impl vstd::std_specs::convert::FromSpecImpl<i16> for Value {
    open spec fn obeys_from_spec() -> bool {
        true
    }

    open spec fn from_spec(value: i16) -> Value {
        Value::Int64(value as i64)
    }
}

/// A narrower integer is widened to 64 bits.
impl From<i32> for Value {
    fn from(value: i32) -> (v: Value) {
        Value::Int64(value as i64)
    }
}

impl vstd::std_specs::convert::FromSpecImpl<i32> for Value {
    open spec fn obeys_from_spec() -> bool {
        true
    }

    open spec fn from_spec(value: i32) -> Value {
        Value::Int64(value as i64)
    }
}

/// A narrower integer is widened to 64 bits.
impl From<u8> for Value {
    fn from(value: u8) -> (v: Value) {
        Value::Int64(value as i64)
    }
}

impl vstd::std_specs::convert::FromSpecImpl<u8> for Value {
    open spec fn obeys_from_spec() -> bool {
        true
    }

    open spec fn from_spec(value: u8) -> Value {
        Value::Int64(value as i64)
    }
}

/// A narrower integer is widened to 64 bits.
impl From<u16> for Value {
    fn from(value: u16) -> (v: Value) {
        Value::Int64(value as i64)
    }
}

impl vstd::std_specs::convert::FromSpecImpl<u16> for Value {
    open spec fn obeys_from_spec() -> bool {
        true
    }

    open spec fn from_spec(value: u16) -> Value {
        Value::Int64(value as i64)
    }
}

/// A narrower integer is widened to 64 bits.
impl From<u32> for Value {
    fn from(value: u32) -> (v: Value) {
        Value::Int64(value as i64)
    }
}

impl vstd::std_specs::convert::FromSpecImpl<u32> for Value {
    open spec fn obeys_from_spec() -> bool {
        true
    }

    open spec fn from_spec(value: u32) -> Value {
        Value::Int64(value as i64)
    }
}

/// An owned string is kept.
impl From<String> for Value {
    fn from(value: String) -> (v: Value) {
        Value::String(value)
    }
}

impl vstd::std_specs::convert::FromSpecImpl<String> for Value {
    open spec fn obeys_from_spec() -> bool {
        true
    }

    open spec fn from_spec(value: String) -> Value {
        Value::String(value)
    }
}

/// A borrowed string is copied.
impl<'s> From<&'s str> for Value {
    fn from(value: &'s str) -> (v: Value)
        ensures
            v@ == ValueView::String(value@),
    {
        Value::String(value.to_owned())
    }
}

/// The conversion allocates, so its result is stated over the view only.
impl<'s> vstd::std_specs::convert::FromSpecImpl<&'s str> for Value {
    open spec fn obeys_from_spec() -> bool {
        false
    }

    open spec fn from_spec(value: &'s str) -> Value {
        choose|v: Value| v@ == ValueView::String(value@)
    }
}

/// A character becomes the string of that one character.
impl From<char> for Value {
    fn from(value: char) -> (v: Value)
        ensures
            v@ == ValueView::String(seq![value]),
    {
        Value::String(char_to_string(value))
    }
}

/// The conversion allocates, so its result is stated over the view only.
impl vstd::std_specs::convert::FromSpecImpl<char> for Value {
    open spec fn obeys_from_spec() -> bool {
        false
    }

    open spec fn from_spec(value: char) -> Value {
        choose|v: Value| v@ == ValueView::String(seq![value])
    }
}

} // verus!
