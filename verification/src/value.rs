//! JavaScript values: what they are, and the ones that Rust code holds.

use vstd::prelude::*;

use crate::float::Float64;

verus! {

/// A JavaScript value as seen across the boundary, with everything that it reaches by value.
///
/// Numbers appear in the two forms in which they cross the boundary; a double is given by its
/// bit pattern. Objects that stay on the JavaScript side appear as the number of a reference.
pub enum JsValue {
    Undefined,
    Null,
    Bool(bool),
    I32(i32),
    F64(u64),
    Str(Seq<char>),
    Symbol(i32),
    Reference(i32),
    Array(Seq<JsValue>),
    /// The properties in the order in which they are given, each a key and a value.
    Object(Seq<(Seq<char>, JsValue)>),
    /// A view of raw memory: the number of the element type, and the bytes it shows.
    TypedArray(u32, Seq<u8>),
    /// A callback: its adapter, itself, and its deallocator.
    Function(u32, u32, u32),
    /// A callback that can be called a single time.
    FunctionOnce(u32, u32, u32),
}

/// JavaScript `undefined`.
#[derive(Copy, Clone, PartialEq, Eq, Debug)]
pub struct Undefined;

/// JavaScript `null`.
#[derive(Copy, Clone, PartialEq, Eq, Debug)]
pub struct Null;

/// A JavaScript symbol, by its number.
#[derive(PartialEq, Eq, Debug)]
pub struct Symbol(pub i32);

impl Clone for Symbol {
    fn clone(&self) -> (symbol: Symbol)
        ensures
            symbol == *self,
    {
        Symbol(self.0)
    }
}

/// A JavaScript object, by the number under which the JavaScript side keeps it.
#[derive(PartialEq, Eq, Debug)]
pub struct Reference {
    pub refid: i32,
}

impl Clone for Reference {
    fn clone(&self) -> (reference: Reference)
        ensures
            reference == *self,
    {
        Reference { refid: self.refid }
    }
}

impl Reference {
    /// Takes over the reference with the given number.
    pub fn from_raw_unchecked_noref(refid: i32) -> (reference: Reference)
        ensures
            reference.refid == refid,
    {
        Reference { refid }
    }

    /// The number of the reference.
    pub fn as_raw(&self) -> (refid: i32)
        ensures
            refid == self.refid,
    {
        self.refid
    }
}

/// A JavaScript number in the form in which it is stored.
#[derive(Copy, Clone, PartialEq, Eq, Debug)]
pub enum Number {
    I32(i32),
    F64(Float64),
}

impl View for Number {
    type V = JsValue;

    open spec fn view(&self) -> JsValue {
        match *self {
            Number::I32(value) => JsValue::I32(value),
            Number::F64(value) => JsValue::F64(value.bits),
        }
    }
}

/// A JavaScript value held by Rust code.
#[derive(PartialEq, Eq, Debug)]
pub enum Value {
    Undefined,
    Null,
    Bool(bool),
    Number(Number),
    Symbol(Symbol),
    String(String),
    Reference(Reference),
}

impl Clone for Value {
    fn clone(&self) -> (value: Value)
        ensures
            value == *self,
    {
        match self {
            Value::Undefined => Value::Undefined,
            Value::Null => Value::Null,
            Value::Bool(value) => Value::Bool(*value),
            Value::Number(value) => Value::Number(*value),
            Value::Symbol(value) => Value::Symbol(value.clone()),
            Value::String(value) => Value::String(value.clone()),
            Value::Reference(value) => Value::Reference(value.clone()),
        }
    }
}

impl View for Value {
    type V = JsValue;

    open spec fn view(&self) -> JsValue {
        match *self {
            Value::Undefined => JsValue::Undefined,
            Value::Null => JsValue::Null,
            Value::Bool(value) => JsValue::Bool(value),
            Value::Number(value) => value@,
            Value::Symbol(value) => JsValue::Symbol(value.0),
            Value::String(value) => JsValue::Str(value@),
            Value::Reference(value) => JsValue::Reference(value.refid),
        }
    }
}

} // verus!
