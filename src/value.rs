use vstd::prelude::*;

use crate::data_block::DataBlock;
use crate::error::ErrorKind;
use crate::integer_indexed_object::IntegerIndexedObject;

verus! {

/// The largest integer that a number holds exactly.
pub const MAX_SAFE_INTEGER: i64 = 9007199254740991;

/// A number value, as far as construction reads it: an integral value, or one of the
/// three non-finite values.
#[derive(Debug, Clone, Copy, PartialEq, Eq, Structural)]
pub enum NumberValue {
    Integer(i64),
    NaN,
    PositiveInfinity,
    NegativeInfinity,
}

/// A value that is not an object.
#[derive(Debug, Clone, Copy, PartialEq, Eq, Structural)]
pub enum Primitive {
    Undefined,
    Null,
    Boolean(bool),
    Number(NumberValue),
    BigInt(i128),
    Symbol,
}

/// What reading the "prototype" property of a construction target gives.
#[derive(Debug, Clone, Copy, PartialEq, Eq, Structural)]
pub enum PrototypeSlot {
    /// An object, named by its handle.
    Object(u64),
    /// A value that is not an object.
    NotAnObject,
    /// The read raised this failure.
    Throws(ErrorKind),
}

/// A buffer object: raw byte storage and whether it has been detached.
#[derive(Debug, Clone)]
pub struct ArrayBuffer {
    pub data: DataBlock,
    pub detached: bool,
}

/// An object with an iteration capability: draining it yields `values` in order, and
/// then raises `failure`, if there is one.
#[derive(Debug, Clone)]
pub struct IterableSource {
    pub values: Vec<Primitive>,
    pub failure: Option<ErrorKind>,
}

/// An object without an iteration capability: its `length` property and its indexed
/// properties; an index past `elements` reads as undefined.
#[derive(Debug, Clone)]
pub struct ArrayLikeSource {
    pub length: Primitive,
    pub elements: Vec<Primitive>,
}

/// The category of an object, as construction dispatches on it.
#[derive(Debug, Clone)]
pub enum ObjectData {
    Ordinary,
    TypedArray(IntegerIndexedObject),
    ArrayBuffer(ArrayBuffer),
    Iterable(IterableSource),
    ArrayLike(ArrayLikeSource),
}

/// An object: its "prototype" property and its category.
#[derive(Debug, Clone)]
pub struct JsObject {
    pub prototype: PrototypeSlot,
    pub data: ObjectData,
}

/// A value handed to a constructor.
#[derive(Debug, Clone)]
pub enum JsValue {
    Primitive(Primitive),
    Object(JsObject),
}

/// `ToIndex`: a non-negative integer no larger than the largest safe integer.
pub open spec fn spec_to_index(p: Primitive) -> Result<nat, ErrorKind> {
    match p {
        Primitive::Undefined | Primitive::Null => Ok(0),
        Primitive::Boolean(b) => Ok(if b { 1 } else { 0 }),
        Primitive::Number(n) => match n {
            NumberValue::Integer(i) => if i < 0 || i > MAX_SAFE_INTEGER {
                Err(ErrorKind::RangeError)
            } else {
                Ok(i as nat)
            },
            NumberValue::NaN => Ok(0),
            _ => Err(ErrorKind::RangeError),
        },
        Primitive::BigInt(_) | Primitive::Symbol => Err(ErrorKind::TypeError),
    }
}

/// The length of an array-like object: as `ToIndex`, except that a value that is not
/// convertible to a number is a range error as well.
pub open spec fn spec_array_like_length(p: Primitive) -> Result<nat, ErrorKind> {
    match p {
        Primitive::BigInt(_) | Primitive::Symbol => Err(ErrorKind::RangeError),
        _ => spec_to_index(p),
    }
}

/// Converts a primitive with `ToIndex`.
pub fn to_index(p: Primitive) -> (r: Result<u64, ErrorKind>)
    ensures
        r matches Ok(n) ==> spec_to_index(p) == Ok::<nat, ErrorKind>(n as nat),
        r matches Ok(n) ==> n <= MAX_SAFE_INTEGER,
        r matches Err(e) ==> spec_to_index(p) == Err::<nat, ErrorKind>(e),
{
    match p {
        Primitive::Undefined | Primitive::Null => Ok(0),
        Primitive::Boolean(b) => Ok(
            if b {
                1
            } else {
                0
            },
        ),
        Primitive::Number(n) => match n {
            NumberValue::Integer(i) => {
                if i < 0 || i > MAX_SAFE_INTEGER {
                    Err(ErrorKind::RangeError)
                } else {
                    Ok(i as u64)
                }
            },
            NumberValue::NaN => Ok(0),
            _ => Err(ErrorKind::RangeError),
        },
        Primitive::BigInt(_) | Primitive::Symbol => Err(ErrorKind::TypeError),
    }
}

/// Reads the length of an array-like object.
pub fn array_like_length(p: Primitive) -> (r: Result<u64, ErrorKind>)
    ensures
        r matches Ok(n) ==> spec_array_like_length(p) == Ok::<nat, ErrorKind>(n as nat),
        r matches Ok(n) ==> n <= MAX_SAFE_INTEGER,
        r matches Err(e) ==> spec_array_like_length(p) == Err::<nat, ErrorKind>(e),
{
    match p {
        Primitive::BigInt(_) | Primitive::Symbol => Err(ErrorKind::RangeError),
        _ => to_index(p),
    }
}

} // verus!
