//! Typed arrays of a language runtime: byte data blocks, the eleven element kinds, the
//! typed-array view, its allocation, and the constructor that builds a view from a
//! length, a buffer, another typed array, an iterable or an array-like object.
use vstd::prelude::*;

pub mod data_block;
pub mod element;
pub mod error;
pub mod int8_array;
pub mod integer_indexed_object;
pub mod kind;
pub mod typed_array;
pub mod value;
