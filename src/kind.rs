use vstd::prelude::*;

verus! {

/// How the elements of a typed array are seen by the language.
#[derive(Debug, Clone, Copy, PartialEq, Eq, Structural)]
pub enum ContentType {
    Number,
    BigInt,
}

/// The eleven element kinds of a typed array.
#[derive(Debug, Clone, Copy, PartialEq, Eq, Structural)]
pub enum TypedArrayName {
    Int8Array,
    Uint8Array,
    Uint8ClampedArray,
    Int16Array,
    Uint16Array,
    Int32Array,
    Uint32Array,
    BigInt64Array,
    BigUint64Array,
    Float32Array,
    Float64Array,
}

impl TypedArrayName {
    /// Bytes taken by one element of this kind.
    pub open spec fn spec_element_size(self) -> nat {
        match self {
            TypedArrayName::Int8Array | TypedArrayName::Uint8Array
            | TypedArrayName::Uint8ClampedArray => 1,
            TypedArrayName::Int16Array | TypedArrayName::Uint16Array => 2,
            TypedArrayName::Int32Array | TypedArrayName::Uint32Array
            | TypedArrayName::Float32Array => 4,
            TypedArrayName::BigInt64Array | TypedArrayName::BigUint64Array
            | TypedArrayName::Float64Array => 8,
        }
    }

    /// Content type of this kind: big integers for the two 64-bit big-integer kinds.
    pub open spec fn spec_content_type(self) -> ContentType {
        match self {
            TypedArrayName::BigInt64Array | TypedArrayName::BigUint64Array => ContentType::BigInt,
            _ => ContentType::Number,
        }
    }

    /// The two floating-point kinds.
    pub open spec fn spec_is_float(self) -> bool {
        self is Float32Array || self is Float64Array
    }

    /// The kinds whose elements are read back as signed integers.
    pub open spec fn spec_is_signed(self) -> bool {
        self is Int8Array || self is Int16Array || self is Int32Array || self is BigInt64Array
    }

    /// Gets the element size of this kind.
    pub fn element_size(self) -> (r: usize)
        ensures
            r == self.spec_element_size(),
            r == 1 || r == 2 || r == 4 || r == 8,
    {
        match self {
            TypedArrayName::Int8Array | TypedArrayName::Uint8Array
            | TypedArrayName::Uint8ClampedArray => 1,
            TypedArrayName::Int16Array | TypedArrayName::Uint16Array => 2,
            TypedArrayName::Int32Array | TypedArrayName::Uint32Array
            | TypedArrayName::Float32Array => 4,
            TypedArrayName::BigInt64Array | TypedArrayName::BigUint64Array
            | TypedArrayName::Float64Array => 8,
        }
    }

    /// Gets the content type of this kind.
    pub fn content_type(self) -> (r: ContentType)
        ensures
            r == self.spec_content_type(),
    {
        match self {
            TypedArrayName::BigInt64Array | TypedArrayName::BigUint64Array => ContentType::BigInt,
            _ => ContentType::Number,
        }
    }

    /// Whether this is one of the two floating-point kinds.
    pub fn is_float(self) -> (r: bool)
        ensures
            r == self.spec_is_float(),
    {
        matches!(self, TypedArrayName::Float32Array | TypedArrayName::Float64Array)
    }
}

/// The content type is `BigInt` for exactly the two 64-bit big-integer kinds, and
/// `Number` for the nine others.
pub proof fn lemma_content_type_is_bigint_exactly_for_big_integer_kinds(kind: TypedArrayName)
    ensures
        kind.spec_content_type() == ContentType::BigInt <==> (kind is BigInt64Array
            || kind is BigUint64Array),
        kind.spec_content_type() == ContentType::Number <==> !(kind is BigInt64Array
            || kind is BigUint64Array),
{
}

} // verus!
