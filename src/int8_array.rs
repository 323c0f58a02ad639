use vstd::prelude::*;

use crate::error::ErrorKind;
use crate::kind::TypedArrayName;
use crate::typed_array::{
    construct_typed_array,
    spec_args_wf,
    spec_construct,
    Constructed,
    PendingModel,
};
use crate::integer_indexed_object::TypedArrayState;
use crate::value::JsValue;

verus! {

/// The `Int8Array` constructor.
#[derive(Debug, Clone, Copy)]
pub struct Int8Array;

impl Int8Array {
    /// Constructs a view of signed 8-bit integers; `default_proto` is
    /// `%TypedArray.prototype%`, taken where the target names no prototype object.
    pub fn constructor(new_target: &JsValue, args: &[JsValue], default_proto: u64) -> (r: Result<
        Constructed,
        ErrorKind,
    >)
        requires
            spec_args_wf(args@),
        ensures
            ({
                let expected = spec_construct(
                    TypedArrayName::Int8Array,
                    *new_target,
                    args@,
                    default_proto,
                );
                &&& r is Ok <==> expected is Ok
                &&& r matches Ok(c) ==> expected == Ok::<(TypedArrayState, PendingModel), ErrorKind>(
                    (c.view@, c.pending@),
                ) && c.view@.wf()
                &&& r matches Err(e) ==> expected == Err::<(TypedArrayState, PendingModel), ErrorKind>(
                    e,
                )
            }),
    {
        construct_typed_array(TypedArrayName::Int8Array, new_target, args, default_proto)
    }
}

} // verus!
