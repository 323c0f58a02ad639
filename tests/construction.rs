use typed_arrays::data_block::DataBlock;
use typed_arrays::error::ErrorKind;
use typed_arrays::int8_array::Int8Array;
use typed_arrays::integer_indexed_object::IntegerIndexedObject;
use typed_arrays::kind::{ContentType, TypedArrayName};
use typed_arrays::typed_array::{
    allocate_typed_array, construct_typed_array, Constructed, PendingWrites, TypedArray,
};
use typed_arrays::value::{
    to_index, ArrayBuffer, ArrayLikeSource, IterableSource, JsObject, JsValue, NumberValue,
    ObjectData, Primitive, PrototypeSlot,
};

const ALL_KINDS: [TypedArrayName; 11] = [
    TypedArrayName::Int8Array,
    TypedArrayName::Uint8Array,
    TypedArrayName::Uint8ClampedArray,
    TypedArrayName::Int16Array,
    TypedArrayName::Uint16Array,
    TypedArrayName::Int32Array,
    TypedArrayName::Uint32Array,
    TypedArrayName::BigInt64Array,
    TypedArrayName::BigUint64Array,
    TypedArrayName::Float32Array,
    TypedArrayName::Float64Array,
];

const DEFAULT_PROTO: u64 = 7;

fn target() -> JsValue {
    JsValue::Object(JsObject { prototype: PrototypeSlot::NotAnObject, data: ObjectData::Ordinary })
}

fn integer(i: i64) -> JsValue {
    JsValue::Primitive(Primitive::Number(NumberValue::Integer(i)))
}

fn num(i: i64) -> Primitive {
    Primitive::Number(NumberValue::Integer(i))
}

fn object(data: ObjectData) -> JsValue {
    JsValue::Object(JsObject { prototype: PrototypeSlot::NotAnObject, data })
}

fn buffer(len: usize) -> JsValue {
    object(ObjectData::ArrayBuffer(ArrayBuffer {
        data: DataBlock::create_byte_data_block(len).unwrap(),
        detached: false,
    }))
}

fn build(kind: TypedArrayName, args: &[JsValue]) -> Result<Constructed, ErrorKind> {
    construct_typed_array(kind, &target(), args, DEFAULT_PROTO)
}

fn elements(view: &IntegerIndexedObject) -> Vec<i128> {
    (0..view.array_length()).map(|i| view.get_index(i).unwrap()).collect()
}

fn from_list(kind: TypedArrayName, values: Vec<Primitive>) -> Result<Constructed, ErrorKind> {
    build(kind, &[object(ObjectData::Iterable(IterableSource { values, failure: None }))])
}

#[test]
fn no_arguments_give_an_empty_view() {
    let c = build(TypedArrayName::Int8Array, &[]).unwrap();
    assert_eq!(c.view.array_length(), 0);
    assert_eq!(c.view.byte_length(), 0);
    assert!(c.view.is_attached());
    assert_eq!(c.view.prototype(), DEFAULT_PROTO);
}

#[test]
fn length_five_gives_five_zero_elements() {
    let c = Int8Array::constructor(&target(), &[integer(5)], DEFAULT_PROTO).unwrap();
    assert_eq!(c.view.byte_length(), 5);
    assert_eq!(c.view.array_length(), 5);
    assert_eq!(elements(&c.view), vec![0, 0, 0, 0, 0]);
    assert!(matches!(c.pending, PendingWrites::Nothing));
}

#[test]
fn length_gives_element_size_times_length_bytes() {
    let c = build(TypedArrayName::Float64Array, &[integer(3)]).unwrap();
    assert_eq!(c.view.byte_length(), 24);
    assert_eq!(c.view.buffer().len(), 24);
}

#[test]
fn view_over_buffer_slice() {
    let c = build(TypedArrayName::Int8Array, &[buffer(10), integer(2), integer(3)]).unwrap();
    assert_eq!(c.view.byte_offset(), 2);
    assert_eq!(c.view.array_length(), 3);
    assert_eq!(c.view.byte_length(), 3);
}

#[test]
fn view_over_whole_buffer_without_length() {
    let c = build(TypedArrayName::Int32Array, &[buffer(16), integer(4)]).unwrap();
    assert_eq!(c.view.byte_offset(), 4);
    assert_eq!(c.view.array_length(), 3);
    assert_eq!(c.view.byte_length(), 12);
}

#[test]
fn sixteen_bit_view_over_odd_buffer_fails() {
    for kind in [TypedArrayName::Int16Array, TypedArrayName::Uint16Array] {
        assert_eq!(build(kind, &[buffer(7)]).unwrap_err(), ErrorKind::RangeError);
    }
}

#[test]
fn misaligned_offset_fails() {
    let r = build(TypedArrayName::Int32Array, &[buffer(16), integer(2)]);
    assert_eq!(r.unwrap_err(), ErrorKind::RangeError);
}

#[test]
fn slice_past_buffer_end_fails() {
    let r = build(TypedArrayName::Int8Array, &[buffer(10), integer(8), integer(3)]);
    assert_eq!(r.unwrap_err(), ErrorKind::RangeError);
    let r = build(TypedArrayName::Int8Array, &[buffer(10), integer(11)]);
    assert_eq!(r.unwrap_err(), ErrorKind::RangeError);
}

#[test]
fn detached_buffer_fails() {
    let detached = object(ObjectData::ArrayBuffer(ArrayBuffer {
        data: DataBlock::create_byte_data_block(8).unwrap(),
        detached: true,
    }));
    let r = build(TypedArrayName::Int8Array, &[detached]);
    assert_eq!(r.unwrap_err(), ErrorKind::TypeError);
}

#[test]
fn missing_construction_target_fails_for_every_kind() {
    let undefined = JsValue::Primitive(Primitive::Undefined);
    for kind in ALL_KINDS {
        let r = construct_typed_array(kind, &undefined, &[integer(1)], DEFAULT_PROTO);
        assert_eq!(r.unwrap_err(), ErrorKind::TypeError);
    }
    let r = Int8Array::constructor(&undefined, &[], DEFAULT_PROTO);
    assert_eq!(r.unwrap_err(), ErrorKind::TypeError);
}

#[test]
fn typed_array_intrinsic_is_never_constructed() {
    assert_eq!(TypedArray::constructor(&target(), &[]).unwrap_err(), ErrorKind::TypeError);
}

#[test]
fn float_view_from_big_integer_view_fails() {
    let source = from_list(TypedArrayName::BigInt64Array, vec![Primitive::BigInt(5)]).unwrap();
    for kind in [TypedArrayName::Float32Array, TypedArrayName::Float64Array] {
        let r = build(kind, &[object(ObjectData::TypedArray(source.view.clone_view()))]);
        assert_eq!(r.unwrap_err(), ErrorKind::TypeError);
    }
}

#[test]
fn array_like_without_iterator_is_copied() {
    let source = object(ObjectData::ArrayLike(ArrayLikeSource {
        length: num(3),
        elements: vec![num(1), num(2), num(3)],
    }));
    let c = build(TypedArrayName::Int8Array, &[source]).unwrap();
    assert_eq!(c.view.array_length(), 3);
    assert_eq!(elements(&c.view), vec![1, 2, 3]);
}

#[test]
fn array_like_missing_index_reads_as_zero() {
    let source = object(ObjectData::ArrayLike(ArrayLikeSource {
        length: num(4),
        elements: vec![num(9)],
    }));
    let c = build(TypedArrayName::Uint8Array, &[source]).unwrap();
    assert_eq!(elements(&c.view), vec![9, 0, 0, 0]);
}

#[test]
fn array_like_with_negative_length_fails() {
    let source = object(ObjectData::ArrayLike(ArrayLikeSource { length: num(-1), elements: vec![] }));
    assert_eq!(build(TypedArrayName::Int8Array, &[source]).unwrap_err(), ErrorKind::RangeError);
    let source =
        object(ObjectData::ArrayLike(ArrayLikeSource { length: Primitive::Symbol, elements: vec![] }));
    assert_eq!(build(TypedArrayName::Int8Array, &[source]).unwrap_err(), ErrorKind::RangeError);
}

#[test]
fn ordinary_object_gives_empty_view() {
    let c = build(TypedArrayName::Uint32Array, &[object(ObjectData::Ordinary)]).unwrap();
    assert_eq!(c.view.array_length(), 0);
    assert!(c.view.is_attached());
}

#[test]
fn iterable_values_are_wrapped_to_the_kind() {
    let c = from_list(TypedArrayName::Uint8Array, vec![num(1), num(300), num(-1)]).unwrap();
    assert_eq!(elements(&c.view), vec![1, 44, 255]);
    let c = from_list(TypedArrayName::Int8Array, vec![num(200), Primitive::Boolean(true)]).unwrap();
    assert_eq!(elements(&c.view), vec![-56, 1]);
}

#[test]
fn clamped_kind_clamps() {
    let values = vec![
        num(300),
        num(-5),
        Primitive::Number(NumberValue::PositiveInfinity),
        Primitive::Number(NumberValue::NaN),
        num(17),
    ];
    let c = from_list(TypedArrayName::Uint8ClampedArray, values).unwrap();
    assert_eq!(elements(&c.view), vec![255, 0, 255, 0, 17]);
}

#[test]
fn multi_byte_elements_are_little_endian() {
    let c = from_list(TypedArrayName::Int32Array, vec![num(0x01020304), num(-2)]).unwrap();
    let b = c.view.buffer();
    let bytes: Vec<u8> = (0..b.len()).map(|i| b.get(i)).collect();
    assert_eq!(bytes, vec![4, 3, 2, 1, 0xFE, 0xFF, 0xFF, 0xFF]);
    assert_eq!(elements(&c.view), vec![0x01020304, -2]);
}

#[test]
fn big_integer_kind_takes_big_integers_only() {
    let c = from_list(TypedArrayName::BigInt64Array, vec![Primitive::BigInt(-1)]).unwrap();
    assert_eq!(elements(&c.view), vec![-1]);
    let c = from_list(TypedArrayName::BigUint64Array, vec![Primitive::BigInt(-1)]).unwrap();
    assert_eq!(elements(&c.view), vec![0xFFFF_FFFF_FFFF_FFFF]);
    let r = from_list(TypedArrayName::BigInt64Array, vec![num(1)]);
    assert_eq!(r.unwrap_err(), ErrorKind::TypeError);
}

#[test]
fn number_kind_rejects_big_integer_and_symbol() {
    let r = from_list(TypedArrayName::Int16Array, vec![num(1), Primitive::BigInt(1)]);
    assert_eq!(r.unwrap_err(), ErrorKind::TypeError);
    let r = from_list(TypedArrayName::Float32Array, vec![Primitive::Symbol]);
    assert_eq!(r.unwrap_err(), ErrorKind::TypeError);
}

#[test]
fn failing_iteration_fails_construction() {
    let source = object(ObjectData::Iterable(IterableSource {
        values: vec![num(1)],
        failure: Some(ErrorKind::RangeError),
    }));
    assert_eq!(build(TypedArrayName::Int8Array, &[source]).unwrap_err(), ErrorKind::RangeError);
}

#[test]
fn float_kind_leaves_numbers_to_write() {
    let c = from_list(TypedArrayName::Float64Array, vec![num(2), Primitive::Null]).unwrap();
    assert_eq!(c.view.byte_length(), 16);
    match c.pending {
        PendingWrites::Numbers(ns) => {
            assert_eq!(ns, vec![NumberValue::Integer(2), NumberValue::Integer(0)])
        }
        _ => panic!("expected numbers to write"),
    }
}

#[test]
fn same_kind_view_is_copied() {
    let source = from_list(TypedArrayName::Int16Array, vec![num(-300), num(5)]).unwrap();
    let c = build(TypedArrayName::Int16Array, &[object(ObjectData::TypedArray(source.view))]).unwrap();
    assert_eq!(elements(&c.view), vec![-300, 5]);
    assert_eq!(c.view.byte_offset(), 0);
}

#[test]
fn other_integer_kind_view_is_converted() {
    let source = from_list(TypedArrayName::Int8Array, vec![num(-1), num(100)]).unwrap();
    let src = || object(ObjectData::TypedArray(source.view.clone_view()));
    let c = build(TypedArrayName::Uint16Array, &[src()]).unwrap();
    assert_eq!(elements(&c.view), vec![65535, 100]);
    let c = build(TypedArrayName::Uint8ClampedArray, &[src()]).unwrap();
    assert_eq!(elements(&c.view), vec![0, 100]);
}

#[test]
fn float_conversion_is_left_to_the_caller() {
    let source = from_list(TypedArrayName::Int8Array, vec![num(3)]).unwrap();
    let c = build(TypedArrayName::Float32Array, &[object(ObjectData::TypedArray(source.view))])
        .unwrap();
    assert_eq!(c.view.byte_length(), 4);
    assert!(matches!(c.pending, PendingWrites::ConvertFrom(_)));
}

#[test]
fn prototype_comes_from_the_target() {
    let t = JsValue::Object(JsObject { prototype: PrototypeSlot::Object(42), data: ObjectData::Ordinary });
    let c = construct_typed_array(TypedArrayName::Uint8Array, &t, &[integer(1)], DEFAULT_PROTO).unwrap();
    assert_eq!(c.view.prototype(), 42);
    let t = JsValue::Object(JsObject {
        prototype: PrototypeSlot::Throws(ErrorKind::TypeError),
        data: ObjectData::Ordinary,
    });
    let r = construct_typed_array(TypedArrayName::Uint8Array, &t, &[integer(1)], DEFAULT_PROTO);
    assert_eq!(r.unwrap_err(), ErrorKind::TypeError);
}

#[test]
fn length_argument_errors() {
    let r = build(TypedArrayName::Int8Array, &[integer(-1)]);
    assert_eq!(r.unwrap_err(), ErrorKind::RangeError);
    let r = build(TypedArrayName::Int8Array, &[JsValue::Primitive(Primitive::Symbol)]);
    assert_eq!(r.unwrap_err(), ErrorKind::TypeError);
    let inf = JsValue::Primitive(Primitive::Number(NumberValue::PositiveInfinity));
    assert_eq!(build(TypedArrayName::Int8Array, &[inf]).unwrap_err(), ErrorKind::RangeError);
    let nan = JsValue::Primitive(Primitive::Number(NumberValue::NaN));
    assert_eq!(build(TypedArrayName::Int8Array, &[nan]).unwrap().view.array_length(), 0);
}

#[test]
fn to_index_bounds() {
    assert_eq!(to_index(num(9007199254740991)), Ok(9007199254740991));
    assert_eq!(to_index(num(9007199254740992)), Err(ErrorKind::RangeError));
    assert_eq!(to_index(Primitive::Boolean(true)), Ok(1));
    assert_eq!(to_index(Primitive::BigInt(1)), Err(ErrorKind::TypeError));
}

#[test]
fn overflowing_byte_length_fails_for_every_kind() {
    for kind in ALL_KINDS {
        let n = (isize::MAX as usize) / kind.element_size() + 1;
        let r = IntegerIndexedObject::allocate_typed_array_buffer(0, kind, n);
        assert_eq!(r.unwrap_err(), ErrorKind::RangeError);
    }
    let r = IntegerIndexedObject::allocate_typed_array_buffer(0, TypedArrayName::Float64Array, usize::MAX);
    assert_eq!(r.unwrap_err(), ErrorKind::RangeError);
}

#[test]
fn fresh_block_is_zeroed() {
    let b = DataBlock::create_byte_data_block(16).unwrap();
    assert_eq!(b.len(), 16);
    assert!((0..16).all(|i| b.get(i) == 0));
    assert_eq!(DataBlock::create_byte_data_block(usize::MAX).unwrap_err(), ErrorKind::RangeError);
}

#[test]
fn content_type_is_big_integer_for_two_kinds() {
    for kind in ALL_KINDS {
        let big = matches!(kind, TypedArrayName::BigInt64Array | TypedArrayName::BigUint64Array);
        let expected = if big { ContentType::BigInt } else { ContentType::Number };
        assert_eq!(kind.content_type(), expected);
    }
}

#[test]
fn element_sizes() {
    let sizes: Vec<usize> = ALL_KINDS.iter().map(|k| k.element_size()).collect();
    assert_eq!(sizes, vec![1, 1, 1, 2, 2, 4, 4, 8, 8, 4, 8]);
}

#[test]
fn allocation_without_length_is_unattached() {
    let v = allocate_typed_array(TypedArrayName::Int8Array, &target(), DEFAULT_PROTO, None).unwrap();
    assert!(!v.is_attached());
    assert_eq!(v.array_length(), 0);
    assert_eq!(v.content_type(), ContentType::Number);
    let v = IntegerIndexedObject::new(3, TypedArrayName::BigUint64Array);
    assert_eq!(v.content_type(), ContentType::BigInt);
    assert_eq!(v.typed_array_name(), TypedArrayName::BigUint64Array);
}
