use vstd::prelude::*;

use crate::data_block::max_byte_length;
use crate::element::{
    element_integer,
    lemma_decode_encode,
    spec_element_integer,
    spec_in_range,
    spec_to_number,
};
use crate::error::ErrorKind;
use crate::integer_indexed_object::{
    lemma_encode_all_element,
    spec_elements,
    spec_encode_all,
    spec_retarget,
    IntegerIndexedObject,
    TypedArrayState,
};
use crate::kind::TypedArrayName;
use crate::value::{
    array_like_length,
    spec_array_like_length,
    spec_to_index,
    to_index,
    ArrayBuffer,
    JsValue,
    NumberValue,
    ObjectData,
    Primitive,
    PrototypeSlot,
};

verus! {

/// Element writes that a construction leaves to its caller: those whose values only a
/// floating-point conversion can store.
#[derive(Debug, Clone)]
pub enum PendingWrites {
    /// Every element is already stored.
    Nothing,
    /// Element `i` is to hold number `i`, in the view's floating-point kind.
    Numbers(Vec<NumberValue>),
    /// Element `i` is to hold element `i` of this view, converted to the view's kind;
    /// one of the two kinds is floating-point.
    ConvertFrom(IntegerIndexedObject),
}

/// What pending writes stand for.
pub enum PendingModel {
    Nothing,
    Numbers(Seq<NumberValue>),
    ConvertFrom(TypedArrayState),
}

impl View for PendingWrites {
    type V = PendingModel;

    open spec fn view(&self) -> PendingModel {
        match self {
            PendingWrites::Nothing => PendingModel::Nothing,
            PendingWrites::Numbers(v) => PendingModel::Numbers(v@),
            PendingWrites::ConvertFrom(o) => PendingModel::ConvertFrom(o@),
        }
    }
}

/// A constructed view, and the element writes left to the caller.
#[derive(Debug, Clone)]
pub struct Constructed {
    pub view: IntegerIndexedObject,
    pub pending: PendingWrites,
}

/// `GetPrototypeFromConstructor`: the target's "prototype" property where it is an
/// object, else the default prototype; a failing read fails.
pub open spec fn spec_resolve_prototype(new_target: JsValue, default_proto: u64) -> Result<
    u64,
    ErrorKind,
> {
    match new_target {
        JsValue::Object(o) => match o.prototype {
            PrototypeSlot::Object(h) => Ok(h),
            PrototypeSlot::NotAnObject => Ok(default_proto),
            PrototypeSlot::Throws(e) => Err(e),
        },
        JsValue::Primitive(_) => Ok(default_proto),
    }
}

/// `AllocateTypedArray`: a view with the resolved prototype, with a fresh zeroed block
/// of `length` elements where a length is given.
pub open spec fn spec_allocate(
    kind: TypedArrayName,
    new_target: JsValue,
    default_proto: u64,
    length: Option<nat>,
) -> Result<TypedArrayState, ErrorKind> {
    match spec_resolve_prototype(new_target, default_proto) {
        Err(e) => Err(e),
        Ok(proto) => match length {
            None => Ok(TypedArrayState::unattached(proto, kind)),
            Some(n) => if n * kind.spec_element_size() <= max_byte_length() {
                Ok(TypedArrayState::fresh(proto, kind, n))
            } else {
                Err(ErrorKind::RangeError)
            },
        },
    }
}

/// The integers that a non-floating kind stores for a list; the first failing
/// conversion fails.
pub open spec fn spec_convert_integers(kind: TypedArrayName, ps: Seq<Primitive>) -> Result<
    Seq<int>,
    ErrorKind,
>
    decreases ps.len(),
{
    if ps.len() == 0 {
        Ok(Seq::empty())
    } else {
        match spec_convert_integers(kind, ps.drop_last()) {
            Err(e) => Err(e),
            Ok(vs) => match spec_element_integer(kind, ps.last()) {
                Err(e) => Err(e),
                Ok(x) => Ok(vs.push(x)),
            },
        }
    }
}

/// The numbers of a list; the first failing conversion fails.
pub open spec fn spec_convert_numbers(ps: Seq<Primitive>) -> Result<Seq<NumberValue>, ErrorKind>
    decreases ps.len(),
{
    if ps.len() == 0 {
        Ok(Seq::empty())
    } else {
        match spec_convert_numbers(ps.drop_last()) {
            Err(e) => Err(e),
            Ok(ns) => match spec_to_number(ps.last()) {
                Err(e) => Err(e),
                Ok(n) => Ok(ns.push(n)),
            },
        }
    }
}

/// A view of `kind` with prototype `proto` over a fresh block that holds the values of
/// a list.
pub open spec fn spec_from_list(proto: u64, kind: TypedArrayName, ps: Seq<Primitive>) -> Result<
    (TypedArrayState, PendingModel),
    ErrorKind,
> {
    if ps.len() * kind.spec_element_size() > max_byte_length() {
        Err(ErrorKind::RangeError)
    } else {
        let fresh = TypedArrayState::fresh(proto, kind, ps.len());
        if kind.spec_is_float() {
            match spec_convert_numbers(ps) {
                Err(e) => Err(e),
                Ok(ns) => Ok((fresh, PendingModel::Numbers(ns))),
            }
        } else {
            match spec_convert_integers(kind, ps) {
                Err(e) => Err(e),
                Ok(vs) => Ok(
                    (TypedArrayState { buffer: spec_encode_all(kind, vs), ..fresh }, PendingModel::Nothing),
                ),
            }
        }
    }
}

/// A view of `kind` with prototype `proto` over a fresh block that holds the elements
/// of the view `src`.
pub open spec fn spec_from_typed_array(
    proto: u64,
    kind: TypedArrayName,
    src: TypedArrayState,
) -> Result<(TypedArrayState, PendingModel), ErrorKind> {
    if src.content_type != kind.spec_content_type() {
        Err(ErrorKind::TypeError)
    } else if src.array_length * kind.spec_element_size() > max_byte_length() {
        Err(ErrorKind::RangeError)
    } else {
        let fresh = TypedArrayState::fresh(proto, kind, src.array_length);
        if src.kind == kind {
            Ok((TypedArrayState { buffer: src.bytes(), ..fresh }, PendingModel::Nothing))
        } else if !kind.spec_is_float() && !src.kind.spec_is_float() {
            Ok(
                (
                    TypedArrayState {
                        buffer: spec_encode_all(
                            kind,
                            spec_elements(src).map_values(|x: int| spec_retarget(kind, x)),
                        ),
                        ..fresh
                    },
                    PendingModel::Nothing,
                ),
            )
        } else {
            Ok((fresh, PendingModel::ConvertFrom(src)))
        }
    }
}

/// The view of `kind` with prototype `proto` over `length` elements of a buffer's
/// block from `offset` on.
pub open spec fn spec_over(
    proto: u64,
    kind: TypedArrayName,
    block: Seq<u8>,
    offset: nat,
    length: nat,
) -> TypedArrayState {
    TypedArrayState {
        attached: true,
        byte_offset: offset,
        byte_length: length * kind.spec_element_size(),
        array_length: length,
        buffer: block,
        ..TypedArrayState::unattached(proto, kind)
    }
}

/// `ToIndex` on an argument; an object has no primitive value here.
pub open spec fn spec_value_to_index(v: JsValue) -> Result<nat, ErrorKind> {
    match v {
        JsValue::Primitive(p) => spec_to_index(p),
        JsValue::Object(_) => Err(ErrorKind::TypeError),
    }
}

/// Argument `i`, undefined where it is missing.
pub open spec fn spec_arg(args: Seq<JsValue>, i: int) -> JsValue {
    if 0 <= i < args.len() {
        args[i]
    } else {
        JsValue::Primitive(Primitive::Undefined)
    }
}

/// A view of `kind` with prototype `proto` over a buffer, from a byte offset argument
/// and a length argument.
pub open spec fn spec_from_buffer(
    proto: u64,
    kind: TypedArrayName,
    block: Seq<u8>,
    detached: bool,
    offset_arg: JsValue,
    length_arg: JsValue,
) -> Result<TypedArrayState, ErrorKind> {
    let size = kind.spec_element_size();
    match spec_value_to_index(offset_arg) {
        Err(e) => Err(e),
        Ok(offset) => if offset % size != 0 {
            Err(ErrorKind::RangeError)
        } else {
            let length: Result<Option<nat>, ErrorKind> = if length_arg matches JsValue::Primitive(
                Primitive::Undefined,
            ) {
                Ok(None)
            } else {
                match spec_value_to_index(length_arg) {
                    Ok(n) => Ok(Some(n)),
                    Err(e) => Err(e),
                }
            };
            match length {
                Err(e) => Err(e),
                Ok(length) => if detached {
                    Err(ErrorKind::TypeError)
                } else {
                    match length {
                        None => if block.len() % size != 0 || offset > block.len() {
                            Err(ErrorKind::RangeError)
                        } else {
                            Ok(
                                spec_over(
                                    proto,
                                    kind,
                                    block,
                                    offset,
                                    ((block.len() - offset) / (size as int)) as nat,
                                ),
                            )
                        },
                        Some(n) => if offset + n * size > block.len() {
                            Err(ErrorKind::RangeError)
                        } else {
                            Ok(spec_over(proto, kind, block, offset, n))
                        },
                    }
                },
            }
        },
    }
}

/// The indexed properties `0 .. length` of an array-like object.
pub open spec fn spec_array_like_list(elements: Seq<Primitive>, length: nat) -> Seq<Primitive> {
    Seq::new(
        length,
        |i: int|
            if i < elements.len() {
                elements[i]
            } else {
                Primitive::Undefined
            },
    )
}

/// A view of `kind` with prototype `proto` initialized from an object argument, after
/// its category.
pub open spec fn spec_initialize(
    proto: u64,
    kind: TypedArrayName,
    data: ObjectData,
    args: Seq<JsValue>,
) -> Result<(TypedArrayState, PendingModel), ErrorKind> {
    match data {
        ObjectData::TypedArray(src) => spec_from_typed_array(proto, kind, src@),
        ObjectData::ArrayBuffer(b) => match spec_from_buffer(
            proto,
            kind,
            b.data@,
            b.detached,
            spec_arg(args, 1),
            spec_arg(args, 2),
        ) {
            Ok(s) => Ok((s, PendingModel::Nothing)),
            Err(e) => Err(e),
        },
        ObjectData::Iterable(it) => match it.failure {
            Some(e) => Err(e),
            None => spec_from_list(proto, kind, it.values@),
        },
        ObjectData::ArrayLike(al) => match spec_array_like_length(al.length) {
            Err(e) => Err(e),
            Ok(n) => spec_from_list(proto, kind, spec_array_like_list(al.elements@, n)),
        },
        ObjectData::Ordinary => spec_from_list(proto, kind, Seq::empty()),
    }
}

/// The construction of a view of `kind`: the view and the writes left to the caller,
/// or the first failure, in the order of the steps.
pub open spec fn spec_construct(
    kind: TypedArrayName,
    new_target: JsValue,
    args: Seq<JsValue>,
    default_proto: u64,
) -> Result<(TypedArrayState, PendingModel), ErrorKind> {
    if new_target matches JsValue::Primitive(Primitive::Undefined) {
        Err(ErrorKind::TypeError)
    } else if args.len() == 0 {
        match spec_allocate(kind, new_target, default_proto, Some(0)) {
            Ok(s) => Ok((s, PendingModel::Nothing)),
            Err(e) => Err(e),
        }
    } else {
        match args[0] {
            JsValue::Primitive(p) => match spec_to_index(p) {
                Err(e) => Err(e),
                Ok(n) => match spec_allocate(kind, new_target, default_proto, Some(n)) {
                    Ok(s) => Ok((s, PendingModel::Nothing)),
                    Err(e) => Err(e),
                },
            },
            JsValue::Object(o) => match spec_resolve_prototype(new_target, default_proto) {
                Err(e) => Err(e),
                Ok(proto) => spec_initialize(proto, kind, o.data, args),
            },
        }
    }
}

/// Once a prefix of a list fails to convert, the whole list fails the same way.
proof fn lemma_convert_integers_err(kind: TypedArrayName, ps: Seq<Primitive>, k: int)
    requires
        0 <= k <= ps.len(),
        spec_convert_integers(kind, ps.take(k)) is Err,
    ensures
        spec_convert_integers(kind, ps) == spec_convert_integers(kind, ps.take(k)),
    decreases ps.len(),
{
    if k == ps.len() {
        assert(ps.take(k) =~= ps);
    } else {
        assert(ps.drop_last().take(k) =~= ps.take(k));
        lemma_convert_integers_err(kind, ps.drop_last(), k);
    }
}

/// Once a prefix of a list fails to convert, the whole list fails the same way.
proof fn lemma_convert_numbers_err(ps: Seq<Primitive>, k: int)
    requires
        0 <= k <= ps.len(),
        spec_convert_numbers(ps.take(k)) is Err,
    ensures
        spec_convert_numbers(ps) == spec_convert_numbers(ps.take(k)),
    decreases ps.len(),
{
    if k == ps.len() {
        assert(ps.take(k) =~= ps);
    } else {
        assert(ps.drop_last().take(k) =~= ps.take(k));
        lemma_convert_numbers_err(ps.drop_last(), k);
    }
}

/// A list that converts gives one integer per value.
proof fn lemma_convert_integers_len(kind: TypedArrayName, ps: Seq<Primitive>)
    ensures
        spec_convert_integers(kind, ps) matches Ok(vs) ==> vs.len() == ps.len(),
    decreases ps.len(),
{
    if ps.len() > 0 {
        lemma_convert_integers_len(kind, ps.drop_last());
    }
}

/// Resolves the prototype of a new view.
fn resolve_prototype(new_target: &JsValue, default_proto: u64) -> (r: Result<u64, ErrorKind>)
    ensures
        r == spec_resolve_prototype(*new_target, default_proto),
{
    match new_target {
        JsValue::Object(o) => match o.prototype {
            PrototypeSlot::Object(h) => Ok(h),
            PrototypeSlot::NotAnObject => Ok(default_proto),
            PrototypeSlot::Throws(e) => Err(e),
        },
        JsValue::Primitive(_) => Ok(default_proto),
    }
}

/// `AllocateTypedArray(constructorName, newTarget, defaultProto [, length])`: a view of
/// `constructor_name` whose prototype comes from `new_target`, or `default_proto`; with
/// a fresh zeroed block of `length` elements where a length is given.
pub fn allocate_typed_array(
    constructor_name: TypedArrayName,
    new_target: &JsValue,
    default_proto: u64,
    length: Option<usize>,
) -> (r: Result<IntegerIndexedObject, ErrorKind>)
    ensures
        ({
            let length = match length {
                Some(n) => Some(n as nat),
                None => None,
            };
            let expected = spec_allocate(constructor_name, *new_target, default_proto, length);
            &&& r is Ok <==> expected is Ok
            &&& r matches Ok(o) ==> expected == Ok::<TypedArrayState, ErrorKind>(o@) && o@.wf()
            &&& r matches Err(e) ==> expected == Err::<TypedArrayState, ErrorKind>(e)
        }),
{
    let proto = resolve_prototype(new_target, default_proto)?;
    match length {
        None => Ok(IntegerIndexedObject::new(proto, constructor_name)),
        Some(length) => IntegerIndexedObject::allocate_typed_array_buffer(
            proto,
            constructor_name,
            length,
        ),
    }
}

/// The integers that a non-floating kind stores for a list.
fn convert_integers(kind: TypedArrayName, ps: &Vec<Primitive>) -> (r: Result<Vec<i128>, ErrorKind>)
    requires
        !kind.spec_is_float(),
    ensures
        r matches Ok(v) ==> spec_convert_integers(kind, ps@) == Ok::<Seq<int>, ErrorKind>(
            v@.map_values(|x: i128| x as int),
        ),
        r matches Err(e) ==> spec_convert_integers(kind, ps@) == Err::<Seq<int>, ErrorKind>(e),
{
    let mut out: Vec<i128> = Vec::new();
    let mut i: usize = 0;
    assert(ps@.take(0) =~= Seq::<Primitive>::empty());
    assert(out@.map_values(|x: i128| x as int) =~= Seq::<int>::empty());
    while i < ps.len()
        invariant
            i <= ps@.len(),
            !kind.spec_is_float(),
            spec_convert_integers(kind, ps@.take(i as int)) == Ok::<Seq<int>, ErrorKind>(
                out@.map_values(|x: i128| x as int),
            ),
        decreases ps@.len() - i,
    {
        assert(ps@.take(i + 1).drop_last() =~= ps@.take(i as int));
        let ghost prev = out@.map_values(|x: i128| x as int);
        match element_integer(kind, ps[i]) {
            Ok(x) => {
                out.push(x);
                assert(out@.map_values(|x: i128| x as int) =~= prev.push(x as int));
            },
            Err(e) => {
                proof {
                    lemma_convert_integers_err(kind, ps@, i + 1);
                }
                return Err(e);
            },
        }
        i = i + 1;
    }
    assert(ps@.take(ps@.len() as int) =~= ps@);
    Ok(out)
}

/// `ToNumber` on a primitive.
fn to_number(p: Primitive) -> (r: Result<NumberValue, ErrorKind>)
    ensures
        r == spec_to_number(p),
{
    match p {
        Primitive::Undefined => Ok(NumberValue::NaN),
        Primitive::Null => Ok(NumberValue::Integer(0)),
        Primitive::Boolean(b) => Ok(
            NumberValue::Integer(
                if b {
                    1
                } else {
                    0
                },
            ),
        ),
        Primitive::Number(n) => Ok(n),
        Primitive::BigInt(_) | Primitive::Symbol => Err(ErrorKind::TypeError),
    }
}

/// The numbers of a list.
fn convert_numbers(ps: &Vec<Primitive>) -> (r: Result<Vec<NumberValue>, ErrorKind>)
    ensures
        r matches Ok(v) ==> spec_convert_numbers(ps@) == Ok::<Seq<NumberValue>, ErrorKind>(v@),
        r matches Err(e) ==> spec_convert_numbers(ps@) == Err::<Seq<NumberValue>, ErrorKind>(e),
{
    let mut out: Vec<NumberValue> = Vec::new();
    let mut i: usize = 0;
    assert(ps@.take(0) =~= Seq::<Primitive>::empty());
    while i < ps.len()
        invariant
            i <= ps@.len(),
            spec_convert_numbers(ps@.take(i as int)) == Ok::<Seq<NumberValue>, ErrorKind>(out@),
        decreases ps@.len() - i,
    {
        assert(ps@.take(i + 1).drop_last() =~= ps@.take(i as int));
        match to_number(ps[i]) {
            Ok(n) => {
                out.push(n);
            },
            Err(e) => {
                proof {
                    lemma_convert_numbers_err(ps@, i + 1);
                }
                return Err(e);
            },
        }
        i = i + 1;
    }
    assert(ps@.take(ps@.len() as int) =~= ps@);
    Ok(out)
}

/// Attaches `o` to a fresh block that holds the values of a list.
fn initialize_from_list(mut o: IntegerIndexedObject, ps: &Vec<Primitive>) -> (r: Result<
    Constructed,
    ErrorKind,
>)
    requires
        o@ == TypedArrayState::unattached(o@.prototype, o@.kind),
    ensures
        ({
            let expected = spec_from_list(o@.prototype, o@.kind, ps@);
            &&& r is Ok <==> expected is Ok
            &&& r matches Ok(c) ==> expected == Ok::<(TypedArrayState, PendingModel), ErrorKind>(
                (c.view@, c.pending@),
            ) && c.view@.wf()
            &&& r matches Err(e) ==> expected == Err::<(TypedArrayState, PendingModel), ErrorKind>(e)
        }),
{
    let kind = o.typed_array_name();
    o.attach_fresh(ps.len())?;
    if kind.is_float() {
        let numbers = convert_numbers(ps)?;
        Ok(Constructed { view: o, pending: PendingWrites::Numbers(numbers) })
    } else {
        let values = convert_integers(kind, ps)?;
        proof {
            lemma_convert_integers_len(kind, ps@);
        }
        o.store_integers(&values);
        Ok(Constructed { view: o, pending: PendingWrites::Nothing })
    }
}

/// Attaches `o` to a fresh block that holds the elements of the view `src`.
fn initialize_from_typed_array(mut o: IntegerIndexedObject, src: &IntegerIndexedObject) -> (r:
    Result<Constructed, ErrorKind>)
    requires
        o@ == TypedArrayState::unattached(o@.prototype, o@.kind),
        src@.wf(),
    ensures
        ({
            let expected = spec_from_typed_array(o@.prototype, o@.kind, src@);
            &&& r is Ok <==> expected is Ok
            &&& r matches Ok(c) ==> expected == Ok::<(TypedArrayState, PendingModel), ErrorKind>(
                (c.view@, c.pending@),
            ) && c.view@.wf()
            &&& r matches Err(e) ==> expected == Err::<(TypedArrayState, PendingModel), ErrorKind>(e)
        }),
{
    let kind = o.typed_array_name();
    let src_kind = src.typed_array_name();
    if src.content_type() != kind.content_type() {
        return Err(ErrorKind::TypeError);
    }
    let n = src.array_length();
    o.attach_fresh(n)?;
    if src_kind == kind {
        let bytes = src.view_bytes();
        o.store_bytes(bytes);
        Ok(Constructed { view: o, pending: PendingWrites::Nothing })
    } else if !kind.is_float() && !src_kind.is_float() {
        let mut values: Vec<i128> = Vec::new();
        let mut i: usize = 0;
        let ghost target = spec_elements(src@).map_values(|x: int| spec_retarget(kind, x));
        while i < n
            invariant
                src@.wf(),
                src@.attached || src@.array_length == 0,
                n == src@.array_length,
                i <= n,
                !kind.spec_is_float(),
                !src_kind.spec_is_float(),
                src_kind == src@.kind,
                target == spec_elements(src@).map_values(|x: int| spec_retarget(kind, x)),
                values@.map_values(|x: i128| x as int) =~= target.take(i as int),
            decreases n - i,
        {
            let ghost prev = values@.map_values(|x: i128| x as int);
            let v = src.get_index(i);
            let x = match v {
                Some(x) => x,
                None => 0,
            };
            let y: i128 = if kind == TypedArrayName::Uint8ClampedArray {
                if x < 0 {
                    0
                } else if x > 255 {
                    255
                } else {
                    x
                }
            } else {
                x
            };
            values.push(y);
            assert(values@.map_values(|x: i128| x as int) =~= prev.push(y as int));
            assert(target.take(i + 1) =~= target.take(i as int).push(target[i as int]));
            i = i + 1;
        }
        assert(target.take(n as int) =~= target);
        o.store_integers(&values);
        Ok(Constructed { view: o, pending: PendingWrites::Nothing })
    } else {
        Ok(Constructed { view: o, pending: PendingWrites::ConvertFrom(src.clone_view()) })
    }
}

/// `ToIndex` on an optional argument; a missing one is undefined.
fn arg_to_index(v: Option<&JsValue>) -> (r: Result<u64, ErrorKind>)
    ensures
        ({
            let v = match v {
                Some(v) => *v,
                None => JsValue::Primitive(Primitive::Undefined),
            };
            &&& r matches Ok(n) ==> spec_value_to_index(v) == Ok::<nat, ErrorKind>(n as nat)
            &&& r matches Ok(n) ==> n <= crate::value::MAX_SAFE_INTEGER
            &&& r matches Err(e) ==> spec_value_to_index(v) == Err::<nat, ErrorKind>(e)
        }),
{
    match v {
        Some(JsValue::Primitive(p)) => to_index(*p),
        Some(JsValue::Object(_)) => Err(ErrorKind::TypeError),
        None => Ok(0),
    }
}

/// Attaches `o` to a slice of `buffer`, from a byte offset argument and a length
/// argument.
fn initialize_from_array_buffer(
    mut o: IntegerIndexedObject,
    buffer: &ArrayBuffer,
    offset_arg: Option<&JsValue>,
    length_arg: Option<&JsValue>,
) -> (r: Result<IntegerIndexedObject, ErrorKind>)
    requires
        o@ == TypedArrayState::unattached(o@.prototype, o@.kind),
    ensures
        ({
            let undefined = JsValue::Primitive(Primitive::Undefined);
            let offset_arg = match offset_arg {
                Some(v) => *v,
                None => undefined,
            };
            let length_arg = match length_arg {
                Some(v) => *v,
                None => undefined,
            };
            let expected = spec_from_buffer(
                o@.prototype,
                o@.kind,
                buffer.data@,
                buffer.detached,
                offset_arg,
                length_arg,
            );
            &&& r is Ok <==> expected is Ok
            &&& r matches Ok(v) ==> expected == Ok::<TypedArrayState, ErrorKind>(v@) && v@.wf()
            &&& r matches Err(e) ==> expected == Err::<TypedArrayState, ErrorKind>(e)
        }),
{
    let size = o.typed_array_name().element_size();
    let offset = arg_to_index(offset_arg)?;
    if offset % (size as u64) != 0 {
        return Err(ErrorKind::RangeError);
    }
    let length: Option<u64> = match length_arg {
        Some(JsValue::Primitive(Primitive::Undefined)) | None => None,
        Some(v) => Some(arg_to_index(Some(v))?),
    };
    if buffer.detached {
        return Err(ErrorKind::TypeError);
    }
    let buffer_length = buffer.data.len();
    match length {
        None => {
            if buffer_length % size != 0 || (offset as u128) > (buffer_length as u128) {
                return Err(ErrorKind::RangeError);
            }
            let off = offset as usize;
            let n = (buffer_length - off) / size;
            proof {
                let a = (buffer_length - off) as int;
                let s = size as int;
                vstd::arithmetic::div_mod::lemma_fundamental_div_mod(a, s);
                vstd::arithmetic::div_mod::lemma_mod_pos_bound(a, s);
                assert(n * s <= a) by (nonlinear_arith)
                    requires
                        a == s * (a / s) + a % s,
                        0 <= a % s,
                        n == a / s,
                ;
            }
            o.attach_over(buffer, off, n)?;
            Ok(o)
        },
        Some(n) => {
            assert(n * size <= 0x7FFF_FFFF_FFFF_FFF8) by (nonlinear_arith)
                requires
                    n <= crate::value::MAX_SAFE_INTEGER,
                    size <= 8,
            ;
            if (offset as u128) + (n as u128) * (size as u128) > (buffer_length as u128) {
                return Err(ErrorKind::RangeError);
            }
            proof {
                assert(n * size >= n) by (nonlinear_arith)
                    requires
                        size >= 1,
                ;
            }
            o.attach_over(buffer, offset as usize, n as usize)?;
            Ok(o)
        },
    }
}

/// Initializes the unattached view `o` from an object argument, after its category.
fn initialize_from_object(o: IntegerIndexedObject, data: &ObjectData, args: &[JsValue]) -> (r: Result<
    Constructed,
    ErrorKind,
>)
    requires
        o@ == TypedArrayState::unattached(o@.prototype, o@.kind),
        data matches ObjectData::TypedArray(v) ==> v@.wf(),
    ensures
        ({
            let expected = spec_initialize(o@.prototype, o@.kind, *data, args@);
            &&& r is Ok <==> expected is Ok
            &&& r matches Ok(c) ==> expected == Ok::<(TypedArrayState, PendingModel), ErrorKind>(
                (c.view@, c.pending@),
            ) && c.view@.wf()
            &&& r matches Err(e) ==> expected == Err::<(TypedArrayState, PendingModel), ErrorKind>(e)
        }),
{
    let kind = o.typed_array_name();
    match data {
        ObjectData::TypedArray(src) => initialize_from_typed_array(o, src),
        ObjectData::ArrayBuffer(b) => {
            let offset_arg = if args.len() > 1 {
                Some(&args[1])
            } else {
                None
            };
            let length_arg = if args.len() > 2 {
                Some(&args[2])
            } else {
                None
            };
            assert(offset_arg matches Some(a) ==> *a == spec_arg(args@, 1));
            assert(length_arg matches Some(a) ==> *a == spec_arg(args@, 2));
            let v = initialize_from_array_buffer(o, b, offset_arg, length_arg)?;
            Ok(Constructed { view: v, pending: PendingWrites::Nothing })
        },
        ObjectData::Iterable(it) => match it.failure {
            Some(e) => Err(e),
            None => initialize_from_list(o, &it.values),
        },
        ObjectData::ArrayLike(al) => {
            let n = array_like_length(al.length)?;
            let size = kind.element_size();
            assert(n * size <= 0x7FFF_FFFF_FFFF_FFF8) by (nonlinear_arith)
                requires
                    n <= crate::value::MAX_SAFE_INTEGER,
                    size <= 8,
            ;
            if (n as u128) * (size as u128) > (isize::MAX as u128) {
                return Err(ErrorKind::RangeError);
            }
            let n = n as usize;
            let mut list: Vec<Primitive> = Vec::new();
            let mut i: usize = 0;
            while i < n
                invariant
                    i <= n,
                    list@ =~= spec_array_like_list(al.elements@, n as nat).take(i as int),
                decreases n - i,
            {
                let p = if i < al.elements.len() {
                    al.elements[i]
                } else {
                    Primitive::Undefined
                };
                list.push(p);
                i = i + 1;
            }
            assert(list@ =~= spec_array_like_list(al.elements@, n as nat));
            initialize_from_list(o, &list)
        },
        ObjectData::Ordinary => {
            let empty: Vec<Primitive> = Vec::new();
            assert(empty@ =~= Seq::<Primitive>::empty());
            initialize_from_list(o, &empty)
        },
    }
}

/// Every typed-array view among the arguments holds the view invariant.
pub open spec fn spec_args_wf(args: Seq<JsValue>) -> bool {
    forall|i: int|
        0 <= i < args.len() ==> match #[trigger] args[i] {
            JsValue::Object(o) => match o.data {
                ObjectData::TypedArray(v) => v@.wf(),
                _ => true,
            },
            _ => true,
        }
}

/// The constructor of a typed array of `kind`: a view from no argument, a length, a
/// typed array, a buffer (with a byte offset and a length), an iterable or an
/// array-like object. Fails with a type error where `new_target` is undefined.
pub fn construct_typed_array(
    kind: TypedArrayName,
    new_target: &JsValue,
    args: &[JsValue],
    default_proto: u64,
) -> (r: Result<Constructed, ErrorKind>)
    requires
        spec_args_wf(args@),
    ensures
        ({
            let expected = spec_construct(kind, *new_target, args@, default_proto);
            &&& r is Ok <==> expected is Ok
            &&& r matches Ok(c) ==> expected == Ok::<(TypedArrayState, PendingModel), ErrorKind>(
                (c.view@, c.pending@),
            ) && c.view@.wf()
            &&& r matches Err(e) ==> expected == Err::<(TypedArrayState, PendingModel), ErrorKind>(e)
        }),
{
    if matches!(new_target, JsValue::Primitive(Primitive::Undefined)) {
        return Err(ErrorKind::TypeError);
    }
    if args.len() == 0 {
        let o = allocate_typed_array(kind, new_target, default_proto, Some(0))?;
        return Ok(Constructed { view: o, pending: PendingWrites::Nothing });
    }
    let first = &args[0];
    assert(args@[0] == *first);
    match first {
        JsValue::Primitive(p) => {
            let n = to_index(*p)?;
            if (n as u128) > (usize::MAX as u128) {
                resolve_prototype(new_target, default_proto)?;
                proof {
                    assert(n * kind.spec_element_size() > max_byte_length()) by (nonlinear_arith)
                        requires
                            n > usize::MAX,
                            kind.spec_element_size() >= 1,
                            max_byte_length() < usize::MAX,
                    ;
                }
                return Err(ErrorKind::RangeError);
            }
            let o = allocate_typed_array(kind, new_target, default_proto, Some(n as usize))?;
            Ok(Constructed { view: o, pending: PendingWrites::Nothing })
        },
        JsValue::Object(obj) => {
            let o = allocate_typed_array(kind, new_target, default_proto, None)?;
            initialize_from_object(o, &obj.data, args)
        },
    }
}

/// The `%TypedArray%` intrinsic, which only the element kinds' constructors extend.
#[derive(Debug, Clone, Copy)]
pub struct TypedArray;

impl TypedArray {
    /// `%TypedArray%` itself is never constructed: always a type error.
    pub fn constructor(new_target: &JsValue, args: &[JsValue]) -> (r: Result<Constructed, ErrorKind>)
        ensures
            r == Err::<Constructed, ErrorKind>(ErrorKind::TypeError),
    {
        Err(ErrorKind::TypeError)
    }
}

/// Without a construction target, every kind's constructor fails with a type error.
pub proof fn lemma_construct_without_target_fails(
    kind: TypedArrayName,
    args: Seq<JsValue>,
    default_proto: u64,
)
    ensures
        spec_construct(kind, JsValue::Primitive(Primitive::Undefined), args, default_proto)
            == Err::<(TypedArrayState, PendingModel), ErrorKind>(ErrorKind::TypeError),
{
}

/// A view of a 16-bit kind over a buffer whose byte length is odd, with no length
/// given, fails with a range error.
pub proof fn lemma_odd_buffer_rejected_by_16_bit_kind(
    kind: TypedArrayName,
    new_target: JsValue,
    buffer: JsValue,
    default_proto: u64,
)
    requires
        kind.spec_element_size() == 2,
        !(new_target matches JsValue::Primitive(Primitive::Undefined)),
        spec_resolve_prototype(new_target, default_proto) is Ok,
        buffer matches JsValue::Object(o) && o.data matches ObjectData::ArrayBuffer(b) && !b.detached
            && b.data@.len() % 2 == 1,
    ensures
        spec_construct(kind, new_target, seq![buffer], default_proto) == Err::<
            (TypedArrayState, PendingModel),
            ErrorKind,
        >(ErrorKind::RangeError),
{
    assert(spec_arg(seq![buffer], 1) == JsValue::Primitive(Primitive::Undefined));
    assert(spec_arg(seq![buffer], 2) == JsValue::Primitive(Primitive::Undefined));
}

/// A view of a floating-point kind made from a view of a big-integer kind fails with a
/// type error.
pub proof fn lemma_float_from_big_integer_view_fails(
    kind: TypedArrayName,
    new_target: JsValue,
    source: JsValue,
    rest: Seq<JsValue>,
    default_proto: u64,
)
    requires
        kind.spec_is_float(),
        !(new_target matches JsValue::Primitive(Primitive::Undefined)),
        spec_resolve_prototype(new_target, default_proto) is Ok,
        source matches JsValue::Object(o) && o.data matches ObjectData::TypedArray(v) && v@.wf()
            && (v@.kind is BigInt64Array || v@.kind is BigUint64Array),
    ensures
        spec_construct(kind, new_target, seq![source] + rest, default_proto) == Err::<
            (TypedArrayState, PendingModel),
            ErrorKind,
        >(ErrorKind::TypeError),
{
    assert((seq![source] + rest)[0] == source);
}

/// A view of a non-floating kind built from a list reads back, element by element, the
/// integers that the list converts to, where each lies in the kind's range.
pub proof fn lemma_from_list_reads_back(proto: u64, kind: TypedArrayName, ps: Seq<Primitive>)
    requires
        !kind.spec_is_float(),
        spec_from_list(proto, kind, ps) is Ok,
        spec_convert_integers(kind, ps) matches Ok(vs) && forall|i: int|
            0 <= i < vs.len() ==> spec_in_range(kind, #[trigger] vs[i]),
    ensures
        spec_from_list(proto, kind, ps) matches Ok(r) && spec_convert_integers(kind, ps) matches Ok(
            vs,
        ) && spec_elements(r.0) == vs,
{
    let vs = spec_convert_integers(kind, ps)->Ok_0;
    let r = spec_from_list(proto, kind, ps)->Ok_0;
    let s = kind.spec_element_size() as int;
    lemma_convert_integers_len(kind, ps);
    assert forall|i: int| 0 <= i < vs.len() implies spec_elements(r.0)[i] == vs[i] by {
        assert((i + 1) * s == i * s + s) by (nonlinear_arith);
        lemma_encode_all_element(kind, vs, i);
        lemma_decode_encode(kind, vs[i]);
    }
    assert(spec_elements(r.0) =~= vs);
}

} // verus!
