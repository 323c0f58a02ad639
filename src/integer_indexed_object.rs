use vstd::prelude::*;

use vstd::arithmetic::div_mod::lemma_small_mod;

use crate::data_block::{max_byte_length, zeros, DataBlock};
use crate::element::{decode, encode, spec_decode, spec_encode};
use crate::error::ErrorKind;
use crate::kind::{ContentType, TypedArrayName};
use crate::value::ArrayBuffer;

verus! {

/// What a typed-array view holds, as contracts see it.
pub struct TypedArrayState {
    pub prototype: u64,
    pub kind: TypedArrayName,
    pub content_type: ContentType,
    pub attached: bool,
    pub byte_offset: nat,
    pub byte_length: nat,
    pub array_length: nat,
    /// The whole backing block, of which the view sees
    /// `byte_offset .. byte_offset + byte_length`.
    pub buffer: Seq<u8>,
}

impl TypedArrayState {
    /// The state of a view that has no storage yet.
    pub open spec fn unattached(prototype: u64, kind: TypedArrayName) -> TypedArrayState {
        TypedArrayState {
            prototype,
            kind,
            content_type: kind.spec_content_type(),
            attached: false,
            byte_offset: 0,
            byte_length: 0,
            array_length: 0,
            buffer: Seq::empty(),
        }
    }

    /// The state of a view over a freshly allocated zeroed block of `length` elements.
    pub open spec fn fresh(prototype: u64, kind: TypedArrayName, length: nat) -> TypedArrayState {
        TypedArrayState {
            prototype,
            kind,
            content_type: kind.spec_content_type(),
            attached: true,
            byte_offset: 0,
            byte_length: length * kind.spec_element_size(),
            array_length: length,
            buffer: zeros(length * kind.spec_element_size()),
        }
    }

    /// The bytes that the view sees.
    pub open spec fn bytes(self) -> Seq<u8> {
        self.buffer.subrange(self.byte_offset as int, (self.byte_offset + self.byte_length) as int)
    }

    /// The bytes of element `i`.
    pub open spec fn element_bytes(self, i: int) -> Seq<u8> {
        let size = self.kind.spec_element_size();
        self.buffer.subrange(self.byte_offset + i * size, self.byte_offset + (i + 1) * size)
    }

    /// The invariant of every view.
    pub open spec fn wf(self) -> bool {
        &&& self.content_type == self.kind.spec_content_type()
        &&& !self.attached ==> self == TypedArrayState::unattached(self.prototype, self.kind)
        &&& self.attached ==> {
            &&& self.byte_length == self.array_length * self.kind.spec_element_size()
            &&& self.byte_offset % self.kind.spec_element_size() == 0
            &&& self.byte_offset + self.byte_length <= self.buffer.len()
        }
    }
}

/// The bytes that a non-floating kind stores for a list of integers.
pub open spec fn spec_encode_all(kind: TypedArrayName, values: Seq<int>) -> Seq<u8>
    decreases values.len(),
{
    if values.len() == 0 {
        Seq::empty()
    } else {
        spec_encode_all(kind, values.drop_last()) + spec_encode(kind, values.last())
    }
}

/// The bytes of a list of integers take one element's size per integer.
pub proof fn lemma_encode_all_len(kind: TypedArrayName, values: Seq<int>)
    ensures
        spec_encode_all(kind, values).len() == values.len() * kind.spec_element_size(),
    decreases values.len(),
{
    if values.len() > 0 {
        lemma_encode_all_len(kind, values.drop_last());
        crate::element::lemma_le_bytes_len(
            (values.last() % (crate::element::spec_modulus(kind) as int)) as nat,
            kind.spec_element_size(),
        );
        let n = values.len();
        let s = kind.spec_element_size();
        assert((n - 1) * s + s == n * s) by (nonlinear_arith);
    }
}

/// Element `i` of the bytes of a list of integers holds the bytes of integer `i`.
pub proof fn lemma_encode_all_element(kind: TypedArrayName, values: Seq<int>, i: int)
    requires
        0 <= i < values.len(),
    ensures
        ({
            let s = kind.spec_element_size() as int;
            spec_encode_all(kind, values).subrange(i * s, i * s + s) == spec_encode(kind, values[i])
        }),
    decreases values.len(),
{
    let s = kind.spec_element_size() as int;
    let n = values.len() as int;
    let pre = values.drop_last();
    let a = spec_encode_all(kind, pre);
    let b = spec_encode(kind, values.last());
    lemma_encode_all_len(kind, pre);
    crate::element::lemma_le_bytes_len(
        (values.last() % (crate::element::spec_modulus(kind) as int)) as nat,
        kind.spec_element_size(),
    );
    assert(spec_encode_all(kind, values) == a + b);
    if i == n - 1 {
        assert(i * s == (n - 1) * s);
        assert((a + b).subrange(i * s, i * s + s) =~= b);
    } else {
        assert(i * s + s <= (n - 1) * s) by (nonlinear_arith)
            requires
                i + 1 <= n - 1,
                s > 0,
        ;
        assert(i * s >= 0) by (nonlinear_arith)
            requires
                i >= 0,
                s > 0,
        ;
        assert((a + b).subrange(i * s, i * s + s) =~= a.subrange(i * s, i * s + s));
        lemma_encode_all_element(kind, pre, i);
    }
}

/// The integer that `kind` keeps for an integer read from another integer kind: the
/// clamped kind clamps it to `0..=255`.
pub open spec fn spec_retarget(kind: TypedArrayName, v: int) -> int {
    if kind is Uint8ClampedArray {
        if v < 0 {
            0
        } else if v > 255 {
            255
        } else {
            v
        }
    } else {
        v
    }
}

/// The integers that a view's elements hold, read as its own kind.
pub open spec fn spec_elements(s: TypedArrayState) -> Seq<int> {
    Seq::new(s.array_length, |i: int| spec_decode(s.kind, s.element_bytes(i)))
}

/// A typed-array view (an integer-indexed exotic object).
#[derive(Debug, Clone)]
pub struct IntegerIndexedObject {
    prototype: u64,
    viewed_array_buffer: DataBlock,
    typed_array_name: TypedArrayName,
    content_type: ContentType,
    attached: bool,
    byte_offset: usize,
    byte_length: usize,
    array_length: usize,
}

impl View for IntegerIndexedObject {
    type V = TypedArrayState;

    closed spec fn view(&self) -> TypedArrayState {
        TypedArrayState {
            prototype: self.prototype,
            kind: self.typed_array_name,
            content_type: self.content_type,
            attached: self.attached,
            byte_offset: self.byte_offset as nat,
            byte_length: self.byte_length as nat,
            array_length: self.array_length as nat,
            buffer: self.viewed_array_buffer@,
        }
    }
}

impl IntegerIndexedObject {
    /// `IntegerIndexedObjectCreate`: a view of `constructor_name` with no storage yet.
    pub fn new(prototype: u64, constructor_name: TypedArrayName) -> (r: Self)
        ensures
            r@ == TypedArrayState::unattached(prototype, constructor_name),
            r@.wf(),
    {
        let content_type = match constructor_name {
            TypedArrayName::BigInt64Array | TypedArrayName::BigUint64Array => ContentType::BigInt,
            _ => ContentType::Number,
        };
        Self {
            prototype,
            viewed_array_buffer: DataBlock::empty(),
            typed_array_name: constructor_name,
            content_type,
            attached: false,
            byte_length: 0,
            byte_offset: 0,
            array_length: 0,
        }
    }

    /// `AllocateTypedArrayBuffer`: attaches a fresh zeroed block of `length` elements,
    /// or fails with a range error where its byte length exceeds the platform's limit.
    pub fn attach_fresh(&mut self, length: usize) -> (r: Result<(), ErrorKind>)
        requires
            old(self)@.wf(),
            !old(self)@.attached,
        ensures
            r is Ok <==> length * old(self)@.kind.spec_element_size() <= max_byte_length(),
            r is Err ==> r == Err::<(), ErrorKind>(ErrorKind::RangeError) && final(self)@ == old(
                self,
            )@,
            r is Ok ==> final(self)@ == TypedArrayState::fresh(
                old(self)@.prototype,
                old(self)@.kind,
                length as nat,
            ),
            final(self)@.wf(),
    {
        let element_size = self.typed_array_name.element_size();
        let byte_length = match length.checked_mul(element_size) {
            Some(n) => n,
            None => {
                return Err(ErrorKind::RangeError);
            },
        };
        let data = DataBlock::create_byte_data_block(byte_length)?;
        self.viewed_array_buffer = data;
        self.byte_length = byte_length;
        self.byte_offset = 0;
        self.array_length = length;
        self.attached = true;
        proof {
            lemma_small_mod(0, self@.kind.spec_element_size());
        }
        Ok(())
    }

    /// `AllocateTypedArrayBuffer` on a new view: a view of `constructor_name` over a fresh
    /// zeroed block of `length` elements, or a range error where its byte length exceeds
    /// the platform's limit.
    pub fn allocate_typed_array_buffer(
        prototype: u64,
        constructor_name: TypedArrayName,
        length: usize,
    ) -> (r: Result<Self, ErrorKind>)
        ensures
            r is Ok <==> length * constructor_name.spec_element_size() <= max_byte_length(),
            r is Err ==> r == Err::<Self, ErrorKind>(ErrorKind::RangeError),
            r matches Ok(o) ==> o@ == TypedArrayState::fresh(
                prototype,
                constructor_name,
                length as nat,
            ),
            r matches Ok(o) ==> o@.wf(),
    {
        let mut o = Self::new(prototype, constructor_name);
        match o.attach_fresh(length) {
            Ok(()) => Ok(o),
            Err(e) => Err(e),
        }
    }

    /// Attaches the view to `array_length` elements of `buffer` from `byte_offset` on.
    /// Fails with a range error where the offset is misaligned, a type error where the
    /// buffer is detached, and a range error where the elements run past its end.
    pub fn attach_over(&mut self, buffer: &ArrayBuffer, byte_offset: usize, array_length: usize) -> (r:
        Result<(), ErrorKind>)
        requires
            old(self)@.wf(),
            !old(self)@.attached,
        ensures
            ({
                let size = old(self)@.kind.spec_element_size();
                let offset = byte_offset as nat;
                &&& offset % size != 0 ==> r == Err::<(), ErrorKind>(ErrorKind::RangeError)
                &&& offset % size == 0 && buffer.detached ==> r == Err::<(), ErrorKind>(
                    ErrorKind::TypeError,
                )
                &&& offset % size == 0 && !buffer.detached && byte_offset + array_length
                    * size > buffer.data@.len() ==> r == Err::<(), ErrorKind>(ErrorKind::RangeError)
                &&& r is Ok <==> offset % size == 0 && !buffer.detached && byte_offset
                    + array_length * size <= buffer.data@.len()
                &&& r is Ok ==> final(self)@ == TypedArrayState {
                    attached: true,
                    byte_offset: byte_offset as nat,
                    byte_length: (array_length * size) as nat,
                    array_length: array_length as nat,
                    buffer: buffer.data@,
                    ..old(self)@
                }
            }),
            r is Err ==> final(self)@ == old(self)@,
            final(self)@.wf(),
    {
        let size = self.typed_array_name.element_size();
        if byte_offset % size != 0 {
            return Err(ErrorKind::RangeError);
        }
        if buffer.detached {
            return Err(ErrorKind::TypeError);
        }
        let buffer_length = buffer.data.len();
        let byte_length = match array_length.checked_mul(size) {
            Some(n) => n,
            None => {
                return Err(ErrorKind::RangeError);
            },
        };
        if byte_offset > buffer_length || byte_length > buffer_length - byte_offset {
            return Err(ErrorKind::RangeError);
        }
        self.viewed_array_buffer = buffer.data.duplicate();
        self.byte_offset = byte_offset;
        self.byte_length = byte_length;
        self.array_length = array_length;
        self.attached = true;
        Ok(())
    }

    /// Replaces the zeroed storage of a freshly attached view with the bytes of
    /// `values`, one element each.
    pub fn store_integers(&mut self, values: &Vec<i128>)
        requires
            old(self)@.wf(),
            old(self)@ == TypedArrayState::fresh(
                old(self)@.prototype,
                old(self)@.kind,
                old(self)@.array_length,
            ),
            !old(self)@.kind.spec_is_float(),
            values@.len() == old(self)@.array_length,
        ensures
            final(self)@ == (TypedArrayState {
                buffer: spec_encode_all(old(self)@.kind, values@.map_values(|v: i128| v as int)),
                ..old(self)@
            }),
            final(self)@.wf(),
    {
        let kind = self.typed_array_name;
        let mut bytes: Vec<u8> = Vec::new();
        let mut i: usize = 0;
        while i < values.len()
            invariant
                i <= values@.len(),
                !kind.spec_is_float(),
                bytes@ == spec_encode_all(
                    kind,
                    values@.map_values(|v: i128| v as int).take(i as int),
                ),
            decreases values@.len() - i,
        {
            let e = encode(kind, values[i]);
            let mut j: usize = 0;
            let ghost before = bytes@;
            while j < e.len()
                invariant
                    j <= e@.len(),
                    bytes@ == before + e@.take(j as int),
                decreases e@.len() - j,
            {
                bytes.push(e[j]);
                j = j + 1;
                assert(bytes@ =~= before + e@.take(j as int));
            }
            assert(e@.take(j as int) =~= e@);
            let ghost mapped = values@.map_values(|v: i128| v as int);
            assert(mapped.take(i + 1).drop_last() =~= mapped.take(i as int));
            i = i + 1;
        }
        let ghost mapped = values@.map_values(|v: i128| v as int);
        assert(mapped.take(values@.len() as int) =~= mapped);
        proof {
            lemma_encode_all_len(kind, mapped);
        }
        self.viewed_array_buffer = DataBlock::from_bytes(bytes);
    }

    /// Replaces the zeroed storage of a freshly attached view with `bytes`.
    pub fn store_bytes(&mut self, bytes: Vec<u8>)
        requires
            old(self)@.wf(),
            old(self)@ == TypedArrayState::fresh(
                old(self)@.prototype,
                old(self)@.kind,
                old(self)@.array_length,
            ),
            bytes@.len() == old(self)@.byte_length,
        ensures
            final(self)@ == (TypedArrayState { buffer: bytes@, ..old(self)@ }),
            final(self)@.wf(),
    {
        self.viewed_array_buffer = DataBlock::from_bytes(bytes);
    }

    /// Overwrites element `index` with `bytes`, as a write of a value that only the
    /// caller can encode.
    pub fn write_element_bytes(&mut self, index: usize, bytes: &[u8])
        requires
            old(self)@.wf(),
            old(self)@.attached,
            index < old(self)@.array_length,
            bytes@.len() == old(self)@.kind.spec_element_size(),
        ensures
            ({
                let start = old(self)@.byte_offset + index * old(self)@.kind.spec_element_size();
                let end = start + bytes@.len();
                final(self)@ == (TypedArrayState {
                    buffer: old(self)@.buffer.subrange(0, start) + bytes@ + old(self)@.buffer.subrange(
                        end,
                        old(self)@.buffer.len() as int,
                    ),
                    ..old(self)@
                })
            }),
            final(self)@.wf(),
            final(self)@.element_bytes(index as int) == bytes@,
    {
        let size = self.typed_array_name.element_size();
        proof {
            let s = size as int;
            let i = index as int;
            assert(i * s + s <= self@.array_length * s) by (nonlinear_arith)
                requires
                    i < self@.array_length,
                    s > 0,
            ;
        }
        let total = self.viewed_array_buffer.len();
        assert(self@.byte_offset + index * size <= total);
        let offset = self.byte_offset + index * size;
        self.viewed_array_buffer.write(offset, bytes);
        assert((index + 1) * size == index * size + size) by (nonlinear_arith);
        assert(self@.element_bytes(index as int) =~= bytes@);
    }

    /// The bytes that the view sees.
    pub fn view_bytes(&self) -> (r: Vec<u8>)
        requires
            self@.wf(),
        ensures
            r@ == self@.bytes(),
    {
        let mut out: Vec<u8> = Vec::new();
        let mut i: usize = 0;
        let total = self.viewed_array_buffer.len();
        let n = if self.attached {
            self.byte_length
        } else {
            0
        };
        while i < n
            invariant
                self@.wf(),
                n == self@.byte_length,
                total == self@.buffer.len(),
                i <= n,
                out@ == self@.bytes().take(i as int),
            decreases n - i,
        {
            out.push(self.viewed_array_buffer.get(self.byte_offset + i));
            i = i + 1;
            assert(out@ =~= self@.bytes().take(i as int));
        }
        assert(out@ =~= self@.bytes());
        out
    }

    /// The bytes of element `index`.
    pub fn element_bytes(&self, index: usize) -> (r: Vec<u8>)
        requires
            self@.wf(),
            self@.attached,
            index < self@.array_length,
        ensures
            r@ == self@.element_bytes(index as int),
            r@.len() == self@.kind.spec_element_size(),
    {
        let size = self.typed_array_name.element_size();
        proof {
            let s = size as int;
            let i = index as int;
            assert(i * s + s <= self@.array_length * s) by (nonlinear_arith)
                requires
                    i < self@.array_length,
                    s > 0,
            ;
        }
        let total = self.viewed_array_buffer.len();
        assert(self@.byte_offset + index * size <= total);
        let start = self.byte_offset + index * size;
        let mut out: Vec<u8> = Vec::new();
        let mut j: usize = 0;
        while j < size
            invariant
                self@.wf(),
                self@.attached,
                size == self@.kind.spec_element_size(),
                start == self@.byte_offset + index * size,
                start + size <= self@.buffer.len(),
                j <= size,
                out@ == self@.element_bytes(index as int).take(j as int),
            decreases size - j,
        {
            out.push(self.viewed_array_buffer.get(start + j));
            j = j + 1;
            assert(out@ =~= self@.element_bytes(index as int).take(j as int));
        }
        assert(out@ =~= self@.element_bytes(index as int));
        out
    }

    /// The integer held by element `index`, for a kind that is not floating-point;
    /// `None` past the end, on a view without storage, and for a floating-point kind.
    pub fn get_index(&self, index: usize) -> (r: Option<i128>)
        requires
            self@.wf(),
        ensures
            r is Some <==> self@.attached && index < self@.array_length
                && !self@.kind.spec_is_float(),
            r matches Some(v) ==> v as int == spec_elements(self@)[index as int],
    {
        if !self.attached || index >= self.array_length || self.typed_array_name.is_float() {
            return None;
        }
        let b = self.element_bytes(index);
        Some(decode(self.typed_array_name, b.as_slice()))
    }

    /// A copy of the view, with a copy of its block.
    pub fn clone_view(&self) -> (r: Self)
        ensures
            r@ == self@,
    {
        IntegerIndexedObject {
            prototype: self.prototype,
            viewed_array_buffer: self.viewed_array_buffer.duplicate(),
            typed_array_name: self.typed_array_name,
            content_type: self.content_type,
            attached: self.attached,
            byte_offset: self.byte_offset,
            byte_length: self.byte_length,
            array_length: self.array_length,
        }
    }

    /// The prototype handle of the view.
    pub fn prototype(&self) -> (r: u64)
        ensures
            r == self@.prototype,
    {
        self.prototype
    }

    /// The element kind of the view.
    pub fn typed_array_name(&self) -> (r: TypedArrayName)
        ensures
            r == self@.kind,
    {
        self.typed_array_name
    }

    /// The content type of the view.
    pub fn content_type(&self) -> (r: ContentType)
        ensures
            r == self@.content_type,
    {
        self.content_type
    }

    /// Whether the view has storage.
    pub fn is_attached(&self) -> (r: bool)
        ensures
            r == self@.attached,
    {
        self.attached
    }

    /// Offset of the view's first byte in its block.
    pub fn byte_offset(&self) -> (r: usize)
        ensures
            r == self@.byte_offset,
    {
        self.byte_offset
    }

    /// Number of bytes that the view sees.
    pub fn byte_length(&self) -> (r: usize)
        ensures
            r == self@.byte_length,
    {
        self.byte_length
    }

    /// Number of elements of the view.
    pub fn array_length(&self) -> (r: usize)
        ensures
            r == self@.array_length,
    {
        self.array_length
    }

    /// The whole block behind the view.
    pub fn buffer(&self) -> (r: &DataBlock)
        ensures
            r@ == self@.buffer,
    {
        &self.viewed_array_buffer
    }
}

} // verus!
