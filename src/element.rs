use vstd::arithmetic::div_mod::lemma_fundamental_div_mod_converse;
use vstd::prelude::*;

use crate::error::ErrorKind;
use crate::kind::TypedArrayName;
use crate::value::{NumberValue, Primitive};

verus! {

/// The `k` little-endian bytes of `x` (higher bytes dropped).
pub open spec fn le_bytes(x: nat, k: nat) -> Seq<u8>
    decreases k,
{
    if k == 0 {
        Seq::empty()
    } else {
        seq![(x % 256) as u8] + le_bytes(x / 256, (k - 1) as nat)
    }
}

/// The unsigned value of little-endian bytes.
pub open spec fn le_value(b: Seq<u8>) -> nat
    decreases b.len(),
{
    if b.len() == 0 {
        0
    } else {
        b[0] as nat + 256 * le_value(b.subrange(1, b.len() as int))
    }
}

/// Two to the number of bits of one element of `kind`.
pub open spec fn spec_modulus(kind: TypedArrayName) -> nat {
    let size = kind.spec_element_size();
    if size == 1 {
        0x100
    } else if size == 2 {
        0x1_0000
    } else if size == 4 {
        0x1_0000_0000
    } else {
        0x1_0000_0000_0000_0000
    }
}

/// `ToNumber` on a primitive.
pub open spec fn spec_to_number(p: Primitive) -> Result<NumberValue, ErrorKind> {
    match p {
        Primitive::Undefined => Ok(NumberValue::NaN),
        Primitive::Null => Ok(NumberValue::Integer(0)),
        Primitive::Boolean(b) => Ok(NumberValue::Integer(if b { 1 } else { 0 })),
        Primitive::Number(n) => Ok(n),
        Primitive::BigInt(_) | Primitive::Symbol => Err(ErrorKind::TypeError),
    }
}

/// `ToBigInt` on a primitive.
pub open spec fn spec_to_bigint(p: Primitive) -> Result<int, ErrorKind> {
    match p {
        Primitive::Boolean(b) => Ok(if b { 1 } else { 0 }),
        Primitive::BigInt(v) => Ok(v as int),
        _ => Err(ErrorKind::TypeError),
    }
}

/// The integer that an integer kind stores for a number, before wrapping: non-finite
/// values give zero, and the clamped kind clamps to `0..=255`.
pub open spec fn spec_integer_of_number(kind: TypedArrayName, n: NumberValue) -> int {
    if kind is Uint8ClampedArray {
        match n {
            NumberValue::Integer(i) => if i < 0 {
                0
            } else if i > 255 {
                255
            } else {
                i as int
            },
            NumberValue::PositiveInfinity => 255,
            _ => 0,
        }
    } else {
        match n {
            NumberValue::Integer(i) => i as int,
            _ => 0,
        }
    }
}

/// The integer that a non-floating kind stores for a primitive, before wrapping.
pub open spec fn spec_element_integer(kind: TypedArrayName, p: Primitive) -> Result<
    int,
    ErrorKind,
> {
    if kind.spec_content_type() == crate::kind::ContentType::BigInt {
        spec_to_bigint(p)
    } else {
        match spec_to_number(p) {
            Ok(n) => Ok(spec_integer_of_number(kind, n)),
            Err(e) => Err(e),
        }
    }
}

/// The bytes that a non-floating kind stores for the integer `x`.
pub open spec fn spec_encode(kind: TypedArrayName, x: int) -> Seq<u8> {
    le_bytes((x % (spec_modulus(kind) as int)) as nat, kind.spec_element_size())
}

/// The integer that a non-floating kind reads back from its bytes.
pub open spec fn spec_decode(kind: TypedArrayName, b: Seq<u8>) -> int {
    let v = le_value(b);
    if kind.spec_is_signed() && v >= spec_modulus(kind) / 2 {
        v - spec_modulus(kind)
    } else {
        v as int
    }
}

/// Two to the number of bits of one element of `kind`.
pub fn modulus(kind: TypedArrayName) -> (r: u128)
    ensures
        r == spec_modulus(kind),
{
    let size = kind.element_size();
    if size == 1 {
        0x100
    } else if size == 2 {
        0x1_0000
    } else if size == 4 {
        0x1_0000_0000
    } else {
        0x1_0000_0000_0000_0000
    }
}

/// `x` modulo `m`, as a non-negative remainder.
fn wrap(x: i128, m: u128) -> (r: u128)
    requires
        0 < m <= 0x1_0000_0000_0000_0000,
    ensures
        r as int == x as int % m as int,
        r < m,
{
    if x >= 0 {
        (x as u128) % m
    } else {
        let a: u128 = (-(x + 1)) as u128;
        let s = a % m;
        let r = m - 1 - s;
        proof {
            let q = a as int / m as int;
            assert(a as int == q * m + s) by {
                vstd::arithmetic::div_mod::lemma_fundamental_div_mod(a as int, m as int);
            }
            assert(x as int == (-(q + 1)) * m + r) by (nonlinear_arith)
                requires
                    x as int == -(a as int) - 1,
                    a as int == q * m + s,
                    r == m - 1 - s,
            ;
            lemma_fundamental_div_mod_converse(x as int, m as int, -(q + 1), r as int);
        }
        r
    }
}

/// The `k` little-endian bytes of `x`.
fn to_le_bytes(x: u128, k: usize) -> (r: Vec<u8>)
    requires
        k <= 16,
    ensures
        r@ == le_bytes(x as nat, k as nat),
{
    let mut out: Vec<u8> = Vec::new();
    let mut rest: u128 = x;
    let mut i: usize = 0;
    while i < k
        invariant
            i <= k,
            out@ + le_bytes(rest as nat, (k - i) as nat) == le_bytes(x as nat, k as nat),
        decreases k - i,
    {
        let ghost before = out@;
        out.push((rest % 256) as u8);
        let ghost tail = le_bytes((rest / 256) as nat, (k - i - 1) as nat);
        assert(le_bytes(rest as nat, (k - i) as nat) == seq![(rest % 256) as u8] + tail);
        assert(out@ + tail =~= before + (seq![(rest % 256) as u8] + tail));
        rest = rest / 256;
        i = i + 1;
    }
    assert(out@ + le_bytes(rest as nat, 0) =~= out@);
    out
}

/// The unsigned value of little-endian bytes.
fn from_le_bytes(b: &[u8]) -> (r: u128)
    requires
        b@.len() <= 8,
    ensures
        r == le_value(b@),
        r < 0x1_0000_0000_0000_0000,
{
    let mut acc: u128 = 0;
    let mut i: usize = b.len();
    proof {
        assert(b@.subrange(i as int, b@.len() as int).len() == 0);
    }
    while i > 0
        invariant
            i <= b@.len() <= 8,
            acc == le_value(b@.subrange(i as int, b@.len() as int)),
            acc < pow256((b@.len() - i) as nat),
        decreases i,
    {
        let ghost tail = b@.subrange(i as int, b@.len() as int);
        let ghost full = b@.subrange(i - 1, b@.len() as int);
        assert(full.subrange(1, full.len() as int) =~= tail);
        assert(pow256((b@.len() - i + 1) as nat) == 256 * pow256((b@.len() - i) as nat));
        proof {
            lemma_pow256_bound((b@.len() - i) as nat);
        }
        acc = b[i - 1] as u128 + 256 * acc;
        i = i - 1;
    }
    proof {
        lemma_pow256_bound(b@.len() as nat);
        assert(b@.subrange(0, b@.len() as int) =~= b@);
        lemma_pow256_mono(b@.len() as nat, 8);
    }
    acc
}

/// `256` to the power `n`.
pub open spec fn pow256(n: nat) -> nat
    decreases n,
{
    if n == 0 {
        1
    } else {
        256 * pow256((n - 1) as nat)
    }
}

proof fn lemma_pow256_bound(n: nat)
    requires
        n <= 8,
    ensures
        pow256(n) <= 0x1_0000_0000_0000_0000,
    decreases n,
{
    reveal_with_fuel(pow256, 9);
}

proof fn lemma_pow256_mono(n: nat, m: nat)
    requires
        n <= m,
    ensures
        pow256(n) <= pow256(m),
    decreases m,
{
    if n < m {
        lemma_pow256_mono(n, (m - 1) as nat);
    }
}

/// Converts a primitive to the integer that a non-floating kind stores.
pub fn element_integer(kind: TypedArrayName, p: Primitive) -> (r: Result<i128, ErrorKind>)
    requires
        !kind.spec_is_float(),
    ensures
        r matches Ok(x) ==> spec_element_integer(kind, p) == Ok::<int, ErrorKind>(x as int),
        r matches Err(e) ==> spec_element_integer(kind, p) == Err::<int, ErrorKind>(e),
{
    if matches!(kind, TypedArrayName::BigInt64Array | TypedArrayName::BigUint64Array) {
        match p {
            Primitive::Boolean(b) => Ok(
                if b {
                    1
                } else {
                    0
                },
            ),
            Primitive::BigInt(v) => Ok(v),
            _ => Err(ErrorKind::TypeError),
        }
    } else {
        let n = match p {
            Primitive::Undefined => NumberValue::NaN,
            Primitive::Null => NumberValue::Integer(0),
            Primitive::Boolean(b) => NumberValue::Integer(
                if b {
                    1
                } else {
                    0
                },
            ),
            Primitive::Number(n) => n,
            _ => {
                return Err(ErrorKind::TypeError);
            },
        };
        if matches!(kind, TypedArrayName::Uint8ClampedArray) {
            match n {
                NumberValue::Integer(i) => Ok(
                    if i < 0 {
                        0
                    } else if i > 255 {
                        255
                    } else {
                        i as i128
                    },
                ),
                NumberValue::PositiveInfinity => Ok(255),
                _ => Ok(0),
            }
        } else {
            match n {
                NumberValue::Integer(i) => Ok(i as i128),
                _ => Ok(0),
            }
        }
    }
}

/// The bytes that a non-floating kind stores for the integer `x`.
pub fn encode(kind: TypedArrayName, x: i128) -> (r: Vec<u8>)
    requires
        !kind.spec_is_float(),
    ensures
        r@ == spec_encode(kind, x as int),
        r@.len() == kind.spec_element_size(),
{
    let m = modulus(kind);
    let w = wrap(x, m);
    let r = to_le_bytes(w, kind.element_size());
    proof {
        lemma_le_bytes_len(w as nat, kind.spec_element_size());
    }
    r
}

/// The integer that a non-floating kind reads back from one element's bytes.
pub fn decode(kind: TypedArrayName, b: &[u8]) -> (r: i128)
    requires
        !kind.spec_is_float(),
        b@.len() == kind.spec_element_size(),
    ensures
        r as int == spec_decode(kind, b@),
{
    let v = from_le_bytes(b);
    let m = modulus(kind);
    let signed = matches!(
        kind,
        TypedArrayName::Int8Array | TypedArrayName::Int16Array | TypedArrayName::Int32Array
            | TypedArrayName::BigInt64Array
    );
    if signed && v >= m / 2 {
        (v as i128) - (m as i128)
    } else {
        v as i128
    }
}

/// `k` little-endian bytes are `k` bytes long.
pub proof fn lemma_le_bytes_len(x: nat, k: nat)
    ensures
        le_bytes(x, k).len() == k,
    decreases k,
{
    if k > 0 {
        lemma_le_bytes_len(x / 256, (k - 1) as nat);
    }
}

proof fn lemma_pow256_positive(n: nat)
    ensures
        pow256(n) > 0,
    decreases n,
{
    if n > 0 {
        lemma_pow256_positive((n - 1) as nat);
    }
}

/// `k` little-endian bytes of `x` read back as `x` modulo `256` to the `k`.
pub proof fn lemma_le_value_of_le_bytes(x: nat, k: nat)
    ensures
        le_value(le_bytes(x, k)) == x % pow256(k),
    decreases k,
{
    if k == 0 {
        assert(x % 1 == 0) by (nonlinear_arith);
    } else {
        let b = le_bytes(x, k);
        let p = pow256((k - 1) as nat);
        lemma_le_bytes_len(x / 256, (k - 1) as nat);
        assert(b.subrange(1, b.len() as int) =~= le_bytes(x / 256, (k - 1) as nat));
        lemma_le_value_of_le_bytes(x / 256, (k - 1) as nat);
        lemma_pow256_positive((k - 1) as nat);
        vstd::arithmetic::div_mod::lemma_mod_breakdown(x as int, 256, p as int);
        vstd::arithmetic::div_mod::lemma_mod_pos_bound(x as int, 256);
    }
}

/// The integers that a non-floating kind holds exactly: `0 .. 2^bits` for an unsigned
/// kind, `-2^(bits-1) .. 2^(bits-1)` for a signed one.
pub open spec fn spec_in_range(kind: TypedArrayName, x: int) -> bool {
    if kind.spec_is_signed() {
        -(spec_modulus(kind) / 2) <= x < spec_modulus(kind) / 2
    } else {
        0 <= x < spec_modulus(kind)
    }
}

/// An integer in the range of a non-floating kind reads back as itself once stored.
pub proof fn lemma_decode_encode(kind: TypedArrayName, x: int)
    requires
        !kind.spec_is_float(),
        spec_in_range(kind, x),
    ensures
        spec_decode(kind, spec_encode(kind, x)) == x,
{
    let m = spec_modulus(kind);
    let size = kind.spec_element_size();
    reveal_with_fuel(pow256, 9);
    assert(pow256(size) == m);
    let v = x % (m as int);
    vstd::arithmetic::div_mod::lemma_mod_pos_bound(x + m, m as int);
    if x >= 0 {
        vstd::arithmetic::div_mod::lemma_small_mod(x as nat, m);
    } else {
        vstd::arithmetic::div_mod::lemma_mod_add_multiples_vanish(x, m as int);
        vstd::arithmetic::div_mod::lemma_small_mod((x + m) as nat, m);
    }
    lemma_le_value_of_le_bytes(v as nat, size);
    vstd::arithmetic::div_mod::lemma_small_mod(v as nat, m);
}

} // verus!
