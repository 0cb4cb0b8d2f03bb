//! Decoding bytes into a JSON value, as a full type lays them out: the
//! inverse of the encoding in `idl_type_full_serialize`.
use vstd::prelude::*;

use crate::endpoint::{pubkey_to_base58, pubkey_to_string, Pubkey};
use crate::idl_bytes::{le_value, pow256, read_le, lemma_pow256_values, lemma_le_value_bound};
use crate::idl_transform_error::ToolboxIdlTransformError;
use crate::idl_type_full::{
    full_fields_view,
    full_view,
    variants_full_seq_view,
    FullFieldsV,
    FullV,
    ToolboxIdlTypeFull,
    ToolboxIdlTypeFullFields,
};
use crate::idl_type_full_serialize::{is_signed, primitive_width};
use crate::idl_type_primitive::ToolboxIdlTypePrimitive;
use crate::json::{
    entries_insert,
    json_entries_view,
    json_seq_view,
    lemma_array_view,
    lemma_object_view,
    object_insert,
    str_to_string,
    JsonNumber,
    JsonV,
    JsonValue,
};
use vstd::utf8::{decode_utf8, valid_utf8};

verus! {

/// What decoding gives: the number of bytes read, and the value.
pub type ReadResult = Result<(nat, JsonV), ToolboxIdlTransformError>;

/// The number that the `size` bytes at `offset` denote, if they are there.
pub open spec fn spec_read(bytes: Seq<u8>, offset: nat, size: nat) -> Option<nat> {
    if offset + size <= bytes.len() {
        Some(le_value(bytes.subrange(offset as int, (offset + size) as int)))
    } else {
        None
    }
}

/// A length or variant index written on `size` bytes.
pub open spec fn spec_read_prefix(bytes: Seq<u8>, offset: nat, size: u8) -> Result<
    nat,
    ToolboxIdlTransformError,
> {
    if size > 8 {
        Err(ToolboxIdlTransformError::InvalidPrefixSize)
    } else {
        match spec_read(bytes, offset, size as nat) {
            None => Err(ToolboxIdlTransformError::NotEnoughBytes),
            Some(n) => Ok(n),
        }
    }
}

/// 2 to the 52nd: the place of an `f64`'s exponent.
pub open spec fn f64_exponent_unit() -> nat {
    0x10_0000_0000_0000
}

/// Whether the bits of an `f64` denote an infinity or not-a-number, which
/// JSON cannot hold.
pub open spec fn f64_bits_not_finite(bits: nat) -> bool {
    (bits / f64_exponent_unit()) % 2048 == 2047
}

/// The JSON number that an integer denotes, if JSON holds it.
pub open spec fn json_integer(value: int) -> Option<JsonV> {
    if 0 <= value <= u64::MAX {
        Some(JsonV::Number(JsonNumber::PosInt(value as u64)))
    } else if i64::MIN <= value < 0 {
        Some(JsonV::Number(JsonNumber::NegInt(value as i64)))
    } else {
        None
    }
}

/// A primitive value.
pub open spec fn spec_deserialize_primitive(p: ToolboxIdlTypePrimitive, bytes: Seq<u8>, offset: nat) -> ReadResult {
    match p {
        ToolboxIdlTypePrimitive::Bool => match spec_read(bytes, offset, 1) {
            None => Err(ToolboxIdlTransformError::NotEnoughBytes),
            Some(b) => if b == 0 {
                Ok((1, JsonV::Bool(false)))
            } else if b == 1 {
                Ok((1, JsonV::Bool(true)))
            } else {
                Err(ToolboxIdlTransformError::InvalidBool)
            },
        },
        ToolboxIdlTypePrimitive::String => match spec_read(bytes, offset, 4) {
            None => Err(ToolboxIdlTransformError::NotEnoughBytes),
            Some(len) => if offset + 4 + len <= bytes.len() {
                let b = bytes.subrange((offset + 4) as int, (offset + 4 + len) as int);
                if valid_utf8(b) {
                    Ok((4 + len, JsonV::Str(decode_utf8(b))))
                } else {
                    Err(ToolboxIdlTransformError::InvalidUtf8)
                }
            } else {
                Err(ToolboxIdlTransformError::NotEnoughBytes)
            },
        },
        ToolboxIdlTypePrimitive::PublicKey => if offset + 32 <= bytes.len() {
            Ok((32, JsonV::Str(pubkey_to_base58(bytes.subrange(offset as int, (offset + 32) as int)))))
        } else {
            Err(ToolboxIdlTransformError::NotEnoughBytes)
        },
        ToolboxIdlTypePrimitive::F32 => Err(ToolboxIdlTransformError::FloatUnsupported),
        ToolboxIdlTypePrimitive::F64 => match spec_read(bytes, offset, 8) {
            None => Err(ToolboxIdlTransformError::NotEnoughBytes),
            Some(bits) => if f64_bits_not_finite(bits) {
                Ok((8, JsonV::Null))
            } else {
                Ok((8, JsonV::Number(JsonNumber::Float(bits as u64))))
            },
        },
        _ => {
            let width = primitive_width(p);
            match spec_read(bytes, offset, width) {
                None => Err(ToolboxIdlTransformError::NotEnoughBytes),
                Some(u) => {
                    let value: int = if is_signed(p) && u >= pow256(width) / 2 {
                        u - pow256(width)
                    } else {
                        u as int
                    };
                    match json_integer(value) {
                        Some(v) => Ok((width, v)),
                        None => Err(ToolboxIdlTransformError::NumberOutOfRange),
                    }
                },
            }
        },
    }
}

/// The value of type `t` whose bytes start at `offset`, with their count.
pub open spec fn spec_deserialize(t: FullV, bytes: Seq<u8>, offset: nat) -> ReadResult
    decreases t, 0nat,
{
    match t {
        FullV::Option { prefix_bytes, content } => match spec_read_prefix(bytes, offset, prefix_bytes) {
            Err(e) => Err(e),
            Ok(tag) => if tag == 0 {
                Ok((prefix_bytes as nat, JsonV::Null))
            } else {
                match spec_deserialize(*content, bytes, offset + prefix_bytes as nat) {
                    Err(e) => Err(e),
                    Ok((n, v)) => Ok((prefix_bytes as nat + n, v)),
                }
            },
        },
        FullV::Vec { prefix_bytes, items } => match spec_read_prefix(bytes, offset, prefix_bytes) {
            Err(e) => Err(e),
            Ok(len) => match spec_deserialize_items(*items, bytes, offset + prefix_bytes as nat, len) {
                Err(e) => Err(e),
                Ok((n, xs)) => Ok((prefix_bytes as nat + n, JsonV::Array(xs))),
            },
        },
        FullV::Array { items, length } => match spec_deserialize_items(
            *items,
            bytes,
            offset,
            length as nat,
        ) {
            Err(e) => Err(e),
            Ok((n, xs)) => Ok((n, JsonV::Array(xs))),
        },
        FullV::Struct { fields } => spec_deserialize_fields(fields, bytes, offset),
        FullV::Enum { prefix_bytes, variants } => match spec_read_prefix(bytes, offset, prefix_bytes) {
            Err(e) => Err(e),
            Ok(k) => if k < variants.len() {
                proof {
                    assert(decreases_to!(t => variants[k as int].1));
                }
                let (name, fields) = variants[k as int];
                match spec_deserialize_fields(fields, bytes, offset + prefix_bytes as nat) {
                    Err(e) => Err(e),
                    Ok((n, fields_value)) => Ok(
                        (
                            prefix_bytes as nat + n,
                            if fields is Nothing {
                                JsonV::Str(name)
                            } else {
                                JsonV::Object(seq![(name, fields_value)])
                            },
                        ),
                    ),
                }
            } else {
                Err(ToolboxIdlTransformError::InvalidVariantIndex)
            },
        },
        FullV::Padded { size_bytes, content } => match spec_deserialize(*content, bytes, offset) {
            Err(e) => Err(e),
            Ok((n, v)) => if n > size_bytes {
                Err(ToolboxIdlTransformError::PaddingOverflow)
            } else if offset + size_bytes > bytes.len() {
                Err(ToolboxIdlTransformError::NotEnoughBytes)
            } else {
                Ok((size_bytes as nat, v))
            },
        },
        FullV::Const { .. } => Err(ToolboxIdlTransformError::ConstNotSerializable),
        FullV::Primitive { primitive } => spec_deserialize_primitive(primitive, bytes, offset),
    }
}

/// `n` values of type `t`, one after the other from `offset`.
pub open spec fn spec_deserialize_items(t: FullV, bytes: Seq<u8>, offset: nat, n: nat) -> Result<
    (nat, Seq<JsonV>),
    ToolboxIdlTransformError,
>
    decreases t, n,
{
    if n == 0 {
        Ok((0, Seq::empty()))
    } else {
        match spec_deserialize_items(t, bytes, offset, (n - 1) as nat) {
            Err(e) => Err(e),
            Ok((c, xs)) => match spec_deserialize(t, bytes, offset + c) {
                Err(e) => Err(e),
                Ok((d, x)) => Ok((c + d, xs.push(x))),
            },
        }
    }
}

/// The first `n` named fields, each set in the object in turn.
pub open spec fn spec_deserialize_named(
    fields: Seq<(Seq<char>, FullV)>,
    bytes: Seq<u8>,
    offset: nat,
    n: nat,
) -> Result<(nat, Seq<(Seq<char>, JsonV)>), ToolboxIdlTransformError>
    decreases fields, n,
{
    if n == 0 || n > fields.len() {
        Ok((0, Seq::empty()))
    } else {
        match spec_deserialize_named(fields, bytes, offset, (n - 1) as nat) {
            Err(e) => Err(e),
            Ok((c, entries)) => {
                proof {
                    assert(decreases_to!(fields => fields[n - 1].1));
                }
                match spec_deserialize(fields[n - 1].1, bytes, offset + c) {
                    Err(e) => Err(e),
                    Ok((d, x)) => Ok((c + d, entries_insert(entries, fields[n - 1].0, x))),
                }
            },
        }
    }
}

/// The first `n` unnamed fields.
pub open spec fn spec_deserialize_unnamed(types: Seq<FullV>, bytes: Seq<u8>, offset: nat, n: nat) -> Result<
    (nat, Seq<JsonV>),
    ToolboxIdlTransformError,
>
    decreases types, n,
{
    if n == 0 || n > types.len() {
        Ok((0, Seq::empty()))
    } else {
        match spec_deserialize_unnamed(types, bytes, offset, (n - 1) as nat) {
            Err(e) => Err(e),
            Ok((c, xs)) => match spec_deserialize(types[n - 1], bytes, offset + c) {
                Err(e) => Err(e),
                Ok((d, x)) => Ok((c + d, xs.push(x))),
            },
        }
    }
}

/// The value of some fields: null without fields, an object of the named
/// fields, or an array of the unnamed ones.
pub open spec fn spec_deserialize_fields(f: FullFieldsV, bytes: Seq<u8>, offset: nat) -> ReadResult
    decreases f, 0nat,
{
    match f {
        FullFieldsV::Nothing => Ok((0, JsonV::Null)),
        FullFieldsV::Named(fields) => match spec_deserialize_named(
            fields,
            bytes,
            offset,
            fields.len(),
        ) {
            Err(e) => Err(e),
            Ok((n, entries)) => Ok((n, JsonV::Object(entries))),
        },
        FullFieldsV::Unnamed(types) => match spec_deserialize_unnamed(
            types,
            bytes,
            offset,
            types.len(),
        ) {
            Err(e) => Err(e),
            Ok((n, xs)) => Ok((n, JsonV::Array(xs))),
        },
    }
}

/// Reads UTF-8 text with std's `str::from_utf8`. Claimed, as its
/// documentation says: the bytes are accepted exactly when they are valid
/// UTF-8, and the text is the characters they encode.
#[verifier::external_body]
fn utf8_to_string(bytes: &[u8]) -> (r: Option<String>)
    ensures
        match r {
            Some(s) => valid_utf8(bytes@) && s@ == decode_utf8(bytes@),
            None => !valid_utf8(bytes@),
        },
{
    match std::str::from_utf8(bytes) {
        Ok(s) => Some(s.to_string()),
        Err(_) => None,
    }
}

/// Once decoding values fails, decoding more of them fails the same way.
pub proof fn lemma_deserialize_items_err_stable(t: FullV, bytes: Seq<u8>, offset: nat, i: nat, n: nat)
    requires
        i <= n,
        spec_deserialize_items(t, bytes, offset, i) is Err,
    ensures
        spec_deserialize_items(t, bytes, offset, n) == spec_deserialize_items(t, bytes, offset, i),
    decreases n - i,
{
    if i < n {
        lemma_deserialize_items_err_stable(t, bytes, offset, i, (n - 1) as nat);
    }
}

/// Once decoding named fields fails, decoding more of them fails the same way.
pub proof fn lemma_deserialize_named_err_stable(
    fields: Seq<(Seq<char>, FullV)>,
    bytes: Seq<u8>,
    offset: nat,
    i: nat,
    n: nat,
)
    requires
        i <= n <= fields.len(),
        spec_deserialize_named(fields, bytes, offset, i) is Err,
    ensures
        spec_deserialize_named(fields, bytes, offset, n) == spec_deserialize_named(
            fields,
            bytes,
            offset,
            i,
        ),
    decreases n - i,
{
    if i < n {
        lemma_deserialize_named_err_stable(fields, bytes, offset, i, (n - 1) as nat);
    }
}

/// Once decoding unnamed fields fails, decoding more of them fails the same way.
pub proof fn lemma_deserialize_unnamed_err_stable(
    types: Seq<FullV>,
    bytes: Seq<u8>,
    offset: nat,
    i: nat,
    n: nat,
)
    requires
        i <= n <= types.len(),
        spec_deserialize_unnamed(types, bytes, offset, i) is Err,
    ensures
        spec_deserialize_unnamed(types, bytes, offset, n) == spec_deserialize_unnamed(
            types,
            bytes,
            offset,
            i,
        ),
    decreases n - i,
{
    if i < n {
        lemma_deserialize_unnamed_err_stable(types, bytes, offset, i, (n - 1) as nat);
    }
}

/// What a decoder promises: on success the value and count of `spec`, all
/// within the bytes; on failure the error of `spec`.
pub open spec fn decoded(
    r: Result<(usize, JsonValue), ToolboxIdlTransformError>,
    spec: ReadResult,
    offset: nat,
    len: nat,
) -> bool {
    match r {
        Ok((n, v)) => spec == Ok::<(nat, JsonV), ToolboxIdlTransformError>((n as nat, v@)) && offset
            + n <= len,
        Err(e) => spec == Err::<(nat, JsonV), ToolboxIdlTransformError>(e),
    }
}

/// Reads a length or variant index written on `size` bytes.
fn read_prefix(bytes: &[u8], offset: usize, size: u8) -> (r: Result<u64, ToolboxIdlTransformError>)
    ensures
        match r {
            Ok(n) => spec_read_prefix(bytes@, offset as nat, size) == Ok::<
                nat,
                ToolboxIdlTransformError,
            >(n as nat) && offset + size <= bytes@.len(),
            Err(e) => spec_read_prefix(bytes@, offset as nat, size) == Err::<
                nat,
                ToolboxIdlTransformError,
            >(e),
        },
{
    if size > 8 {
        return Err(ToolboxIdlTransformError::InvalidPrefixSize);
    }
    match read_le(bytes, offset, size as usize) {
        None => Err(ToolboxIdlTransformError::NotEnoughBytes),
        Some(x) => {
            proof {
                lemma_le_value_bound(bytes@.subrange(offset as int, offset + size));
                crate::idl_bytes::lemma_pow256_monotone(size as nat, 8);
                lemma_pow256_values();
            }
            Ok(x as u64)
        },
    }
}

/// Reads a primitive value.
fn deserialize_primitive(p: &ToolboxIdlTypePrimitive, bytes: &[u8], offset: usize) -> (r: Result<
    (usize, JsonValue),
    ToolboxIdlTransformError,
>)
    ensures
        decoded(r, spec_deserialize_primitive(*p, bytes@, offset as nat), offset as nat, bytes@.len()),
{
    proof {
        lemma_pow256_values();
    }
    match p {
        ToolboxIdlTypePrimitive::Bool => match read_le(bytes, offset, 1) {
            None => Err(ToolboxIdlTransformError::NotEnoughBytes),
            Some(b) => if b == 0 {
                Ok((1, JsonValue::Bool(false)))
            } else if b == 1 {
                Ok((1, JsonValue::Bool(true)))
            } else {
                Err(ToolboxIdlTransformError::InvalidBool)
            },
        },
        ToolboxIdlTypePrimitive::String => match read_le(bytes, offset, 4) {
            None => Err(ToolboxIdlTransformError::NotEnoughBytes),
            Some(len) => {
                proof {
                    lemma_le_value_bound(bytes@.subrange(offset as int, offset + 4));
                }
                assert(offset + 4 <= bytes.len());
                let start = offset + 4;
                if len > (bytes.len() - start) as u128 {
                    return Err(ToolboxIdlTransformError::NotEnoughBytes);
                }
                let len = len as usize;
                let mut text: Vec<u8> = Vec::new();
                let mut i: usize = 0;
                while i < len
                    invariant
                        i <= len,
                        start + len <= bytes.len(),
                        text@ == bytes@.subrange(start as int, start + i),
                    decreases len - i,
                {
                    text.push(bytes[start + i]);
                    proof {
                        assert(bytes@.subrange(start as int, start + i + 1) =~= bytes@.subrange(
                            start as int,
                            start + i,
                        ).push(bytes@[start + i]));
                    }
                    i = i + 1;
                }
                match utf8_to_string(text.as_slice()) {
                    Some(s) => Ok((4 + len, JsonValue::Str(s))),
                    None => Err(ToolboxIdlTransformError::InvalidUtf8),
                }
            },
        },
        ToolboxIdlTypePrimitive::PublicKey => {
            if 32 > bytes.len() || offset > bytes.len() - 32 {
                return Err(ToolboxIdlTransformError::NotEnoughBytes);
            }
            let mut key = Pubkey { bytes: [0u8; 32] };
            let mut i: usize = 0;
            while i < 32
                invariant
                    i <= 32,
                    offset + 32 <= bytes.len(),
                    forall|k: int| 0 <= k < i ==> key.bytes@[k] == bytes@[offset + k],
                decreases 32 - i,
            {
                key.bytes[i] = bytes[offset + i];
                i = i + 1;
            }
            proof {
                assert(key@ =~= bytes@.subrange(offset as int, offset + 32));
            }
            Ok((32, JsonValue::Str(pubkey_to_string(&key))))
        },
        ToolboxIdlTypePrimitive::F32 => Err(ToolboxIdlTransformError::FloatUnsupported),
        ToolboxIdlTypePrimitive::F64 => match read_le(bytes, offset, 8) {
            None => Err(ToolboxIdlTransformError::NotEnoughBytes),
            Some(bits) => {
                proof {
                    lemma_le_value_bound(bytes@.subrange(offset as int, offset + 8));
                }
                if (bits / 0x10_0000_0000_0000) % 2048 == 2047 {
                    Ok((8, JsonValue::Null))
                } else {
                    Ok((8, JsonValue::Number(JsonNumber::Float(bits as u64))))
                }
            },
        },
        _ => {
            let width: usize = match p {
                ToolboxIdlTypePrimitive::U8 | ToolboxIdlTypePrimitive::I8 => 1,
                ToolboxIdlTypePrimitive::U16 | ToolboxIdlTypePrimitive::I16 => 2,
                ToolboxIdlTypePrimitive::U32 | ToolboxIdlTypePrimitive::I32 => 4,
                ToolboxIdlTypePrimitive::U64 | ToolboxIdlTypePrimitive::I64 => 8,
                _ => 16,
            };
            let signed = match p {
                ToolboxIdlTypePrimitive::I8 | ToolboxIdlTypePrimitive::I16
                | ToolboxIdlTypePrimitive::I32 | ToolboxIdlTypePrimitive::I64
                | ToolboxIdlTypePrimitive::I128 => true,
                _ => false,
            };
            let u = match read_le(bytes, offset, width) {
                None => {
                    return Err(ToolboxIdlTransformError::NotEnoughBytes);
                },
                Some(u) => u,
            };
            proof {
                lemma_le_value_bound(bytes@.subrange(offset as int, offset + width));
            }
            let half = crate::idl_bytes::half_pow256_exec(width);
            if signed && u >= half {
                let magnitude: u128 = half - (u - half);
                if magnitude > 0x8000_0000_0000_0000 {
                    return Err(ToolboxIdlTransformError::NumberOutOfRange);
                }
                let value: i64 = if magnitude == 0x8000_0000_0000_0000 {
                    i64::MIN
                } else {
                    -(magnitude as i64)
                };
                Ok((width, JsonValue::Number(JsonNumber::NegInt(value))))
            } else {
                if u > u64::MAX as u128 {
                    return Err(ToolboxIdlTransformError::NumberOutOfRange);
                }
                Ok((width, JsonValue::Number(JsonNumber::PosInt(u as u64))))
            }
        },
    }
}

/// Reads a value of type `t` at `offset`.
fn deserialize_rec(t: &ToolboxIdlTypeFull, bytes: &[u8], offset: usize) -> (r: Result<
    (usize, JsonValue),
    ToolboxIdlTransformError,
>)
    requires
        offset <= bytes@.len(),
    ensures
        decoded(r, spec_deserialize(full_view(*t), bytes@, offset as nat), offset as nat, bytes@.len()),
    decreases t, 1nat,
{
    let blen = bytes.len();
    match t {
        ToolboxIdlTypeFull::Option { prefix_bytes, content } => {
            let tag = match read_prefix(bytes, offset, *prefix_bytes) {
                Ok(tag) => tag,
                Err(e) => {
                    return Err(e);
                },
            };
            if tag == 0 {
                return Ok((*prefix_bytes as usize, JsonValue::Null));
            }
            let p = *prefix_bytes as usize;
            match deserialize_rec(content, bytes, offset + p) {
                Ok((n, v)) => Ok((p + n, v)),
                Err(e) => Err(e),
            }
        },
        ToolboxIdlTypeFull::Vec { prefix_bytes, items } => {
            let len = match read_prefix(bytes, offset, *prefix_bytes) {
                Ok(len) => len,
                Err(e) => {
                    return Err(e);
                },
            };
            let p = *prefix_bytes as usize;
            match deserialize_items(items, bytes, offset + p, len) {
                Ok((n, xs)) => {
                    proof {
                        lemma_array_view(xs);
                    }
                    Ok((p + n, JsonValue::Array(xs)))
                },
                Err(e) => Err(e),
            }
        },
        ToolboxIdlTypeFull::Array { items, length } => {
            match deserialize_items(items, bytes, offset, *length) {
                Ok((n, xs)) => {
                    proof {
                        lemma_array_view(xs);
                    }
                    Ok((n, JsonValue::Array(xs)))
                },
                Err(e) => Err(e),
            }
        },
        ToolboxIdlTypeFull::Struct { fields } => deserialize_fields_rec(fields, bytes, offset),
        ToolboxIdlTypeFull::Enum { .. } => deserialize_enum(t, bytes, offset),
        ToolboxIdlTypeFull::Padded { size_bytes, content } => {
            let (n, v) = match deserialize_rec(content, bytes, offset) {
                Ok(x) => x,
                Err(e) => {
                    return Err(e);
                },
            };
            if n as u64 > *size_bytes {
                return Err(ToolboxIdlTransformError::PaddingOverflow);
            }
            if *size_bytes > (bytes.len() - offset) as u64 {
                return Err(ToolboxIdlTransformError::NotEnoughBytes);
            }
            Ok((*size_bytes as usize, v))
        },
        ToolboxIdlTypeFull::Const { .. } => Err(ToolboxIdlTransformError::ConstNotSerializable),
        ToolboxIdlTypeFull::Primitive { primitive } => deserialize_primitive(primitive, bytes, offset),
    }
}

/// Reads an enum value: the variant's index, then its fields.
fn deserialize_enum(t: &ToolboxIdlTypeFull, bytes: &[u8], offset: usize) -> (r: Result<
    (usize, JsonValue),
    ToolboxIdlTransformError,
>)
    requires
        *t is Enum,
        offset <= bytes@.len(),
    ensures
        decoded(r, spec_deserialize(full_view(*t), bytes@, offset as nat), offset as nat, bytes@.len()),
    decreases t, 0nat,
{
    let blen = bytes.len();
    let (prefix_bytes, variants) = match t {
        ToolboxIdlTypeFull::Enum { prefix_bytes, variants } => (prefix_bytes, variants),
        _ => {
            return Err(ToolboxIdlTransformError::InvalidVariantIndex);
        },
    };
    let ghost vs = full_view(*t)->Enum_variants;
    let k = match read_prefix(bytes, offset, *prefix_bytes) {
        Ok(k) => k,
        Err(e) => {
            return Err(e);
        },
    };
    if k >= variants.len() as u64 {
        return Err(ToolboxIdlTransformError::InvalidVariantIndex);
    }
    let k = k as usize;
    proof {
        assert(decreases_to!(*t => (*t)->Enum_variants@[k as int].1));
        assert(vs[k as int].1 == full_fields_view(variants@[k as int].1));
        assert(vs[k as int].0 == variants@[k as int].0@);
    }
    let p = *prefix_bytes as usize;
    let (n, fields_value) = match deserialize_fields_rec(&variants[k].1, bytes, offset + p) {
        Ok(x) => x,
        Err(e) => {
            return Err(e);
        },
    };
    let name = str_to_string(variants[k].0.as_str());
    let value = match &variants[k].1 {
        ToolboxIdlTypeFullFields::Nothing => JsonValue::Str(name),
        _ => {
            let mut entries: Vec<(String, JsonValue)> = Vec::new();
            entries.push((name, fields_value));
            let v = JsonValue::Object(entries);
            proof {
                assert(v@->Object_0 =~= seq![(vs[k as int].0, fields_value@)]);
            }
            v
        },
    };
    Ok((p + n, value))
}

/// Reads `n` values of type `t`, one after the other from `offset`.
fn deserialize_items(t: &ToolboxIdlTypeFull, bytes: &[u8], offset: usize, n: u64) -> (r: Result<
    (usize, Vec<JsonValue>),
    ToolboxIdlTransformError,
>)
    requires
        offset <= bytes@.len(),
    ensures
        match r {
            Ok((c, xs)) => spec_deserialize_items(full_view(*t), bytes@, offset as nat, n as nat)
                == Ok::<(nat, Seq<JsonV>), ToolboxIdlTransformError>(
                (c as nat, json_seq_view(xs@)),
            ) && offset + c <= bytes@.len(),
            Err(e) => spec_deserialize_items(full_view(*t), bytes@, offset as nat, n as nat)
                == Err::<(nat, Seq<JsonV>), ToolboxIdlTransformError>(e),
        },
    decreases t, 2nat,
{
    let blen = bytes.len();
    let ghost tv = full_view(*t);
    let mut xs: Vec<JsonValue> = Vec::new();
    let mut c: usize = 0;
    let mut i: u64 = 0;
    proof {
        assert(json_seq_view(xs@) =~= Seq::<JsonV>::empty());
    }
    while i < n
        invariant
            i <= n,
            tv == full_view(*t),
            offset + c <= bytes@.len(),
            blen == bytes@.len(),
            spec_deserialize_items(tv, bytes@, offset as nat, i as nat) == Ok::<
                (nat, Seq<JsonV>),
                ToolboxIdlTransformError,
            >((c as nat, json_seq_view(xs@))),
        decreases n - i,
    {
        match deserialize_rec(t, bytes, offset + c) {
            Ok((d, x)) => {
                let ghost prev = xs@;
                xs.push(x);
                proof {
                    assert(json_seq_view(xs@) =~= json_seq_view(prev).push(x@));
                }
                c = c + d;
            },
            Err(e) => {
                proof {
                    lemma_deserialize_items_err_stable(
                        tv,
                        bytes@,
                        offset as nat,
                        (i + 1) as nat,
                        n as nat,
                    );
                }
                return Err(e);
            },
        }
        i = i + 1;
    }
    Ok((c, xs))
}

/// Reads a value of some fields at `offset`.
fn deserialize_fields_rec(f: &ToolboxIdlTypeFullFields, bytes: &[u8], offset: usize) -> (r: Result<
    (usize, JsonValue),
    ToolboxIdlTransformError,
>)
    requires
        offset <= bytes@.len(),
    ensures
        decoded(
            r,
            spec_deserialize_fields(full_fields_view(*f), bytes@, offset as nat),
            offset as nat,
            bytes@.len(),
        ),
    decreases f, 0nat,
{
    let blen = bytes.len();
    match f {
        ToolboxIdlTypeFullFields::Nothing => Ok((0, JsonValue::Null)),
        ToolboxIdlTypeFullFields::Named(fields) => {
            let ghost fs = full_fields_view(*f)->Named_0;
            let mut entries: Vec<(String, JsonValue)> = Vec::new();
            let mut c: usize = 0;
            let mut i: usize = 0;
            proof {
                assert(json_entries_view(entries@) =~= Seq::<(Seq<char>, JsonV)>::empty());
            }
            while i < fields.len()
                invariant
                    i <= fields.len(),
                    *f == ToolboxIdlTypeFullFields::Named(*fields),
                    fs == full_fields_view(*f)->Named_0,
                    fs.len() == fields@.len(),
                    offset + c <= bytes@.len(),
                    blen == bytes@.len(),
                    spec_deserialize_named(fs, bytes@, offset as nat, i as nat) == Ok::<
                        (nat, Seq<(Seq<char>, JsonV)>),
                        ToolboxIdlTransformError,
                    >((c as nat, json_entries_view(entries@))),
                decreases fields.len() - i,
            {
                proof {
                    assert(fs[i as int].0 == fields@[i as int].0@);
                    assert(fs[i as int].1 == full_view(fields@[i as int].1));
                    assert(decreases_to!(*f => (*f)->Named_0@[i as int].1));
                }
                match deserialize_rec(&fields[i].1, bytes, offset + c) {
                    Ok((d, x)) => {
                        object_insert(&mut entries, str_to_string(fields[i].0.as_str()), x);
                        c = c + d;
                    },
                    Err(e) => {
                        proof {
                            lemma_deserialize_named_err_stable(
                                fs,
                                bytes@,
                                offset as nat,
                                (i + 1) as nat,
                                fs.len(),
                            );
                        }
                        return Err(e);
                    },
                }
                i = i + 1;
            }
            proof {
                lemma_object_view(entries);
            }
            Ok((c, JsonValue::Object(entries)))
        },
        ToolboxIdlTypeFullFields::Unnamed(types) => {
            let ghost ts = full_fields_view(*f)->Unnamed_0;
            let mut xs: Vec<JsonValue> = Vec::new();
            let mut c: usize = 0;
            let mut i: usize = 0;
            proof {
                assert(json_seq_view(xs@) =~= Seq::<JsonV>::empty());
            }
            while i < types.len()
                invariant
                    i <= types.len(),
                    *f == ToolboxIdlTypeFullFields::Unnamed(*types),
                    ts == full_fields_view(*f)->Unnamed_0,
                    ts.len() == types@.len(),
                    offset + c <= bytes@.len(),
                    blen == bytes@.len(),
                    spec_deserialize_unnamed(ts, bytes@, offset as nat, i as nat) == Ok::<
                        (nat, Seq<JsonV>),
                        ToolboxIdlTransformError,
                    >((c as nat, json_seq_view(xs@))),
                decreases types.len() - i,
            {
                proof {
                    assert(ts[i as int] == full_view(types@[i as int]));
                    assert(decreases_to!(*f => (*f)->Unnamed_0@[i as int]));
                }
                match deserialize_rec(&types[i], bytes, offset + c) {
                    Ok((d, x)) => {
                        let ghost prev = xs@;
                        xs.push(x);
                        proof {
                            assert(json_seq_view(xs@) =~= json_seq_view(prev).push(x@));
                        }
                        c = c + d;
                    },
                    Err(e) => {
                        proof {
                            lemma_deserialize_unnamed_err_stable(
                                ts,
                                bytes@,
                                offset as nat,
                                (i + 1) as nat,
                                ts.len(),
                            );
                        }
                        return Err(e);
                    },
                }
                i = i + 1;
            }
            proof {
                lemma_array_view(xs);
            }
            Ok((c, JsonValue::Array(xs)))
        },
    }
}

impl ToolboxIdlTypeFull {
    /// Decodes a value of this type from the bytes at `offset`, with the
    /// number of bytes it takes.
    pub fn try_deserialize(&self, data: &[u8], offset: usize) -> (r: Result<
        (usize, JsonValue),
        ToolboxIdlTransformError,
    >)
        ensures
            offset <= data@.len() ==> decoded(
                r,
                spec_deserialize(full_view(*self), data@, offset as nat),
                offset as nat,
                data@.len(),
            ),
            offset > data@.len() ==> r == Err::<(usize, JsonValue), ToolboxIdlTransformError>(
                ToolboxIdlTransformError::NotEnoughBytes,
            ),
    {
        if offset > data.len() {
            return Err(ToolboxIdlTransformError::NotEnoughBytes);
        }
        deserialize_rec(self, data, offset)
    }
}

impl ToolboxIdlTypeFullFields {
    /// Decodes a value of these fields from the bytes at `offset`, with the
    /// number of bytes it takes.
    pub fn try_deserialize(&self, data: &[u8], offset: usize) -> (r: Result<
        (usize, JsonValue),
        ToolboxIdlTransformError,
    >)
        ensures
            offset <= data@.len() ==> decoded(
                r,
                spec_deserialize_fields(full_fields_view(*self), data@, offset as nat),
                offset as nat,
                data@.len(),
            ),
            offset > data@.len() ==> r == Err::<(usize, JsonValue), ToolboxIdlTransformError>(
                ToolboxIdlTransformError::NotEnoughBytes,
            ),
    {
        if offset > data.len() {
            return Err(ToolboxIdlTransformError::NotEnoughBytes);
        }
        deserialize_fields_rec(self, data, offset)
    }
}

} // verus!
