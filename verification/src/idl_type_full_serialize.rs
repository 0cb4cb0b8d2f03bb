//! Encoding a JSON value into bytes, as a full type lays it out (Borsh):
//! little-endian integers, length-prefixed vectors and strings, a prefix
//! before options and enum variants, fields one after the other.
use vstd::prelude::*;

use crate::endpoint::{pubkey_from_base58, pubkey_from_str, Pubkey};
use crate::idl_bytes::{
    half_pow256_exec,
    le_bytes,
    lemma_pow256_monotone,
    lemma_pow256_positive,
    lemma_pow256_values,
    pow256,
    pow256_exec,
    push_le,
};
use crate::idl_transform_error::ToolboxIdlTransformError;
use crate::idl_type_full::{
    full_fields_view,
    full_view,
    variants_full_seq_view,
    FullFieldsV,
    FullV,
    ToolboxIdlTypeFull,
    ToolboxIdlTypeFullFields,
};
use crate::idl_type_primitive::ToolboxIdlTypePrimitive;
use crate::json::{
    entries_get,
    json_entries_view,
    json_seq_view,
    lemma_array_view,
    lemma_object_view,
    object_get,
    str_eq,
    JsonNumber,
    JsonV,
    JsonValue,
};
use vstd::utf8::encode_utf8;

verus! {

pub type BytesResult = Result<Seq<u8>, ToolboxIdlTransformError>;

/// The number of bytes that a fixed-size primitive takes.
pub open spec fn primitive_width(p: ToolboxIdlTypePrimitive) -> nat {
    match p {
        ToolboxIdlTypePrimitive::U8 | ToolboxIdlTypePrimitive::I8 | ToolboxIdlTypePrimitive::Bool => 1,
        ToolboxIdlTypePrimitive::U16 | ToolboxIdlTypePrimitive::I16 => 2,
        ToolboxIdlTypePrimitive::U32 | ToolboxIdlTypePrimitive::I32 | ToolboxIdlTypePrimitive::F32 => 4,
        ToolboxIdlTypePrimitive::U64 | ToolboxIdlTypePrimitive::I64 | ToolboxIdlTypePrimitive::F64 => 8,
        ToolboxIdlTypePrimitive::U128 | ToolboxIdlTypePrimitive::I128 => 16,
        _ => 0,
    }
}

/// Whether a primitive is a signed integer.
pub open spec fn is_signed(p: ToolboxIdlTypePrimitive) -> bool {
    p == ToolboxIdlTypePrimitive::I8 || p == ToolboxIdlTypePrimitive::I16 || p
        == ToolboxIdlTypePrimitive::I32 || p == ToolboxIdlTypePrimitive::I64 || p
        == ToolboxIdlTypePrimitive::I128
}

/// A length or variant index written on `size` bytes.
pub open spec fn spec_prefix(n: nat, size: u8) -> BytesResult {
    if size > 8 {
        Err(ToolboxIdlTransformError::InvalidPrefixSize)
    } else if n < pow256(size as nat) {
        Ok(le_bytes(n, size as nat))
    } else {
        Err(ToolboxIdlTransformError::PrefixOverflow)
    }
}

/// An unsigned integer of `width` bytes.
pub open spec fn spec_serialize_unsigned(width: nat, v: JsonV) -> BytesResult {
    match v {
        JsonV::Number(JsonNumber::PosInt(n)) => if n < pow256(width) {
            Ok(le_bytes(n as nat, width))
        } else {
            Err(ToolboxIdlTransformError::NumberOutOfRange)
        },
        JsonV::Number(_) => Err(ToolboxIdlTransformError::NumberOutOfRange),
        _ => Err(ToolboxIdlTransformError::ExpectedNumber),
    }
}

/// A signed integer of `width` bytes, in two's complement.
pub open spec fn spec_serialize_signed(width: nat, v: JsonV) -> BytesResult {
    let half = pow256(width) / 2;
    match v {
        JsonV::Number(JsonNumber::PosInt(n)) => if n < half {
            Ok(le_bytes(n as nat, width))
        } else {
            Err(ToolboxIdlTransformError::NumberOutOfRange)
        },
        JsonV::Number(JsonNumber::NegInt(i)) => if i >= 0 {
            if i < half {
                Ok(le_bytes(i as nat, width))
            } else {
                Err(ToolboxIdlTransformError::NumberOutOfRange)
            }
        } else if -i <= half {
            Ok(le_bytes((pow256(width) + i) as nat, width))
        } else {
            Err(ToolboxIdlTransformError::NumberOutOfRange)
        },
        JsonV::Number(_) => Err(ToolboxIdlTransformError::NumberOutOfRange),
        _ => Err(ToolboxIdlTransformError::ExpectedNumber),
    }
}

/// A primitive value.
pub open spec fn spec_serialize_primitive(p: ToolboxIdlTypePrimitive, v: JsonV) -> BytesResult {
    match p {
        ToolboxIdlTypePrimitive::Bool => match v {
            JsonV::Bool(b) => Ok(
                seq![
                    if b {
                        1u8
                    } else {
                        0u8
                    },
                ],
            ),
            _ => Err(ToolboxIdlTransformError::ExpectedBool),
        },
        ToolboxIdlTypePrimitive::String => match v {
            JsonV::Str(s) => {
                let b = encode_utf8(s);
                if b.len() < pow256(4) {
                    Ok(le_bytes(b.len(), 4) + b)
                } else {
                    Err(ToolboxIdlTransformError::PrefixOverflow)
                }
            },
            _ => Err(ToolboxIdlTransformError::ExpectedString),
        },
        ToolboxIdlTypePrimitive::PublicKey => match v {
            JsonV::Str(s) => match pubkey_from_base58(s) {
                Some(k) => if k.len() == 32 {
                    Ok(k)
                } else {
                    Err(ToolboxIdlTransformError::InvalidAddress)
                },
                None => Err(ToolboxIdlTransformError::InvalidAddress),
            },
            _ => Err(ToolboxIdlTransformError::ExpectedString),
        },
        ToolboxIdlTypePrimitive::F32 => Err(ToolboxIdlTransformError::FloatUnsupported),
        ToolboxIdlTypePrimitive::F64 => match v {
            JsonV::Number(JsonNumber::Float(bits)) => Ok(le_bytes(bits as nat, 8)),
            JsonV::Number(_) => Err(ToolboxIdlTransformError::FloatUnsupported),
            _ => Err(ToolboxIdlTransformError::ExpectedNumber),
        },
        _ => if is_signed(p) {
            spec_serialize_signed(primitive_width(p), v)
        } else {
            spec_serialize_unsigned(primitive_width(p), v)
        },
    }
}

/// The index of the first variant named `name` among the first `n`.
pub open spec fn spec_find_variant(variants: Seq<(Seq<char>, FullFieldsV)>, name: Seq<char>, n: nat) -> Option<
    int,
>
    decreases n,
{
    if n == 0 || n > variants.len() {
        None
    } else {
        match spec_find_variant(variants, name, (n - 1) as nat) {
            Some(k) => Some(k),
            None => if variants[n - 1].0 == name {
                Some(n - 1)
            } else {
                None
            },
        }
    }
}

/// The variant that an enum value names, with the value of its fields: a
/// bare name carries no fields, a one-entry object maps the name to them.
pub open spec fn spec_enum_target(v: JsonV) -> Option<(Seq<char>, JsonV)> {
    match v {
        JsonV::Str(name) => Some((name, JsonV::Null)),
        JsonV::Object(entries) => if entries.len() == 1 {
            Some(entries[0])
        } else {
            None
        },
        _ => None,
    }
}

/// The zero bytes that pad a content of `used` bytes to `size` bytes.
pub open spec fn zeros(n: nat) -> Seq<u8> {
    Seq::new(n, |i: int| 0u8)
}

/// The bytes of a value of type `t`.
pub open spec fn spec_serialize(t: FullV, v: JsonV) -> BytesResult
    decreases t, 0nat,
{
    match t {
        FullV::Option { prefix_bytes, content } => match v {
            JsonV::Null => spec_prefix(0, prefix_bytes),
            _ => match spec_prefix(1, prefix_bytes) {
                Err(e) => Err(e),
                Ok(p) => match spec_serialize(*content, v) {
                    Err(e) => Err(e),
                    Ok(b) => Ok(p + b),
                },
            },
        },
        FullV::Vec { prefix_bytes, items } => match v {
            JsonV::Array(xs) => match spec_prefix(xs.len(), prefix_bytes) {
                Err(e) => Err(e),
                Ok(p) => match spec_serialize_items(*items, xs, xs.len()) {
                    Err(e) => Err(e),
                    Ok(b) => Ok(p + b),
                },
            },
            _ => Err(ToolboxIdlTransformError::ExpectedArray),
        },
        FullV::Array { items, length } => match v {
            JsonV::Array(xs) => if xs.len() == length {
                spec_serialize_items(*items, xs, xs.len())
            } else {
                Err(ToolboxIdlTransformError::ArrayLengthMismatch)
            },
            _ => Err(ToolboxIdlTransformError::ExpectedArray),
        },
        FullV::Struct { fields } => spec_serialize_fields(fields, v),
        FullV::Enum { prefix_bytes, variants } => match spec_enum_target(v) {
            None => Err(ToolboxIdlTransformError::ExpectedEnum),
            Some((name, fields_value)) => match spec_find_variant(variants, name, variants.len()) {
                None => Err(ToolboxIdlTransformError::UnknownVariant),
                Some(k) => if 0 <= k < variants.len() {
                    match spec_prefix(k as nat, prefix_bytes) {
                        Err(e) => Err(e),
                        Ok(p) => {
                            proof {
                                assert(decreases_to!(t => variants[k].1));
                            }
                            match spec_serialize_fields(variants[k].1, fields_value) {
                                Err(e) => Err(e),
                                Ok(b) => Ok(p + b),
                            }
                        },
                    }
                } else {
                    Err(ToolboxIdlTransformError::UnknownVariant)
                },
            },
        },
        FullV::Padded { size_bytes, content } => match spec_serialize(*content, v) {
            Err(e) => Err(e),
            Ok(b) => if b.len() <= size_bytes {
                Ok(b + zeros((size_bytes - b.len()) as nat))
            } else {
                Err(ToolboxIdlTransformError::PaddingOverflow)
            },
        },
        FullV::Const { .. } => Err(ToolboxIdlTransformError::ConstNotSerializable),
        FullV::Primitive { primitive } => spec_serialize_primitive(primitive, v),
    }
}

/// The bytes of the first `n` values, each of type `t`, one after the other.
pub open spec fn spec_serialize_items(t: FullV, xs: Seq<JsonV>, n: nat) -> BytesResult
    decreases t, n,
{
    if n == 0 || n > xs.len() {
        Ok(Seq::empty())
    } else {
        match spec_serialize_items(t, xs, (n - 1) as nat) {
            Err(e) => Err(e),
            Ok(prev) => match spec_serialize(t, xs[n - 1]) {
                Err(e) => Err(e),
                Ok(b) => Ok(prev + b),
            },
        }
    }
}

/// The bytes of the first `n` named fields, each read from the object.
pub open spec fn spec_serialize_named(
    fields: Seq<(Seq<char>, FullV)>,
    entries: Seq<(Seq<char>, JsonV)>,
    n: nat,
) -> BytesResult
    decreases fields, n,
{
    if n == 0 || n > fields.len() {
        Ok(Seq::empty())
    } else {
        match spec_serialize_named(fields, entries, (n - 1) as nat) {
            Err(e) => Err(e),
            Ok(prev) => match entries_get(entries, fields[n - 1].0) {
                None => Err(ToolboxIdlTransformError::MissingField),
                Some(x) => {
                    proof {
                        assert(decreases_to!(fields => fields[n - 1].1));
                    }
                    match spec_serialize(fields[n - 1].1, x) {
                        Err(e) => Err(e),
                        Ok(b) => Ok(prev + b),
                    }
                },
            },
        }
    }
}

/// The bytes of the first `n` unnamed fields.
pub open spec fn spec_serialize_unnamed(types: Seq<FullV>, xs: Seq<JsonV>, n: nat) -> BytesResult
    decreases types, n,
{
    if n == 0 || n > types.len() || n > xs.len() {
        Ok(Seq::empty())
    } else {
        match spec_serialize_unnamed(types, xs, (n - 1) as nat) {
            Err(e) => Err(e),
            Ok(prev) => match spec_serialize(types[n - 1], xs[n - 1]) {
                Err(e) => Err(e),
                Ok(b) => Ok(prev + b),
            },
        }
    }
}

/// The bytes of a value of some fields: nothing without fields, each named
/// field read from an object, or each unnamed field from an array of the
/// same length.
pub open spec fn spec_serialize_fields(f: FullFieldsV, v: JsonV) -> BytesResult
    decreases f, 0nat,
{
    match f {
        FullFieldsV::Nothing => Ok(Seq::empty()),
        FullFieldsV::Named(fields) => match v {
            JsonV::Object(entries) => spec_serialize_named(fields, entries, fields.len()),
            _ => Err(ToolboxIdlTransformError::ExpectedObject),
        },
        FullFieldsV::Unnamed(types) => match v {
            JsonV::Array(xs) => if xs.len() == types.len() {
                spec_serialize_unnamed(types, xs, types.len())
            } else {
                Err(ToolboxIdlTransformError::ArrayLengthMismatch)
            },
            _ => Err(ToolboxIdlTransformError::ExpectedArray),
        },
    }
}

/// Once encoding values fails, encoding a longer prefix fails the same way.
pub proof fn lemma_serialize_items_err_stable(t: FullV, xs: Seq<JsonV>, i: nat, n: nat)
    requires
        i <= n <= xs.len(),
        spec_serialize_items(t, xs, i) is Err,
    ensures
        spec_serialize_items(t, xs, n) == spec_serialize_items(t, xs, i),
    decreases n - i,
{
    if i < n {
        lemma_serialize_items_err_stable(t, xs, i, (n - 1) as nat);
    }
}

/// Once encoding named fields fails, encoding a longer prefix fails the same way.
pub proof fn lemma_serialize_named_err_stable(
    fields: Seq<(Seq<char>, FullV)>,
    entries: Seq<(Seq<char>, JsonV)>,
    i: nat,
    n: nat,
)
    requires
        i <= n <= fields.len(),
        spec_serialize_named(fields, entries, i) is Err,
    ensures
        spec_serialize_named(fields, entries, n) == spec_serialize_named(fields, entries, i),
    decreases n - i,
{
    if i < n {
        lemma_serialize_named_err_stable(fields, entries, i, (n - 1) as nat);
    }
}

/// Once encoding unnamed fields fails, encoding a longer prefix fails the same way.
pub proof fn lemma_serialize_unnamed_err_stable(types: Seq<FullV>, xs: Seq<JsonV>, i: nat, n: nat)
    requires
        i <= n <= types.len(),
        n <= xs.len(),
        spec_serialize_unnamed(types, xs, i) is Err,
    ensures
        spec_serialize_unnamed(types, xs, n) == spec_serialize_unnamed(types, xs, i),
    decreases n - i,
{
    if i < n {
        lemma_serialize_unnamed_err_stable(types, xs, i, (n - 1) as nat);
    }
}

/// What an encoder that appends to `out` promises: on success the bytes of
/// `spec` were appended, on failure the error is the one of `spec`.
pub open spec fn appended(
    r: Result<(), ToolboxIdlTransformError>,
    spec: BytesResult,
    before: Seq<u8>,
    after: Seq<u8>,
) -> bool {
    match r {
        Ok(_) => spec is Ok && after == before + spec->Ok_0,
        Err(e) => spec == Err::<Seq<u8>, ToolboxIdlTransformError>(e),
    }
}

/// Appends a length or variant index written on `size` bytes.
fn write_prefix(out: &mut Vec<u8>, n: u64, size: u8) -> (r: Result<(), ToolboxIdlTransformError>)
    ensures
        appended(r, spec_prefix(n as nat, size), old(out)@, final(out)@),
{
    if size > 8 {
        return Err(ToolboxIdlTransformError::InvalidPrefixSize);
    }
    proof {
        lemma_pow256_monotone(size as nat, 8);
        lemma_pow256_values();
    }
    let limit: u128 = if size == 8 {
        0x1_0000_0000_0000_0000
    } else {
        pow256_exec(size as usize)
    };
    if (n as u128) >= limit {
        return Err(ToolboxIdlTransformError::PrefixOverflow);
    }
    push_le(out, n as u128, size as usize);
    Ok(())
}

/// The number of bytes that a fixed-size primitive takes.
fn primitive_width_exec(p: &ToolboxIdlTypePrimitive) -> (r: usize)
    ensures
        r == primitive_width(*p),
{
    match p {
        ToolboxIdlTypePrimitive::U8 | ToolboxIdlTypePrimitive::I8 | ToolboxIdlTypePrimitive::Bool => 1,
        ToolboxIdlTypePrimitive::U16 | ToolboxIdlTypePrimitive::I16 => 2,
        ToolboxIdlTypePrimitive::U32 | ToolboxIdlTypePrimitive::I32 | ToolboxIdlTypePrimitive::F32 => 4,
        ToolboxIdlTypePrimitive::U64 | ToolboxIdlTypePrimitive::I64 | ToolboxIdlTypePrimitive::F64 => 8,
        ToolboxIdlTypePrimitive::U128 | ToolboxIdlTypePrimitive::I128 => 16,
        _ => 0,
    }
}

/// Appends bytes one by one.
fn push_all(out: &mut Vec<u8>, bytes: &[u8])
    ensures
        final(out)@ == old(out)@ + bytes@,
{
    let ghost start = out@;
    let mut i: usize = 0;
    while i < bytes.len()
        invariant
            i <= bytes@.len(),
            out@ == start + bytes@.take(i as int),
        decreases bytes@.len() - i,
    {
        out.push(bytes[i]);
        proof {
            assert(bytes@.take(i + 1) =~= bytes@.take(i as int).push(bytes@[i as int]));
        }
        i = i + 1;
    }
    proof {
        assert(bytes@.take(bytes@.len() as int) =~= bytes@);
    }
}

/// Appends the bytes of a primitive value.
fn serialize_primitive(p: &ToolboxIdlTypePrimitive, v: &JsonValue, out: &mut Vec<u8>) -> (r: Result<
    (),
    ToolboxIdlTransformError,
>)
    ensures
        appended(r, spec_serialize_primitive(*p, v@), old(out)@, final(out)@),
{
    proof {
        lemma_pow256_values();
    }
    match p {
        ToolboxIdlTypePrimitive::Bool => match v {
            JsonValue::Bool(b) => {
                let ghost start = out@;
                out.push(
                    if *b {
                        1u8
                    } else {
                        0u8
                    },
                );
                proof {
                    assert(out@ =~= start + seq![
                        if *b {
                            1u8
                        } else {
                            0u8
                        },
                    ]);
                }
                Ok(())
            },
            _ => Err(ToolboxIdlTransformError::ExpectedBool),
        },
        ToolboxIdlTypePrimitive::String => match v {
            JsonValue::Str(s) => {
                let bytes = s.as_str().as_bytes();
                if bytes.len() as u128 >= 0x1_0000_0000 {
                    return Err(ToolboxIdlTransformError::PrefixOverflow);
                }
                let ghost start = out@;
                push_le(out, bytes.len() as u128, 4);
                push_all(out, bytes);
                proof {
                    assert(out@ =~= start + (le_bytes(bytes@.len(), 4) + bytes@));
                }
                Ok(())
            },
            _ => Err(ToolboxIdlTransformError::ExpectedString),
        },
        ToolboxIdlTypePrimitive::PublicKey => match v {
            JsonValue::Str(s) => match pubkey_from_str(s.as_str()) {
                Some(k) => {
                    push_all(out, pubkey_bytes(&k));
                    Ok(())
                },
                None => Err(ToolboxIdlTransformError::InvalidAddress),
            },
            _ => Err(ToolboxIdlTransformError::ExpectedString),
        },
        ToolboxIdlTypePrimitive::F32 => Err(ToolboxIdlTransformError::FloatUnsupported),
        ToolboxIdlTypePrimitive::F64 => match v {
            JsonValue::Number(JsonNumber::Float(bits)) => {
                push_le(out, *bits as u128, 8);
                Ok(())
            },
            JsonValue::Number(_) => Err(ToolboxIdlTransformError::FloatUnsupported),
            _ => Err(ToolboxIdlTransformError::ExpectedNumber),
        },
        _ => {
            let width = primitive_width_exec(p);
            let signed = match p {
                ToolboxIdlTypePrimitive::I8 | ToolboxIdlTypePrimitive::I16
                | ToolboxIdlTypePrimitive::I32 | ToolboxIdlTypePrimitive::I64
                | ToolboxIdlTypePrimitive::I128 => true,
                _ => false,
            };
            let half = half_pow256_exec(width);
            match v {
                JsonValue::Number(JsonNumber::PosInt(n)) => {
                    let fits = if signed {
                        (*n as u128) < half
                    } else {
                        width >= 8 || (*n as u128) < pow256_exec(width)
                    };
                    if !fits {
                        return Err(ToolboxIdlTransformError::NumberOutOfRange);
                    }
                    push_le(out, *n as u128, width);
                    Ok(())
                },
                JsonValue::Number(JsonNumber::NegInt(i)) => {
                    if !signed {
                        return Err(ToolboxIdlTransformError::NumberOutOfRange);
                    }
                    if *i >= 0 {
                        if (*i as u128) >= half {
                            return Err(ToolboxIdlTransformError::NumberOutOfRange);
                        }
                        push_le(out, *i as u128, width);
                        return Ok(());
                    }
                    let magnitude: u128 = ((-(*i + 1)) as u128) + 1;
                    if magnitude > half {
                        return Err(ToolboxIdlTransformError::NumberOutOfRange);
                    }
                    push_le(out, (half - magnitude) + half, width);
                    Ok(())
                },
                JsonValue::Number(_) => Err(ToolboxIdlTransformError::NumberOutOfRange),
                _ => Err(ToolboxIdlTransformError::ExpectedNumber),
            }
        },
    }
}

/// The 32 bytes of a public key.
fn pubkey_bytes(k: &Pubkey) -> (r: &[u8])
    ensures
        r@ == k@,
{
    k.bytes.as_slice()
}

/// Appends the bytes of a value of type `t`.
fn serialize_rec(t: &ToolboxIdlTypeFull, v: &JsonValue, out: &mut Vec<u8>) -> (r: Result<
    (),
    ToolboxIdlTransformError,
>)
    ensures
        appended(r, spec_serialize(full_view(*t), v@), old(out)@, final(out)@),
    decreases t, 1nat,
{
    let ghost start = out@;
    match t {
        ToolboxIdlTypeFull::Option { prefix_bytes, content } => match v {
            JsonValue::Null => write_prefix(out, 0, *prefix_bytes),
            _ => {
                match write_prefix(out, 1, *prefix_bytes) {
                    Ok(_) => {},
                    Err(e) => {
                        return Err(e);
                    },
                }
                let ghost mid = out@;
                let r = serialize_rec(content, v, out);
                proof {
                    if r is Ok {
                        assert(out@ =~= start + (le_bytes(1, *prefix_bytes as nat) + spec_serialize(
                            full_view(**content),
                            v@,
                        )->Ok_0));
                    }
                }
                r
            },
        },
        ToolboxIdlTypeFull::Vec { prefix_bytes, items } => match v {
            JsonValue::Array(xs) => {
                proof {
                    lemma_array_view(*xs);
                }
                match write_prefix(out, xs.len() as u64, *prefix_bytes) {
                    Ok(_) => {},
                    Err(e) => {
                        return Err(e);
                    },
                }
                let r = serialize_items(items, xs, out);
                proof {
                    if r is Ok {
                        assert(out@ =~= start + (le_bytes(xs@.len(), *prefix_bytes as nat)
                            + spec_serialize_items(
                            full_view(**items),
                            json_seq_view(xs@),
                            xs@.len(),
                        )->Ok_0));
                    }
                }
                r
            },
            _ => Err(ToolboxIdlTransformError::ExpectedArray),
        },
        ToolboxIdlTypeFull::Array { items, length } => match v {
            JsonValue::Array(xs) => {
                proof {
                    lemma_array_view(*xs);
                }
                if xs.len() as u64 != *length {
                    return Err(ToolboxIdlTransformError::ArrayLengthMismatch);
                }
                serialize_items(items, xs, out)
            },
            _ => Err(ToolboxIdlTransformError::ExpectedArray),
        },
        ToolboxIdlTypeFull::Struct { fields } => serialize_fields_rec(fields, v, out),
        ToolboxIdlTypeFull::Enum { .. } => serialize_enum(t, v, out),
        ToolboxIdlTypeFull::Padded { .. } => serialize_padded(t, v, out),
        ToolboxIdlTypeFull::Const { .. } => Err(ToolboxIdlTransformError::ConstNotSerializable),
        ToolboxIdlTypeFull::Primitive { primitive } => serialize_primitive(primitive, v, out),
    }
}

/// The position of the first variant named `name`.
fn find_variant(variants: &Vec<(String, ToolboxIdlTypeFullFields)>, name: &str) -> (r: Option<usize>)
    ensures
        match r {
            Some(k) => k < variants@.len() && spec_find_variant(
                variants_full_seq_view(variants@),
                name@,
                variants@.len(),
            ) == Some(k as int),
            None => spec_find_variant(variants_full_seq_view(variants@), name@, variants@.len())
                is None,
        },
{
    let ghost vs = variants_full_seq_view(variants@);
    let mut k: usize = 0;
    while k < variants.len()
        invariant
            k <= variants.len(),
            vs == variants_full_seq_view(variants@),
            spec_find_variant(vs, name@, k as nat) is None,
        decreases variants.len() - k,
    {
        if str_eq(variants[k].0.as_str(), name) {
            proof {
                lemma_find_variant_stable(vs, name@, (k + 1) as nat, vs.len());
            }
            return Some(k);
        }
        k = k + 1;
    }
    None
}

/// Appends the bytes of an enum value: the variant's index, then its fields.
fn serialize_enum(t: &ToolboxIdlTypeFull, v: &JsonValue, out: &mut Vec<u8>) -> (r: Result<
    (),
    ToolboxIdlTransformError,
>)
    requires
        *t is Enum,
    ensures
        appended(r, spec_serialize(full_view(*t), v@), old(out)@, final(out)@),
    decreases t, 0nat,
{
    let ghost start = out@;
    let (prefix_bytes, variants) = match t {
        ToolboxIdlTypeFull::Enum { prefix_bytes, variants } => (prefix_bytes, variants),
        _ => {
            return Err(ToolboxIdlTransformError::ExpectedEnum);
        },
    };
    let null = JsonValue::Null;
    let (name, fields_value): (&str, &JsonValue) = match v {
        JsonValue::Str(name) => (name.as_str(), &null),
        JsonValue::Object(entries) => {
            proof {
                lemma_object_view(*entries);
            }
            if entries.len() != 1 {
                return Err(ToolboxIdlTransformError::ExpectedEnum);
            }
            (entries[0].0.as_str(), &entries[0].1)
        },
        _ => {
            return Err(ToolboxIdlTransformError::ExpectedEnum);
        },
    };
    let ghost vs = full_view(*t)->Enum_variants;
    proof {
        assert(spec_enum_target(v@) == Some((name@, fields_value@)));
        assert(vs =~= variants_full_seq_view(variants@));
    }
    let k = match find_variant(variants, name) {
        Some(k) => k,
        None => {
            return Err(ToolboxIdlTransformError::UnknownVariant);
        },
    };
    match write_prefix(out, k as u64, *prefix_bytes) {
        Ok(_) => {},
        Err(e) => {
            return Err(e);
        },
    }
    proof {
        assert(decreases_to!(*t => (*t)->Enum_variants@[k as int].1));
        assert(vs[k as int].1 == full_fields_view(variants@[k as int].1));
    }
    let r = serialize_fields_rec(&variants[k].1, fields_value, out);
    proof {
        if r is Ok {
            assert(out@ =~= start + (le_bytes(k as nat, *prefix_bytes as nat)
                + spec_serialize_fields(vs[k as int].1, fields_value@)->Ok_0));
        }
    }
    r
}

/// Appends the bytes of a padded content, then zeros up to the size.
fn serialize_padded(t: &ToolboxIdlTypeFull, v: &JsonValue, out: &mut Vec<u8>) -> (r: Result<
    (),
    ToolboxIdlTransformError,
>)
    requires
        *t is Padded,
    ensures
        appended(r, spec_serialize(full_view(*t), v@), old(out)@, final(out)@),
    decreases t, 0nat,
{
    let ghost start = out@;
    let (size_bytes, content) = match t {
        ToolboxIdlTypeFull::Padded { size_bytes, content } => (size_bytes, content),
        _ => {
            return Err(ToolboxIdlTransformError::PaddingOverflow);
        },
    };
    let used_before = out.len();
    match serialize_rec(content, v, out) {
        Ok(_) => {},
        Err(e) => {
            return Err(e);
        },
    }
    let ghost c = spec_serialize(full_view(**content), v@)->Ok_0;
    let used = out.len() - used_before;
    if used as u64 > *size_bytes {
        return Err(ToolboxIdlTransformError::PaddingOverflow);
    }
    let padding: u64 = *size_bytes - used as u64;
    let ghost mid = out@;
    let mut i: u64 = 0;
    while i < padding
        invariant
            i <= padding,
            out@ == mid + zeros(i as nat),
        decreases padding - i,
    {
        out.push(0u8);
        proof {
            assert(zeros((i + 1) as nat) =~= zeros(i as nat).push(0u8));
        }
        i = i + 1;
    }
    proof {
        assert(out@ =~= start + (c + zeros(padding as nat)));
    }
    Ok(())
}

/// Once the first variant of a name lies among the first `i`, looking further finds it again.
pub proof fn lemma_find_variant_stable(
    variants: Seq<(Seq<char>, FullFieldsV)>,
    name: Seq<char>,
    i: nat,
    n: nat,
)
    requires
        i <= n <= variants.len(),
        spec_find_variant(variants, name, i) is Some,
    ensures
        spec_find_variant(variants, name, n) == spec_find_variant(variants, name, i),
    decreases n - i,
{
    if i < n {
        lemma_find_variant_stable(variants, name, i, (n - 1) as nat);
    }
}

/// Appends the bytes of values of type `t`, one after the other.
fn serialize_items(t: &ToolboxIdlTypeFull, xs: &Vec<JsonValue>, out: &mut Vec<u8>) -> (r: Result<
    (),
    ToolboxIdlTransformError,
>)
    ensures
        appended(
            r,
            spec_serialize_items(full_view(*t), json_seq_view(xs@), xs@.len()),
            old(out)@,
            final(out)@,
        ),
    decreases t, 2nat,
{
    let ghost start = out@;
    let ghost tv = full_view(*t);
    let ghost ys = json_seq_view(xs@);
    let mut i: usize = 0;
    while i < xs.len()
        invariant
            i <= xs.len(),
            tv == full_view(*t),
            ys == json_seq_view(xs@),
            ys.len() == xs@.len(),
            spec_serialize_items(tv, ys, i as nat) is Ok,
            out@ == start + spec_serialize_items(tv, ys, i as nat)->Ok_0,
        decreases xs.len() - i,
    {
        let ghost mid = out@;
        match serialize_rec(t, &xs[i], out) {
            Ok(_) => {
                proof {
                    assert(out@ =~= start + spec_serialize_items(tv, ys, (i + 1) as nat)->Ok_0);
                }
            },
            Err(e) => {
                proof {
                    lemma_serialize_items_err_stable(tv, ys, (i + 1) as nat, ys.len());
                }
                return Err(e);
            },
        }
        i = i + 1;
    }
    Ok(())
}

/// Appends the bytes of a value of some fields.
fn serialize_fields_rec(f: &ToolboxIdlTypeFullFields, v: &JsonValue, out: &mut Vec<u8>) -> (r: Result<
    (),
    ToolboxIdlTransformError,
>)
    ensures
        appended(r, spec_serialize_fields(full_fields_view(*f), v@), old(out)@, final(out)@),
    decreases f, 0nat,
{
    let ghost start = out@;
    match f {
        ToolboxIdlTypeFullFields::Nothing => {
            proof {
                assert(out@ =~= start + Seq::<u8>::empty());
            }
            Ok(())
        },
        ToolboxIdlTypeFullFields::Named(fields) => {
            let entries = match v {
                JsonValue::Object(entries) => entries,
                _ => {
                    return Err(ToolboxIdlTransformError::ExpectedObject);
                },
            };
            proof {
                lemma_object_view(*entries);
            }
            let ghost fs = full_fields_view(*f)->Named_0;
            let ghost es = json_entries_view(entries@);
            let mut i: usize = 0;
            while i < fields.len()
                invariant
                    i <= fields.len(),
                    *f == ToolboxIdlTypeFullFields::Named(*fields),
                    fs == full_fields_view(*f)->Named_0,
                    fs.len() == fields@.len(),
                    es == json_entries_view(entries@),
                    v@ == JsonV::Object(es),
                    spec_serialize_named(fs, es, i as nat) is Ok,
                    out@ == start + spec_serialize_named(fs, es, i as nat)->Ok_0,
                decreases fields.len() - i,
            {
                proof {
                    assert(fs[i as int].0 == fields@[i as int].0@);
                    assert(fs[i as int].1 == full_view(fields@[i as int].1));
                    assert(decreases_to!(*f => (*f)->Named_0@[i as int].1));
                }
                let x = match object_get(entries, fields[i].0.as_str()) {
                    Some(x) => x,
                    None => {
                        proof {
                            lemma_serialize_named_err_stable(fs, es, (i + 1) as nat, fs.len());
                        }
                        return Err(ToolboxIdlTransformError::MissingField);
                    },
                };
                match serialize_rec(&fields[i].1, x, out) {
                    Ok(_) => {
                        proof {
                            assert(out@ =~= start + spec_serialize_named(
                                fs,
                                es,
                                (i + 1) as nat,
                            )->Ok_0);
                        }
                    },
                    Err(e) => {
                        proof {
                            lemma_serialize_named_err_stable(fs, es, (i + 1) as nat, fs.len());
                        }
                        return Err(e);
                    },
                }
                i = i + 1;
            }
            Ok(())
        },
        ToolboxIdlTypeFullFields::Unnamed(types) => {
            let xs = match v {
                JsonValue::Array(xs) => xs,
                _ => {
                    return Err(ToolboxIdlTransformError::ExpectedArray);
                },
            };
            proof {
                lemma_array_view(*xs);
            }
            if xs.len() != types.len() {
                return Err(ToolboxIdlTransformError::ArrayLengthMismatch);
            }
            let ghost ts = full_fields_view(*f)->Unnamed_0;
            let ghost ys = json_seq_view(xs@);
            let mut i: usize = 0;
            while i < types.len()
                invariant
                    i <= types.len(),
                    xs@.len() == types@.len(),
                    *f == ToolboxIdlTypeFullFields::Unnamed(*types),
                    ts == full_fields_view(*f)->Unnamed_0,
                    ts.len() == types@.len(),
                    ys == json_seq_view(xs@),
                    ys.len() == xs@.len(),
                    v@ == JsonV::Array(ys),
                    spec_serialize_unnamed(ts, ys, i as nat) is Ok,
                    out@ == start + spec_serialize_unnamed(ts, ys, i as nat)->Ok_0,
                decreases types.len() - i,
            {
                proof {
                    assert(ts[i as int] == full_view(types@[i as int]));
                    assert(decreases_to!(*f => (*f)->Unnamed_0@[i as int]));
                }
                match serialize_rec(&types[i], &xs[i], out) {
                    Ok(_) => {
                        proof {
                            assert(out@ =~= start + spec_serialize_unnamed(
                                ts,
                                ys,
                                (i + 1) as nat,
                            )->Ok_0);
                        }
                    },
                    Err(e) => {
                        proof {
                            lemma_serialize_unnamed_err_stable(ts, ys, (i + 1) as nat, ts.len());
                        }
                        return Err(e);
                    },
                }
                i = i + 1;
            }
            Ok(())
        },
    }
}

impl ToolboxIdlTypeFull {
    /// Encodes a JSON value of this type into bytes.
    pub fn try_serialize(&self, value: &JsonValue) -> (r: Result<Vec<u8>, ToolboxIdlTransformError>)
        ensures
            match r {
                Ok(bytes) => spec_serialize(full_view(*self), value@) == Ok::<
                    Seq<u8>,
                    ToolboxIdlTransformError,
                >(bytes@),
                Err(e) => spec_serialize(full_view(*self), value@) == Err::<
                    Seq<u8>,
                    ToolboxIdlTransformError,
                >(e),
            },
    {
        let mut out: Vec<u8> = Vec::new();
        match serialize_rec(self, value, &mut out) {
            Ok(_) => {
                proof {
                    assert(out@ =~= spec_serialize(full_view(*self), value@)->Ok_0);
                }
                Ok(out)
            },
            Err(e) => Err(e),
        }
    }
}

impl ToolboxIdlTypeFullFields {
    /// Encodes a JSON value of these fields into bytes, appended to `data`.
    pub fn try_serialize(&self, value: &JsonValue, data: &mut Vec<u8>) -> (r: Result<
        (),
        ToolboxIdlTransformError,
    >)
        ensures
            appended(r, spec_serialize_fields(full_fields_view(*self), value@), old(data)@, final(data)@),
    {
        serialize_fields_rec(self, value, data)
    }
}

} // verus!
