//! Decoding what was encoded gives the value back, for every value in the
//! shape that decoding produces.
use vstd::prelude::*;

use crate::endpoint::{pubkey_from_base58, pubkey_to_base58};
use crate::idl_bytes::{
    le_bytes,
    le_value,
    lemma_le_roundtrip,
    lemma_pow256_positive,
    lemma_pow256_values,
    pow256,
};
use crate::idl_type_full::{FullFieldsV, FullV};
use crate::idl_type_full_deserialize::{
    f64_bits_not_finite,
    json_integer,
    spec_deserialize,
    spec_deserialize_fields,
    spec_deserialize_items,
    spec_deserialize_named,
    spec_deserialize_primitive,
    spec_deserialize_unnamed,
    spec_read,
    spec_read_prefix,
};
use crate::idl_type_full_serialize::{
    is_signed,
    primitive_width,
    spec_enum_target,
    spec_find_variant,
    spec_prefix,
    spec_serialize,
    spec_serialize_fields,
    spec_serialize_items,
    spec_serialize_named,
    spec_serialize_primitive,
    spec_serialize_unnamed,
    zeros,
};
use crate::idl_type_primitive::ToolboxIdlTypePrimitive;
use crate::json::{entries_find, entries_find_from, entries_get, entries_insert, JsonNumber, JsonV};
use vstd::utf8::{decode_utf8, encode_utf8, encode_utf8_decode_utf8, encode_utf8_valid_utf8, valid_utf8};

verus! {

/// Whether a primitive value is in the form that decoding gives: negative
/// numbers only as negative integers, `f64` values finite, public keys in
/// their base-58 spelling.
pub open spec fn spec_canonical_primitive(p: ToolboxIdlTypePrimitive, v: JsonV) -> bool {
    &&& is_signed(p) ==> !(v matches JsonV::Number(JsonNumber::NegInt(i)) && i >= 0)
    &&& p == ToolboxIdlTypePrimitive::F64 ==> (v matches JsonV::Number(JsonNumber::Float(bits))
        ==> !f64_bits_not_finite(bits as nat))
    &&& p == ToolboxIdlTypePrimitive::PublicKey ==> (v matches JsonV::Str(s) ==> (pubkey_from_base58(
        s,
    ) matches Some(k) ==> pubkey_to_base58(k) == s))
}

/// Whether no two fields share a name.
pub open spec fn distinct_names(fields: Seq<(Seq<char>, FullV)>) -> bool {
    forall|i: int, j: int| 0 <= i < j < fields.len() ==> fields[i].0 != fields[j].0
}

/// Whether a value of type `t` is in the form that decoding gives: an
/// option's value is null or its content's, an enum's value is the bare
/// name of a variant without fields or a one-entry object otherwise, an
/// object of named fields holds exactly the fields in order.
pub open spec fn spec_canonical(t: FullV, v: JsonV) -> bool
    decreases t, 0nat,
{
    match t {
        FullV::Option { content, .. } => v is Null || spec_canonical(*content, v),
        FullV::Vec { items, .. } => v matches JsonV::Array(xs) && spec_canonical_items(
            *items,
            xs,
            xs.len(),
        ),
        FullV::Array { items, .. } => v matches JsonV::Array(xs) && spec_canonical_items(
            *items,
            xs,
            xs.len(),
        ),
        FullV::Struct { fields } => spec_canonical_fields(fields, v),
        FullV::Enum { variants, .. } => match spec_enum_target(v) {
            None => false,
            Some((name, fields_value)) => match spec_find_variant(variants, name, variants.len()) {
                None => false,
                Some(k) => if 0 <= k < variants.len() {
                    proof {
                        assert(decreases_to!(t => variants[k].1));
                    }
                    if variants[k].1 is Nothing {
                        v is Str
                    } else {
                        v is Object && spec_canonical_fields(variants[k].1, fields_value)
                    }
                } else {
                    false
                },
            },
        },
        FullV::Padded { content, .. } => spec_canonical(*content, v),
        FullV::Const { .. } => true,
        FullV::Primitive { primitive } => spec_canonical_primitive(primitive, v),
    }
}

/// Whether the first `n` values are canonical for `t`.
pub open spec fn spec_canonical_items(t: FullV, xs: Seq<JsonV>, n: nat) -> bool
    decreases t, n,
{
    if n == 0 || n > xs.len() {
        true
    } else {
        spec_canonical_items(t, xs, (n - 1) as nat) && spec_canonical(t, xs[n - 1])
    }
}

/// Whether the first `n` entries are the first `n` named fields, in order,
/// each with a canonical value.
pub open spec fn spec_canonical_named(
    fields: Seq<(Seq<char>, FullV)>,
    entries: Seq<(Seq<char>, JsonV)>,
    n: nat,
) -> bool
    decreases fields, n,
{
    if n == 0 || n > fields.len() || n > entries.len() {
        true
    } else {
        proof {
            assert(decreases_to!(fields => fields[n - 1].1));
        }
        spec_canonical_named(fields, entries, (n - 1) as nat) && entries[n - 1].0 == fields[n
            - 1].0 && spec_canonical(fields[n - 1].1, entries[n - 1].1)
    }
}

/// Whether the first `n` values are canonical for the unnamed fields.
pub open spec fn spec_canonical_unnamed(types: Seq<FullV>, xs: Seq<JsonV>, n: nat) -> bool
    decreases types, n,
{
    if n == 0 || n > types.len() || n > xs.len() {
        true
    } else {
        spec_canonical_unnamed(types, xs, (n - 1) as nat) && spec_canonical(types[n - 1], xs[n - 1])
    }
}

/// Whether a value of some fields is canonical: null without fields, an
/// object of exactly the named fields (their names distinct), an array of
/// the unnamed ones.
pub open spec fn spec_canonical_fields(f: FullFieldsV, v: JsonV) -> bool
    decreases f, 0nat,
{
    match f {
        FullFieldsV::Nothing => v is Null,
        FullFieldsV::Named(fields) => v matches JsonV::Object(entries) && entries.len()
            == fields.len() && distinct_names(fields) && spec_canonical_named(
            fields,
            entries,
            fields.len(),
        ),
        FullFieldsV::Unnamed(types) => v matches JsonV::Array(xs) && xs.len() == types.len()
            && spec_canonical_unnamed(types, xs, types.len()),
    }
}

/// Bytes placed between others are read back where they were placed.
pub proof fn lemma_read_placed(before: Seq<u8>, mid: Seq<u8>, after: Seq<u8>)
    ensures
        (before + mid + after).subrange(before.len() as int, (before.len() + mid.len()) as int) == mid,
        spec_read(before + mid + after, before.len(), mid.len()) == Some(le_value(mid)),
{
    assert((before + mid + after).subrange(before.len() as int, (before.len() + mid.len()) as int) =~= mid);
}

/// The first entry under a key is found where it stands.
pub proof fn lemma_entries_find_at(entries: Seq<(Seq<char>, JsonV)>, key: Seq<char>, i: int, start: int)
    requires
        0 <= start <= i < entries.len(),
        entries[i].0 == key,
        forall|j: int| 0 <= j < i ==> entries[j].0 != key,
    ensures
        entries_find_from(entries, key, start) == Some(i),
    decreases i - start,
{
    if start < i {
        lemma_entries_find_at(entries, key, i, start + 1);
    }
}

/// A key that no entry holds is not found.
pub proof fn lemma_entries_find_none(entries: Seq<(Seq<char>, JsonV)>, key: Seq<char>, start: int)
    requires
        0 <= start,
        forall|j: int| 0 <= j < entries.len() ==> entries[j].0 != key,
    ensures
        entries_find_from(entries, key, start) is None,
    decreases entries.len() - start,
{
    if start < entries.len() {
        lemma_entries_find_none(entries, key, start + 1);
    }
}

/// The first variant found under a name has that name.
pub proof fn lemma_find_variant(variants: Seq<(Seq<char>, FullFieldsV)>, name: Seq<char>, n: nat)
    ensures
        spec_find_variant(variants, name, n) matches Some(k) ==> 0 <= k < n && k < variants.len()
            && variants[k].0 == name,
    decreases n,
{
    if n > 0 {
        lemma_find_variant(variants, name, (n - 1) as nat);
    }
}

/// A prefix written and read back.
pub proof fn lemma_prefix_roundtrip(n: nat, size: u8, before: Seq<u8>, after: Seq<u8>)
    requires
        spec_prefix(n, size) is Ok,
    ensures
        spec_prefix(n, size) == Ok::<Seq<u8>, crate::idl_transform_error::ToolboxIdlTransformError>(
            le_bytes(n, size as nat),
        ),
        le_bytes(n, size as nat).len() == size,
        spec_read_prefix(before + le_bytes(n, size as nat) + after, before.len(), size) == Ok::<
            nat,
            crate::idl_transform_error::ToolboxIdlTransformError,
        >(n),
{
    lemma_le_roundtrip(n, size as nat);
    lemma_read_placed(before, le_bytes(n, size as nat), after);
}

/// A primitive value written and read back.
pub proof fn lemma_primitive_roundtrip(
    p: ToolboxIdlTypePrimitive,
    v: JsonV,
    before: Seq<u8>,
    after: Seq<u8>,
)
    requires
        spec_canonical_primitive(p, v),
        spec_serialize_primitive(p, v) is Ok,
    ensures
        spec_deserialize_primitive(
            p,
            before + spec_serialize_primitive(p, v)->Ok_0 + after,
            before.len(),
        ) == Ok::<(nat, JsonV), crate::idl_transform_error::ToolboxIdlTransformError>(
            (spec_serialize_primitive(p, v)->Ok_0.len(), v),
        ),
{
    let b = spec_serialize_primitive(p, v)->Ok_0;
    let bytes = before + b + after;
    lemma_read_placed(before, b, after);
    lemma_pow256_values();
    match p {
        ToolboxIdlTypePrimitive::Bool => {
            assert(le_value(b) == b[0]) by {
                assert(b.len() == 1);
                assert(b.drop_first() =~= Seq::<u8>::empty());
                assert(le_value(b.drop_first()) == 0);
            }
        },
        ToolboxIdlTypePrimitive::String => {
            let s = v->Str_0;
            let u = encode_utf8(s);
            let l = le_bytes(u.len(), 4);
            lemma_le_roundtrip(u.len(), 4);
            assert(b == l + u);
            lemma_read_placed(before, l, u + after);
            assert(before + l + (u + after) =~= bytes);
            lemma_read_placed(before + l, u, after);
            assert(before + l + u + after =~= bytes);
            encode_utf8_valid_utf8(s);
            encode_utf8_decode_utf8(s);
        },
        ToolboxIdlTypePrimitive::PublicKey => {},
        ToolboxIdlTypePrimitive::F32 => {},
        ToolboxIdlTypePrimitive::F64 => {
            let bits = v->Number_0->Float_0;
            lemma_le_roundtrip(bits as nat, 8);
        },
        _ => {
            let width = primitive_width(p);
            lemma_pow256_positive(width);
            match v {
                JsonV::Number(JsonNumber::PosInt(n)) => {
                    lemma_le_roundtrip(n as nat, width);
                },
                JsonV::Number(JsonNumber::NegInt(i)) => {
                    if is_signed(p) {
                        lemma_le_roundtrip((pow256(width) + i) as nat, width);
                    }
                },
                _ => {},
            }
        },
    }
}

/// The entries of a canonical object hold the fields' names in order.
pub proof fn lemma_canonical_named_keys(
    fields: Seq<(Seq<char>, FullV)>,
    entries: Seq<(Seq<char>, JsonV)>,
    n: nat,
)
    requires
        n <= fields.len(),
        n <= entries.len(),
        spec_canonical_named(fields, entries, n),
    ensures
        forall|j: int| 0 <= j < n ==> #[trigger] entries[j].0 == fields[j].0,
    decreases n,
{
    if n > 0 {
        lemma_canonical_named_keys(fields, entries, (n - 1) as nat);
    }
}

/// The statement of the law below, for one type and value.
pub open spec fn spec_roundtrips(t: FullV, v: JsonV, before: Seq<u8>, after: Seq<u8>) -> bool {
    spec_deserialize(t, before + spec_serialize(t, v)->Ok_0 + after, before.len()) == Ok::<
        (nat, JsonV),
        crate::idl_transform_error::ToolboxIdlTransformError,
    >((spec_serialize(t, v)->Ok_0.len(), v))
}

/// Law: decoding the bytes that a canonical value of type `t` encodes to
/// gives the value back, having read exactly those bytes, whatever bytes
/// come before and after them.
pub proof fn law_deserialize_serialize(t: FullV, v: JsonV, before: Seq<u8>, after: Seq<u8>)
    requires
        spec_canonical(t, v),
        spec_serialize(t, v) is Ok,
    ensures
        spec_deserialize(t, before + spec_serialize(t, v)->Ok_0 + after, before.len()) == Ok::<
            (nat, JsonV),
            crate::idl_transform_error::ToolboxIdlTransformError,
        >((spec_serialize(t, v)->Ok_0.len(), v)),
    decreases t, 1nat,
{
    match t {
        FullV::Option { .. } => lemma_option_roundtrip(t, v, before, after),
        FullV::Vec { .. } => lemma_vec_roundtrip(t, v, before, after),
        FullV::Array { items, .. } => {
            let xs = v->Array_0;
            lemma_items_roundtrip(*items, xs, xs.len(), before, after);
            assert(xs.take(xs.len() as int) =~= xs);
        },
        FullV::Struct { fields } => lemma_fields_roundtrip(fields, v, before, after),
        FullV::Enum { .. } => lemma_enum_roundtrip(t, v, before, after),
        FullV::Padded { .. } => lemma_padded_roundtrip(t, v, before, after),
        FullV::Const { .. } => {},
        FullV::Primitive { primitive } => lemma_primitive_roundtrip(primitive, v, before, after),
    }
}

/// The law for options.
proof fn lemma_option_roundtrip(t: FullV, v: JsonV, before: Seq<u8>, after: Seq<u8>)
    requires
        t is Option,
        spec_canonical(t, v),
        spec_serialize(t, v) is Ok,
    ensures
        spec_roundtrips(t, v, before, after),
    decreases t, 0nat,
{
    let prefix_bytes = t->Option_prefix_bytes;
    let content = *t->Option_content;
    let b = spec_serialize(t, v)->Ok_0;
    let bytes = before + b + after;
    if v is Null {
        lemma_prefix_roundtrip(0, prefix_bytes, before, after);
    } else {
        let pb = le_bytes(1, prefix_bytes as nat);
        let c = spec_serialize(content, v)->Ok_0;
        lemma_prefix_roundtrip(1, prefix_bytes, before, c + after);
        assert(before + pb + (c + after) =~= bytes);
        law_deserialize_serialize(content, v, before + pb, after);
        assert(before + pb + c + after =~= bytes);
    }
}

/// The law for vectors.
proof fn lemma_vec_roundtrip(t: FullV, v: JsonV, before: Seq<u8>, after: Seq<u8>)
    requires
        t is Vec,
        spec_canonical(t, v),
        spec_serialize(t, v) is Ok,
    ensures
        spec_roundtrips(t, v, before, after),
    decreases t, 0nat,
{
    let prefix_bytes = t->Vec_prefix_bytes;
    let items = *t->Vec_items;
    let b = spec_serialize(t, v)->Ok_0;
    let bytes = before + b + after;
    let xs = v->Array_0;
    let pb = le_bytes(xs.len(), prefix_bytes as nat);
    let c = spec_serialize_items(items, xs, xs.len())->Ok_0;
    lemma_prefix_roundtrip(xs.len(), prefix_bytes, before, c + after);
    assert(before + pb + (c + after) =~= bytes);
    lemma_items_roundtrip(items, xs, xs.len(), before + pb, after);
    assert(before + pb + c + after =~= bytes);
    assert(xs.take(xs.len() as int) =~= xs);
}

/// The law for enums.
proof fn lemma_enum_roundtrip(t: FullV, v: JsonV, before: Seq<u8>, after: Seq<u8>)
    requires
        t is Enum,
        spec_canonical(t, v),
        spec_serialize(t, v) is Ok,
    ensures
        spec_roundtrips(t, v, before, after),
    decreases t, 0nat,
{
    let prefix_bytes = t->Enum_prefix_bytes;
    let variants = t->Enum_variants;
    let b = spec_serialize(t, v)->Ok_0;
    let bytes = before + b + after;
    let (name, fields_value) = spec_enum_target(v)->Some_0;
    let k = spec_find_variant(variants, name, variants.len())->Some_0;
    lemma_find_variant(variants, name, variants.len());
    let pb = le_bytes(k as nat, prefix_bytes as nat);
    let c = spec_serialize_fields(variants[k].1, fields_value)->Ok_0;
    lemma_prefix_roundtrip(k as nat, prefix_bytes, before, c + after);
    assert(before + pb + (c + after) =~= bytes);
    assert(decreases_to!(t => variants[k].1));
    lemma_fields_roundtrip(variants[k].1, fields_value, before + pb, after);
    assert(before + pb + c + after =~= bytes);
    if !(variants[k].1 is Nothing) {
        assert(v->Object_0 =~= seq![(name, fields_value)]);
    }
}

/// The law for padded contents.
proof fn lemma_padded_roundtrip(t: FullV, v: JsonV, before: Seq<u8>, after: Seq<u8>)
    requires
        t is Padded,
        spec_canonical(t, v),
        spec_serialize(t, v) is Ok,
    ensures
        spec_roundtrips(t, v, before, after),
    decreases t, 0nat,
{
    let size_bytes = t->Padded_size_bytes;
    let content = *t->Padded_content;
    let b = spec_serialize(t, v)->Ok_0;
    let bytes = before + b + after;
    let c = spec_serialize(content, v)->Ok_0;
    let z = zeros((size_bytes - c.len()) as nat);
    law_deserialize_serialize(content, v, before, z + after);
    assert(before + c + (z + after) =~= bytes);
}

/// Values of one type written one after the other and read back.
pub proof fn lemma_items_roundtrip(t: FullV, xs: Seq<JsonV>, n: nat, before: Seq<u8>, after: Seq<u8>)
    requires
        n <= xs.len(),
        spec_canonical_items(t, xs, n),
        spec_serialize_items(t, xs, n) is Ok,
    ensures
        spec_deserialize_items(
            t,
            before + spec_serialize_items(t, xs, n)->Ok_0 + after,
            before.len(),
            n,
        ) == Ok::<(nat, Seq<JsonV>), crate::idl_transform_error::ToolboxIdlTransformError>(
            (spec_serialize_items(t, xs, n)->Ok_0.len(), xs.take(n as int)),
        ),
    decreases t, n + 1,
{
    let b = spec_serialize_items(t, xs, n)->Ok_0;
    if n == 0 {
        assert(xs.take(0) =~= Seq::<JsonV>::empty());
    } else {
        let b1 = spec_serialize_items(t, xs, (n - 1) as nat)->Ok_0;
        let b2 = spec_serialize(t, xs[n - 1])->Ok_0;
        lemma_items_roundtrip(t, xs, (n - 1) as nat, before, b2 + after);
        assert(before + b1 + (b2 + after) =~= before + b + after);
        law_deserialize_serialize(t, xs[n - 1], before + b1, after);
        assert(before + b1 + b2 + after =~= before + b + after);
        assert(xs.take(n - 1).push(xs[n - 1]) =~= xs.take(n as int));
    }
}

/// Named fields written in order and read back into the same object.
pub proof fn lemma_named_roundtrip(
    fields: Seq<(Seq<char>, FullV)>,
    entries: Seq<(Seq<char>, JsonV)>,
    n: nat,
    before: Seq<u8>,
    after: Seq<u8>,
)
    requires
        n <= fields.len(),
        entries.len() == fields.len(),
        distinct_names(fields),
        spec_canonical_named(fields, entries, n),
        spec_serialize_named(fields, entries, n) is Ok,
    ensures
        spec_deserialize_named(
            fields,
            before + spec_serialize_named(fields, entries, n)->Ok_0 + after,
            before.len(),
            n,
        ) == Ok::<
            (nat, Seq<(Seq<char>, JsonV)>),
            crate::idl_transform_error::ToolboxIdlTransformError,
        >((spec_serialize_named(fields, entries, n)->Ok_0.len(), entries.take(n as int))),
    decreases fields, n,
{
    let b = spec_serialize_named(fields, entries, n)->Ok_0;
    if n == 0 {
        assert(entries.take(0) =~= Seq::<(Seq<char>, JsonV)>::empty());
    } else {
        let key = fields[n - 1].0;
        lemma_canonical_named_keys(fields, entries, n);
        lemma_entries_find_at(entries, key, n - 1, 0);
        assert(entries_get(entries, key) == Some(entries[n - 1].1));
        let b1 = spec_serialize_named(fields, entries, (n - 1) as nat)->Ok_0;
        let b2 = spec_serialize(fields[n - 1].1, entries[n - 1].1)->Ok_0;
        lemma_named_roundtrip(fields, entries, (n - 1) as nat, before, b2 + after);
        assert(before + b1 + (b2 + after) =~= before + b + after);
        assert(decreases_to!(fields => fields[n - 1].1));
        law_deserialize_serialize(fields[n - 1].1, entries[n - 1].1, before + b1, after);
        assert(before + b1 + b2 + after =~= before + b + after);
        let prefix = entries.take(n - 1);
        assert forall|j: int| 0 <= j < prefix.len() implies prefix[j].0 != key by {
            assert(entries[j].0 == fields[j].0);
        }
        lemma_entries_find_none(prefix, key, 0);
        assert(entries_insert(prefix, key, entries[n - 1].1) =~= entries.take(n as int));
    }
}

/// Unnamed fields written in order and read back.
pub proof fn lemma_unnamed_roundtrip(
    types: Seq<FullV>,
    xs: Seq<JsonV>,
    n: nat,
    before: Seq<u8>,
    after: Seq<u8>,
)
    requires
        n <= types.len(),
        xs.len() == types.len(),
        spec_canonical_unnamed(types, xs, n),
        spec_serialize_unnamed(types, xs, n) is Ok,
    ensures
        spec_deserialize_unnamed(
            types,
            before + spec_serialize_unnamed(types, xs, n)->Ok_0 + after,
            before.len(),
            n,
        ) == Ok::<(nat, Seq<JsonV>), crate::idl_transform_error::ToolboxIdlTransformError>(
            (spec_serialize_unnamed(types, xs, n)->Ok_0.len(), xs.take(n as int)),
        ),
    decreases types, n,
{
    let b = spec_serialize_unnamed(types, xs, n)->Ok_0;
    if n == 0 {
        assert(xs.take(0) =~= Seq::<JsonV>::empty());
    } else {
        let b1 = spec_serialize_unnamed(types, xs, (n - 1) as nat)->Ok_0;
        let b2 = spec_serialize(types[n - 1], xs[n - 1])->Ok_0;
        lemma_unnamed_roundtrip(types, xs, (n - 1) as nat, before, b2 + after);
        assert(before + b1 + (b2 + after) =~= before + b + after);
        law_deserialize_serialize(types[n - 1], xs[n - 1], before + b1, after);
        assert(before + b1 + b2 + after =~= before + b + after);
        assert(xs.take(n - 1).push(xs[n - 1]) =~= xs.take(n as int));
    }
}

/// Law: decoding the bytes that a canonical value of some fields encodes
/// to gives the value back, having read exactly those bytes.
pub proof fn lemma_fields_roundtrip(f: FullFieldsV, v: JsonV, before: Seq<u8>, after: Seq<u8>)
    requires
        spec_canonical_fields(f, v),
        spec_serialize_fields(f, v) is Ok,
    ensures
        spec_deserialize_fields(f, before + spec_serialize_fields(f, v)->Ok_0 + after, before.len())
            == Ok::<(nat, JsonV), crate::idl_transform_error::ToolboxIdlTransformError>(
            (spec_serialize_fields(f, v)->Ok_0.len(), v),
        ),
    decreases f, 0nat,
{
    match f {
        FullFieldsV::Nothing => {},
        FullFieldsV::Named(fields) => {
            let entries = v->Object_0;
            lemma_named_roundtrip(fields, entries, fields.len(), before, after);
            assert(entries.take(fields.len() as int) =~= entries);
        },
        FullFieldsV::Unnamed(types) => {
            let xs = v->Array_0;
            lemma_unnamed_roundtrip(types, xs, types.len(), before, after);
            assert(xs.take(types.len() as int) =~= xs);
        },
    }
}

} // verus!
