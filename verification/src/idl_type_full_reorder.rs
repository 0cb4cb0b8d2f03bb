//! Decoding what was encoded gives the value back up to the order of object
//! keys: an object may name its fields in any order, and decoding gives
//! them in the type's order.
use vstd::prelude::*;

use crate::idl_transform_error::ToolboxIdlTransformError;
use crate::idl_type_full::{FullFieldsV, FullV};
use crate::idl_type_full_deserialize::{spec_deserialize, spec_deserialize_fields};
use crate::idl_type_full_roundtrip::{
    distinct_names,
    law_deserialize_serialize,
    lemma_entries_find_at,
    lemma_fields_roundtrip,
    spec_canonical,
    spec_canonical_fields,
    spec_canonical_items,
    spec_canonical_named,
    spec_canonical_primitive,
    spec_canonical_unnamed,
};
use crate::idl_type_full_serialize::{
    spec_enum_target,
    spec_find_variant,
    spec_serialize,
    spec_serialize_fields,
    spec_serialize_items,
    spec_serialize_named,
    spec_serialize_unnamed,
};
use crate::json::{entries_find, entries_find_from, entries_get, lemma_entries_find_bounds, JsonV};

verus! {

/// Whether two JSON values are the same document: arrays item by item,
/// objects as maps (the same keys, the value under each key the same),
/// other values equal.
pub open spec fn json_same(a: JsonV, b: JsonV) -> bool
    decreases a,
{
    match a {
        JsonV::Array(xs) => match b {
            JsonV::Array(ys) => xs.len() == ys.len() && forall|i: int|
                0 <= i < xs.len() ==> json_same(#[trigger] xs[i], ys[i]),
            _ => false,
        },
        JsonV::Object(ea) => match b {
            JsonV::Object(eb) => (forall|k: Seq<char>|
                (#[trigger] entries_get(ea, k) is Some) == (entries_get(eb, k) is Some)) && forall|i: int|
                0 <= i < ea.len() && entries_find(ea, ea[i].0) == Some(i) ==> (entries_get(eb, ea[i].0) matches Some(y)
                    && json_same(#[trigger] ea[i].1, y)),
            _ => false,
        },
        _ => a == b,
    }
}

/// Whether a value of type `t` is in the form that decoding gives, but for
/// the order of object keys: an object of named fields holds each field
/// once under its name, in any order, and no other key.
pub open spec fn spec_canonical_unordered(t: FullV, v: JsonV) -> bool
    decreases t,
{
    match t {
        FullV::Option { content, .. } => v is Null || spec_canonical_unordered(*content, v),
        FullV::Vec { items, .. } => v matches JsonV::Array(xs) && forall|i: int|
            0 <= i < xs.len() ==> spec_canonical_unordered(*items, #[trigger] xs[i]),
        FullV::Array { items, .. } => v matches JsonV::Array(xs) && forall|i: int|
            0 <= i < xs.len() ==> spec_canonical_unordered(*items, #[trigger] xs[i]),
        FullV::Struct { fields } => spec_canonical_unordered_fields(fields, v),
        FullV::Enum { variants, .. } => match spec_enum_target(v) {
            None => false,
            Some((name, fields_value)) => match spec_find_variant(variants, name, variants.len()) {
                None => false,
                Some(k) => if 0 <= k < variants.len() {
                    proof {
                        assert(decreases_to!(t => variants[k].1));
                    }
                    if variants[k].1 is Nothing {
                        v is Str
                    } else {
                        v is Object && spec_canonical_unordered_fields(variants[k].1, fields_value)
                    }
                } else {
                    false
                },
            },
        },
        FullV::Padded { content, .. } => spec_canonical_unordered(*content, v),
        FullV::Const { .. } => true,
        FullV::Primitive { primitive } => spec_canonical_primitive(primitive, v),
    }
}

/// Whether a value of some fields is in decoded form but for key order:
/// null without fields; an object that holds every named field (their
/// names distinct) and no other key; an array of the unnamed ones.
pub open spec fn spec_canonical_unordered_fields(f: FullFieldsV, v: JsonV) -> bool
    decreases f,
{
    match f {
        FullFieldsV::Nothing => v is Null,
        FullFieldsV::Named(fields) => v matches JsonV::Object(entries) && distinct_names(fields)
            && (forall|j: int|
            0 <= j < entries.len() ==> exists|i: int|
                0 <= i < fields.len() && #[trigger] fields[i].0 == #[trigger] entries[j].0) && forall|i: int|
            0 <= i < fields.len() ==> (entries_get(entries, #[trigger] fields[i].0) matches Some(x)
                && spec_canonical_unordered(fields[i].1, x)),
        FullFieldsV::Unnamed(types) => v matches JsonV::Array(xs) && xs.len() == types.len() && forall|i: int|
            0 <= i < types.len() ==> spec_canonical_unordered(#[trigger] types[i], xs[i]),
    }
}

/// A value of type `t` with the keys of every object of named fields put in
/// the order of the fields.
pub open spec fn spec_field_order(t: FullV, v: JsonV) -> JsonV
    decreases t,
{
    match t {
        FullV::Option { content, .. } => if v is Null {
            v
        } else {
            spec_field_order(*content, v)
        },
        FullV::Vec { items, .. } => match v {
            JsonV::Array(xs) => JsonV::Array(Seq::new(xs.len(), |i: int| spec_field_order(*items, xs[i]))),
            _ => v,
        },
        FullV::Array { items, .. } => match v {
            JsonV::Array(xs) => JsonV::Array(Seq::new(xs.len(), |i: int| spec_field_order(*items, xs[i]))),
            _ => v,
        },
        FullV::Struct { fields } => spec_fields_order(fields, v),
        FullV::Enum { variants, .. } => match v {
            JsonV::Object(entries) => if entries.len() == 1 {
                match spec_find_variant(variants, entries[0].0, variants.len()) {
                    Some(k) => if 0 <= k < variants.len() {
                        proof {
                            assert(decreases_to!(t => variants[k].1));
                        }
                        JsonV::Object(seq![(entries[0].0, spec_fields_order(variants[k].1, entries[0].1))])
                    } else {
                        v
                    },
                    None => v,
                }
            } else {
                v
            },
            _ => v,
        },
        FullV::Padded { content, .. } => spec_field_order(*content, v),
        FullV::Const { .. } => v,
        FullV::Primitive { .. } => v,
    }
}

/// The value of some fields with its named fields in their order.
pub open spec fn spec_fields_order(f: FullFieldsV, v: JsonV) -> JsonV
    decreases f,
{
    match f {
        FullFieldsV::Nothing => v,
        FullFieldsV::Named(fields) => match v {
            JsonV::Object(entries) => JsonV::Object(
                Seq::new(
                    fields.len(),
                    |i: int|
                        if 0 <= i < fields.len() {
                            proof {
                                assert(decreases_to!(f => fields[i].1));
                            }
                            (
                                fields[i].0,
                                spec_field_order(
                                    fields[i].1,
                                    match entries_get(entries, fields[i].0) {
                                        Some(x) => x,
                                        None => JsonV::Null,
                                    },
                                ),
                            )
                        } else {
                            (Seq::empty(), JsonV::Null)
                        },
                ),
            ),
            _ => v,
        },
        FullFieldsV::Unnamed(types) => match v {
            JsonV::Array(xs) => JsonV::Array(
                Seq::new(
                    xs.len(),
                    |i: int|
                        if 0 <= i < types.len() {
                            proof {
                                assert(decreases_to!(f => types[i]));
                            }
                            spec_field_order(types[i], xs[i])
                        } else {
                            xs[i]
                        },
                ),
            ),
            _ => v,
        },
    }
}

/// Every value is the same document as itself.
pub proof fn lemma_json_same_refl(v: JsonV)
    ensures
        json_same(v, v),
    decreases v,
{
    match v {
        JsonV::Array(xs) => {
            assert forall|i: int| 0 <= i < xs.len() implies json_same(#[trigger] xs[i], xs[i]) by {
                assert(decreases_to!(v => xs[i]));
                lemma_json_same_refl(xs[i]);
            }
        },
        JsonV::Object(ea) => {
            assert forall|i: int|
                0 <= i < ea.len() && entries_find(ea, ea[i].0) == Some(i) implies (entries_get(
                ea,
                ea[i].0,
            ) matches Some(y) && json_same(#[trigger] ea[i].1, y)) by {
                assert(decreases_to!(v => ea[i].1));
                lemma_json_same_refl(ea[i].1);
            }
        },
        _ => {},
    }
}

/// A key that some entry holds is found.
pub proof fn lemma_entries_find_some(entries: Seq<(Seq<char>, JsonV)>, key: Seq<char>, j: int, start: int)
    requires
        0 <= start <= j < entries.len(),
        entries[j].0 == key,
    ensures
        entries_find_from(entries, key, start) is Some,
    decreases j - start,
{
    if entries[start].0 != key {
        lemma_entries_find_some(entries, key, j, start + 1);
    }
}

/// Values that encode alike, item by item, encode alike together.
proof fn lemma_items_same(t: FullV, xs: Seq<JsonV>, ys: Seq<JsonV>, n: nat)
    requires
        n <= xs.len(),
        xs.len() == ys.len(),
        forall|i: int| 0 <= i < xs.len() ==> spec_serialize(t, #[trigger] ys[i]) == spec_serialize(t, xs[i]),
    ensures
        spec_serialize_items(t, ys, n) == spec_serialize_items(t, xs, n),
    decreases n,
{
    if n > 0 {
        lemma_items_same(t, xs, ys, (n - 1) as nat);
        assert(spec_serialize(t, ys[n - 1]) == spec_serialize(t, xs[n - 1]));
    }
}

proof fn lemma_canonical_items_all(t: FullV, ys: Seq<JsonV>, n: nat)
    requires
        n <= ys.len(),
        forall|i: int| 0 <= i < ys.len() ==> spec_canonical(t, #[trigger] ys[i]),
    ensures
        spec_canonical_items(t, ys, n),
    decreases n,
{
    if n > 0 {
        lemma_canonical_items_all(t, ys, (n - 1) as nat);
        assert(spec_canonical(t, ys[n - 1]));
    }
}

proof fn lemma_unnamed_same(types: Seq<FullV>, xs: Seq<JsonV>, ys: Seq<JsonV>, n: nat)
    requires
        n <= types.len(),
        xs.len() == types.len(),
        ys.len() == types.len(),
        forall|i: int|
            0 <= i < types.len() ==> spec_serialize(#[trigger] types[i], ys[i]) == spec_serialize(types[i], xs[i]),
    ensures
        spec_serialize_unnamed(types, ys, n) == spec_serialize_unnamed(types, xs, n),
    decreases n,
{
    if n > 0 {
        lemma_unnamed_same(types, xs, ys, (n - 1) as nat);
        assert(spec_serialize(types[n - 1], ys[n - 1]) == spec_serialize(types[n - 1], xs[n - 1]));
    }
}

proof fn lemma_canonical_unnamed_all(types: Seq<FullV>, ys: Seq<JsonV>, n: nat)
    requires
        n <= types.len(),
        ys.len() == types.len(),
        forall|i: int| 0 <= i < types.len() ==> spec_canonical(#[trigger] types[i], ys[i]),
    ensures
        spec_canonical_unnamed(types, ys, n),
    decreases n,
{
    if n > 0 {
        lemma_canonical_unnamed_all(types, ys, (n - 1) as nat);
        assert(spec_canonical(types[n - 1], ys[n - 1]));
    }
}

proof fn lemma_named_same(
    fields: Seq<(Seq<char>, FullV)>,
    ne: Seq<(Seq<char>, JsonV)>,
    entries: Seq<(Seq<char>, JsonV)>,
    n: nat,
)
    requires
        n <= fields.len(),
        forall|i: int|
            0 <= i < fields.len() ==> (entries_get(ne, #[trigger] fields[i].0) matches Some(a) && entries_get(
                entries,
                fields[i].0,
            ) matches Some(b) && spec_serialize(fields[i].1, a) == spec_serialize(fields[i].1, b)),
    ensures
        spec_serialize_named(fields, ne, n) == spec_serialize_named(fields, entries, n),
    decreases n,
{
    if n > 0 {
        lemma_named_same(fields, ne, entries, (n - 1) as nat);
        let key = fields[n - 1].0;
        assert(entries_get(ne, key) is Some);
    }
}

proof fn lemma_canonical_named_all(fields: Seq<(Seq<char>, FullV)>, ne: Seq<(Seq<char>, JsonV)>, n: nat)
    requires
        n <= fields.len(),
        fields.len() == ne.len(),
        forall|i: int|
            #![trigger ne[i]]
            0 <= i < fields.len() ==> ne[i].0 == fields[i].0 && spec_canonical(fields[i].1, ne[i].1),
    ensures
        spec_canonical_named(fields, ne, n),
    decreases n,
{
    if n > 0 {
        lemma_canonical_named_all(fields, ne, (n - 1) as nat);
        let last = ne[n - 1];
    }
}

/// What putting the keys in field order keeps and gives, for one type.
pub open spec fn field_order_ok(t: FullV, v: JsonV) -> bool {
    let w = spec_field_order(t, v);
    &&& spec_canonical(t, w)
    &&& spec_serialize(t, w) == spec_serialize(t, v)
    &&& json_same(w, v)
    &&& (w is Null) == (v is Null)
}

/// What putting the keys in field order keeps and gives, for some fields.
pub open spec fn fields_order_ok(f: FullFieldsV, v: JsonV) -> bool {
    let w = spec_fields_order(f, v);
    &&& spec_canonical_fields(f, w)
    &&& spec_serialize_fields(f, w) == spec_serialize_fields(f, v)
    &&& json_same(w, v)
}

/// A value in decoded form but for key order, with its keys put in field
/// order, is in decoded form, encodes to the same bytes and is the same
/// document.
pub proof fn lemma_field_order(t: FullV, v: JsonV)
    requires
        spec_canonical_unordered(t, v),
    ensures
        field_order_ok(t, v),
    decreases t,
{
    let w = spec_field_order(t, v);
    match t {
        FullV::Option { content, .. } => {
            if !(v is Null) {
                lemma_field_order(*content, v);
            }
        },
        FullV::Vec { items, .. } => {
            let xs = v->Array_0;
            let ys = w->Array_0;
            assert forall|i: int| 0 <= i < xs.len() implies field_order_ok(*items, #[trigger] xs[i]) by {
                lemma_field_order(*items, xs[i]);
            }
            assert forall|i: int| 0 <= i < xs.len() implies spec_serialize(*items, #[trigger] ys[i])
                == spec_serialize(*items, xs[i]) && spec_canonical(*items, ys[i]) && json_same(ys[i], xs[i]) by {
                assert(field_order_ok(*items, xs[i]));
            }
            lemma_items_same(*items, xs, ys, xs.len());
            lemma_canonical_items_all(*items, ys, ys.len());
        },
        FullV::Array { items, .. } => {
            let xs = v->Array_0;
            let ys = w->Array_0;
            assert forall|i: int| 0 <= i < xs.len() implies field_order_ok(*items, #[trigger] xs[i]) by {
                lemma_field_order(*items, xs[i]);
            }
            assert forall|i: int| 0 <= i < xs.len() implies spec_serialize(*items, #[trigger] ys[i])
                == spec_serialize(*items, xs[i]) && spec_canonical(*items, ys[i]) && json_same(ys[i], xs[i]) by {
                assert(field_order_ok(*items, xs[i]));
            }
            lemma_items_same(*items, xs, ys, xs.len());
            lemma_canonical_items_all(*items, ys, ys.len());
        },
        FullV::Struct { fields } => {
            lemma_fields_order(fields, v);
        },
        FullV::Enum { .. } => {
            lemma_enum_order(t, v);
        },
        FullV::Padded { content, .. } => {
            lemma_field_order(*content, v);
        },
        FullV::Const { .. } => {
            lemma_json_same_refl(v);
        },
        FullV::Primitive { .. } => {
            lemma_json_same_refl(v);
        },
    }
}

/// The lemma above for enums.
proof fn lemma_enum_order(t: FullV, v: JsonV)
    requires
        t is Enum,
        spec_canonical_unordered(t, v),
    ensures
        field_order_ok(t, v),
    decreases t, 0nat,
{
    let variants = t->Enum_variants;
    let w = spec_field_order(t, v);
    let (name, fv) = spec_enum_target(v)->Some_0;
    let k = spec_find_variant(variants, name, variants.len())->Some_0;
    if v is Str {
        lemma_json_same_refl(v);
    } else {
        let entries = v->Object_0;
        assert(decreases_to!(t => variants[k].1));
        lemma_fields_order(variants[k].1, fv);
        let wf = spec_fields_order(variants[k].1, fv);
        let ea = seq![(name, wf)];
        assert(w == JsonV::Object(ea));
        assert(spec_enum_target(w) == Some((name, wf)));
        assert(entries =~= seq![(name, fv)]);
        assert forall|key: Seq<char>| (#[trigger] entries_get(ea, key) is Some) == (entries_get(
            entries,
            key,
        ) is Some) by {
            assert(entries_find_from(ea, key, 1) is None);
            assert(entries_find_from(entries, key, 1) is None);
        }
        assert(entries_find_from(entries, name, 0) == Some(0int));
        assert(entries_get(entries, name) == Some(fv));
    }
}

/// The lemma above, for some fields.
pub proof fn lemma_fields_order(f: FullFieldsV, v: JsonV)
    requires
        spec_canonical_unordered_fields(f, v),
    ensures
        fields_order_ok(f, v),
    decreases f,
{
    let w = spec_fields_order(f, v);
    match f {
        FullFieldsV::Nothing => {},
        FullFieldsV::Named(fields) => {
            let entries = v->Object_0;
            let ne = w->Object_0;
            assert forall|i: int| 0 <= i < fields.len() implies #[trigger] ne[i] == (
                fields[i].0,
                spec_field_order(fields[i].1, entries_get(entries, fields[i].0)->Some_0),
            ) && field_order_ok(fields[i].1, entries_get(entries, fields[i].0)->Some_0)
                && entries_get(ne, fields[i].0) == Some(ne[i].1) by {
                assert(decreases_to!(f => fields[i].1));
                lemma_field_order(fields[i].1, entries_get(entries, fields[i].0)->Some_0);
                assert forall|j: int| 0 <= j < i implies ne[j].0 != fields[i].0 by {
                    assert(ne[j].0 == fields[j].0);
                }
                lemma_entries_find_at(ne, fields[i].0, i, 0);
            }
            assert forall|i: int| 0 <= i < fields.len() implies (entries_get(ne, #[trigger] fields[i].0) matches Some(a)
                && entries_get(entries, fields[i].0) matches Some(b) && spec_serialize(fields[i].1, a)
                == spec_serialize(fields[i].1, b)) by {
                let x = entries_get(entries, fields[i].0)->Some_0;
                assert(ne[i] == (fields[i].0, spec_field_order(fields[i].1, x)));
                assert(field_order_ok(fields[i].1, x));
            }
            lemma_named_same(fields, ne, entries, fields.len());
            lemma_canonical_named_all(fields, ne, fields.len());
            assert forall|key: Seq<char>| (#[trigger] entries_get(ne, key) is Some) == (entries_get(
                entries,
                key,
            ) is Some) by {
                lemma_entries_find_bounds(ne, key);
                lemma_entries_find_bounds(entries, key);
                if let Some(j) = entries_find(ne, key) {
                    assert(ne[j].0 == fields[j].0);
                    assert(entries_get(entries, fields[j].0) is Some);
                }
                if let Some(j) = entries_find(entries, key) {
                    let i = choose|i: int| 0 <= i < fields.len() && #[trigger] fields[i].0 == entries[j].0;
                    assert(entries_get(ne, fields[i].0) == Some(ne[i].1));
                }
            }
            assert forall|i: int|
                0 <= i < ne.len() && entries_find(ne, ne[i].0) == Some(i) implies (entries_get(
                entries,
                ne[i].0,
            ) matches Some(y) && json_same(#[trigger] ne[i].1, y)) by {
                assert(ne[i].0 == fields[i].0);
            }
        },
        FullFieldsV::Unnamed(types) => {
            let xs = v->Array_0;
            let ys = w->Array_0;
            assert forall|i: int| 0 <= i < types.len() implies field_order_ok(#[trigger] types[i], xs[i])
                && ys[i] == spec_field_order(types[i], xs[i]) by {
                assert(decreases_to!(f => types[i]));
                lemma_field_order(types[i], xs[i]);
            }
            assert forall|i: int| 0 <= i < types.len() implies spec_serialize(#[trigger] types[i], ys[i])
                == spec_serialize(types[i], xs[i]) && spec_canonical(types[i], ys[i]) by {
                assert(field_order_ok(types[i], xs[i]));
            }
            assert forall|i: int| 0 <= i < xs.len() implies json_same(#[trigger] ys[i], xs[i]) by {
                assert(field_order_ok(types[i], xs[i]));
            }
            lemma_unnamed_same(types, xs, ys, types.len());
            lemma_canonical_unnamed_all(types, ys, types.len());
        },
    }
}

/// Law: decoding the bytes that a value of type `t` encodes to gives the
/// same document back, its object keys in any order, having read exactly
/// those bytes, whatever bytes come before and after them.
pub proof fn law_deserialize_serialize_any_order(t: FullV, v: JsonV, before: Seq<u8>, after: Seq<u8>)
    requires
        spec_canonical_unordered(t, v),
        spec_serialize(t, v) is Ok,
    ensures
        spec_deserialize(t, before + spec_serialize(t, v)->Ok_0 + after, before.len()) matches Ok(
            (n, w),
        ) && n == spec_serialize(t, v)->Ok_0.len() && json_same(w, v),
{
    lemma_field_order(t, v);
    law_deserialize_serialize(t, spec_field_order(t, v), before, after);
}

/// The law above, for the value of some fields.
pub proof fn lemma_fields_roundtrip_any_order(f: FullFieldsV, v: JsonV, before: Seq<u8>, after: Seq<u8>)
    requires
        spec_canonical_unordered_fields(f, v),
        spec_serialize_fields(f, v) is Ok,
    ensures
        spec_deserialize_fields(f, before + spec_serialize_fields(f, v)->Ok_0 + after, before.len())
            == Ok::<(nat, JsonV), ToolboxIdlTransformError>(
            (spec_serialize_fields(f, v)->Ok_0.len(), spec_fields_order(f, v)),
        ),
        json_same(spec_fields_order(f, v), v),
{
    lemma_fields_order(f, v);
    lemma_fields_roundtrip(f, spec_fields_order(f, v), before, after);
}

} // verus!
