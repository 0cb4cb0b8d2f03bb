//! What the reading of type descriptions promises as a whole: the kind keys
//! of a one-key object, and the equivalent ways of writing an enum variant
//! without fields.
use vstd::prelude::*;

use crate::idl_type_flat::{FlatFieldsV, FlatV};
use crate::idl_type_flat_parse::{
    spec_parse_enum,
    spec_parse_fields,
    spec_parse_object,
    spec_parse_value,
    spec_parse_variants,
    spec_wrap_option,
    spec_wrap_vec,
    FlatResult,
};
use crate::idl_utils::name_of;
use crate::json::{entries_find_from, entries_get, json_get, JsonV};

verus! {

/// The value under each key of a one-entry object.
proof fn lemma_one_entry_get(key: Seq<char>, x: JsonV)
    ensures
        forall|other: Seq<char>|
            #[trigger] entries_get(seq![(key, x)], other) == (if other == key {
                Some(x)
            } else {
                None::<JsonV>
            }),
{
    assert forall|other: Seq<char>|
        #[trigger] entries_get(seq![(key, x)], other) == (if other == key {
            Some(x)
        } else {
            None::<JsonV>
        }) by {
        assert(entries_find_from(seq![(key, x)], other, 1) is None);
    }
}

/// A number that tells the kind keys apart: their length and last
/// character.
pub open spec fn key_code(s: Seq<char>) -> int {
    s.len() * 256 + (s[s.len() - 1] as int)
}

/// The kind keys have distinct codes, hence are distinct texts.
proof fn lemma_kind_keys_distinct()
    ensures
        key_code("array"@) == 1401,
        key_code("defined"@) == 1892,
        key_code("fields"@) == 1651,
        key_code("generic"@) == 1891,
        key_code("option"@) == 1646,
        key_code("option16"@) == 2102,
        key_code("option32"@) == 2098,
        key_code("option8"@) == 1848,
        key_code("type"@) == 1125,
        key_code("variants"@) == 2163,
        key_code("variants16"@) == 2614,
        key_code("variants32"@) == 2610,
        key_code("variants8"@) == 2360,
        key_code("vec"@) == 867,
        key_code("vec16"@) == 1334,
        key_code("vec32"@) == 1330,
        key_code("vec8"@) == 1080,
{
    reveal_strlit("array");
    reveal_strlit("defined");
    reveal_strlit("fields");
    reveal_strlit("generic");
    reveal_strlit("option");
    reveal_strlit("option16");
    reveal_strlit("option32");
    reveal_strlit("option8");
    reveal_strlit("type");
    reveal_strlit("variants");
    reveal_strlit("variants16");
    reveal_strlit("variants32");
    reveal_strlit("variants8");
    reveal_strlit("vec");
    reveal_strlit("vec16");
    reveal_strlit("vec32");
    reveal_strlit("vec8");
}

/// The type that a one-key object describes, by its key.
pub open spec fn spec_one_key_type(key: Seq<char>, x: JsonV) -> FlatResult {
    if key == "variants"@ || key == "variants8"@ || key == "variants16"@ || key == "variants32"@ {
        match x {
            JsonV::Array(variants) => spec_parse_enum(
                if key == "variants16"@ {
                    2
                } else if key == "variants32"@ {
                    4
                } else {
                    1
                },
                variants,
            ),
            _ => spec_parse_value(x),
        }
    } else if key == "vec"@ || key == "vec8"@ || key == "vec16"@ || key == "vec32"@ {
        spec_wrap_vec(
            if key == "vec8"@ {
                1
            } else if key == "vec16"@ {
                2
            } else {
                4
            },
            spec_parse_value(x),
        )
    } else {
        spec_wrap_option(
            if key == "option16"@ {
                2
            } else if key == "option32"@ {
                4
            } else {
                1
            },
            spec_parse_value(x),
        )
    }
}

/// Whether a key marks an option or a vector.
pub open spec fn spec_is_wrapper_key(key: Seq<char>) -> bool {
    key == "vec"@ || key == "vec8"@ || key == "vec16"@ || key == "vec32"@ || key == "option"@ || key
        == "option8"@ || key == "option16"@ || key == "option32"@
}

/// Whether a key marks the variants of an enum.
pub open spec fn spec_is_variants_key(key: Seq<char>) -> bool {
    key == "variants"@ || key == "variants8"@ || key == "variants16"@ || key == "variants32"@
}

/// Law: an object whose one key is an option, vec or variants kind reads
/// as that kind, with a length prefix of 1 byte for `option`, `option8`,
/// `vec8`, `variants` and `variants8`, 2 bytes for `option16`, `vec16` and
/// `variants16`, and 4 bytes for `option32`, `vec`, `vec32` and
/// `variants32` (the variants as an array).
pub proof fn law_one_key_kinds(key: Seq<char>, x: JsonV)
    requires
        spec_is_wrapper_key(key) || (spec_is_variants_key(key) && x is Array),
    ensures
        spec_parse_object(seq![(key, x)]) == spec_one_key_type(key, x),
{
    lemma_kind_keys_distinct();
    lemma_one_entry_get(key, x);
    reveal_strlit("generic");
    assert(entries_get(seq![(key, x)], "generic"@) is None);
}

/// Whether a variant is written without docs and without fields: a bare
/// name, an object with a name, or one whose fields are an empty list.
pub open spec fn spec_variant_without_fields(v: JsonV) -> bool {
    &&& name_of(v) is Some
    &&& json_get(v, "docs"@) is None
    &&& match json_get(v, "fields"@) {
        Some(JsonV::Array(fields)) => fields.len() == 0,
        _ => true,
    }
}

/// Whether two variants are written alike, or both without docs and
/// fields under the same name.
pub open spec fn spec_same_variant(a: JsonV, b: JsonV) -> bool {
    a == b || (spec_variant_without_fields(a) && spec_variant_without_fields(b) && name_of(a) == name_of(
        b,
    ))
}

/// A variant without fields reads as no fields, whichever way it is written.
proof fn lemma_no_fields(v: JsonV)
    requires
        spec_variant_without_fields(v),
    ensures
        match v {
            JsonV::Object(entries) => match entries_get(entries, "fields"@) {
                Some(JsonV::Array(fields)) => spec_parse_fields(fields) == Ok::<
                    FlatFieldsV,
                    crate::idl_parse_error::ToolboxIdlParseError,
                >(FlatFieldsV::Nothing),
                _ => true,
            },
            _ => true,
        },
{
    if let JsonV::Object(entries) = v {
        if let Some(JsonV::Array(fields)) = entries_get(entries, "fields"@) {
            assert(fields.len() == 0);
        }
    }
}

proof fn lemma_variants_alike(vs1: Seq<JsonV>, vs2: Seq<JsonV>, n: nat)
    requires
        vs1.len() == vs2.len(),
        n <= vs1.len(),
        forall|i: int| 0 <= i < vs1.len() ==> spec_same_variant(#[trigger] vs1[i], vs2[i]),
    ensures
        spec_parse_variants(vs1, n) == spec_parse_variants(vs2, n),
    decreases n,
{
    if n > 0 {
        lemma_variants_alike(vs1, vs2, (n - 1) as nat);
        let a = vs1[n - 1];
        let b = vs2[n - 1];
        assert(spec_same_variant(a, b));
        if a != b {
            lemma_no_fields(a);
            lemma_no_fields(b);
        }
    }
}

/// Law: the variants of an enum may each be written as a bare name, as an
/// object with a name, or as one with an empty list of fields (without
/// docs): the enum read is the same, whatever the prefix; in particular an
/// object `{"variants": [..]}` reads the same.
pub proof fn law_enum_variant_forms(vs1: Seq<JsonV>, vs2: Seq<JsonV>, prefix_bytes: u8)
    requires
        vs1.len() == vs2.len(),
        forall|i: int| 0 <= i < vs1.len() ==> spec_same_variant(#[trigger] vs1[i], vs2[i]),
    ensures
        spec_parse_enum(prefix_bytes, vs1) == spec_parse_enum(prefix_bytes, vs2),
        spec_parse_object(seq![("variants"@, JsonV::Array(vs1))]) == spec_parse_object(
            seq![("variants"@, JsonV::Array(vs2))],
        ),
{
    lemma_variants_alike(vs1, vs2, vs1.len());
    law_one_key_kinds("variants"@, JsonV::Array(vs1));
    law_one_key_kinds("variants"@, JsonV::Array(vs2));
    lemma_kind_keys_distinct();
    reveal_strlit("variants");
    reveal_strlit("option");
}

} // verus!
