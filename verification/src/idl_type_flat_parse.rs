//! Reading flat IDL types from their JSON description.
use vstd::prelude::*;

use crate::idl_parse_error::ToolboxIdlParseError;
use crate::idl_type_flat::{
    flat_seq_view,
    flat_view,
    flat_fields_view,
    named_flat_seq_view,
    unnamed_flat_seq_view,
    variants_flat_seq_view,
    FlatFieldsV,
    FlatV,
    ToolboxIdlTypeFlat,
    ToolboxIdlTypeFlatFields,
};
use crate::idl_type_primitive::{primitive_from_name, ToolboxIdlTypePrimitive};
use crate::idl_utils::{
    decimal,
    decimal_string,
    idl_convert_to_snake_case,
    idl_value_as_str_or_object_with_name_as_str,
    name_of,
    parse_u64_literal,
    snake_case,
    u64_literal,
};
use crate::json::{
    entries_find,
    entries_get,
    entries_get_array,
    entries_get_object,
    entries_get_str,
    entries_get_u64,
    entries_has,
    json_as_str,
    json_as_u64,
    json_entries_view,
    json_get,
    json_opt_view,
    json_seq_view,
    lemma_array_view,
    lemma_entries_get_decreases,
    lemma_object_view,
    object_find,
    object_get,
    object_get_str,
    object_get_u64,
    object_has,
    str_eq,
    str_to_string,
    JsonV,
    JsonValue,
};

verus! {

pub type FlatResult = Result<FlatV, ToolboxIdlParseError>;

/// The view of a parse result.
pub open spec fn flat_result_view(r: Result<ToolboxIdlTypeFlat, ToolboxIdlParseError>) -> FlatResult {
    match r {
        Ok(t) => Ok(flat_view(t)),
        Err(e) => Err(e),
    }
}

/// The view of a fields parse result.
pub open spec fn flat_fields_result_view(
    r: Result<ToolboxIdlTypeFlatFields, ToolboxIdlParseError>,
) -> Result<FlatFieldsV, ToolboxIdlParseError> {
    match r {
        Ok(f) => Ok(flat_fields_view(f)),
        Err(e) => Err(e),
    }
}

pub open spec fn spec_wrap_option(prefix_bytes: u8, r: FlatResult) -> FlatResult {
    match r {
        Ok(t) => Ok(FlatV::Option { prefix_bytes, content: Box::new(t) }),
        Err(e) => Err(e),
    }
}

pub open spec fn spec_wrap_vec(prefix_bytes: u8, r: FlatResult) -> FlatResult {
    match r {
        Ok(t) => Ok(FlatV::Vec { prefix_bytes, items: Box::new(t) }),
        Err(e) => Err(e),
    }
}

/// The type that a JSON string names.
pub open spec fn spec_parse_str(s: Seq<char>) -> FlatV {
    if s == "bytes"@ {
        FlatV::Vec {
            prefix_bytes: 4,
            items: Box::new(FlatV::Primitive { primitive: ToolboxIdlTypePrimitive::U8 }),
        }
    } else if s == "publicKey"@ {
        FlatV::Primitive { primitive: ToolboxIdlTypePrimitive::PublicKey }
    } else {
        match primitive_from_name(s) {
            Some(primitive) => FlatV::Primitive { primitive },
            None => FlatV::Defined { name: s, generics: Seq::empty() },
        }
    }
}

/// The type that a JSON value describes.
pub open spec fn spec_parse_value(v: JsonV) -> FlatResult
    decreases v, 0nat,
{
    match v {
        JsonV::Object(entries) => spec_parse_object(entries),
        JsonV::Array(items) => spec_parse_array(items),
        JsonV::Str(s) => Ok(spec_parse_str(s)),
        _ => match json_as_u64(v) {
            Some(literal) => Ok(FlatV::Const { literal }),
            None => Err(ToolboxIdlParseError::UnexpectedValueKind),
        },
    }
}

/// The type that a JSON array describes: `[items]` or `[items, length]`.
pub open spec fn spec_parse_array(items: Seq<JsonV>) -> FlatResult
    decreases items, 0nat,
{
    if items.len() == 1 {
        spec_wrap_vec(4, spec_parse_value(items[0]))
    } else if items.len() == 2 {
        match spec_parse_value(items[0]) {
            Err(e) => Err(e),
            Ok(t) => match spec_parse_value(items[1]) {
                Err(e) => Err(e),
                Ok(l) => Ok(FlatV::Array { items: Box::new(t), length: Box::new(l) }),
            },
        }
    } else {
        Err(ToolboxIdlParseError::InvalidArrayFormat)
    }
}

/// The types that the first `n` values of `items` describe, stopping at the
/// first failure.
pub open spec fn spec_parse_list(items: Seq<JsonV>, n: nat) -> Result<Seq<FlatV>, ToolboxIdlParseError>
    decreases items, n,
{
    if n == 0 || n > items.len() {
        Ok(Seq::empty())
    } else {
        match spec_parse_list(items, (n - 1) as nat) {
            Err(e) => Err(e),
            Ok(prev) => match spec_parse_value(items[n - 1]) {
                Err(e) => Err(e),
                Ok(t) => Ok(prev.push(t)),
            },
        }
    }
}

/// The type that a `"defined"` entry describes.
pub open spec fn spec_parse_defined(v: JsonV) -> FlatResult
    decreases v, 1nat,
{
    match name_of(v) {
        None => Err(ToolboxIdlParseError::MissingName),
        Some(name) => match v {
            JsonV::Object(entries) => match entries_get(entries, "generics"@) {
                Some(JsonV::Array(generics)) => {
                    proof {
                        lemma_entries_get_decreases(entries, "generics"@);
                    }
                    match spec_parse_list(generics, generics.len()) {
                        Err(e) => Err(e),
                        Ok(generics) => Ok(FlatV::Defined { name, generics }),
                    }
                },
                _ => Ok(FlatV::Defined { name, generics: Seq::empty() }),
            },
            _ => Ok(FlatV::Defined { name, generics: Seq::empty() }),
        },
    }
}

/// The snake_case name that a field gives, if any.
pub open spec fn spec_field_name(v: JsonV) -> Option<Seq<char>> {
    match json_get(v, "name"@) {
        Some(n) => match json_as_str(n) {
            Some(s) => Some(snake_case(s)),
            None => None,
        },
        None => None,
    }
}

/// Whether any of the fields gives a name.
pub open spec fn spec_any_field_named(fields: Seq<JsonV>) -> bool {
    exists|i: int| 0 <= i < fields.len() && (#[trigger] spec_field_name(fields[i])) is Some
}

/// The name, docs and type of the first `n` fields.
pub open spec fn spec_parse_field_infos(fields: Seq<JsonV>, n: nat) -> Result<
    Seq<(Seq<char>, Option<JsonV>, FlatV)>,
    ToolboxIdlParseError,
>
    decreases fields, n,
{
    if n == 0 || n > fields.len() {
        Ok(Seq::empty())
    } else {
        match spec_parse_field_infos(fields, (n - 1) as nat) {
            Err(e) => Err(e),
            Ok(prev) => {
                let field = fields[n - 1];
                let name = match spec_field_name(field) {
                    Some(s) => s,
                    None => decimal((n - 1) as nat),
                };
                match spec_parse_value(field) {
                    Err(e) => Err(e),
                    Ok(t) => Ok(prev.push((name, json_get(field, "docs"@), t))),
                }
            },
        }
    }
}

/// Drops the names of a list of fields.
pub open spec fn spec_unnamed(infos: Seq<(Seq<char>, Option<JsonV>, FlatV)>) -> Seq<(Option<JsonV>, FlatV)> {
    Seq::new(infos.len(), |i: int| (infos[i].1, infos[i].2))
}

/// The fields that a JSON list of fields describes: nothing when empty, named
/// when at least one field has a name (the others are named by their
/// position), unnamed otherwise.
pub open spec fn spec_parse_fields(fields: Seq<JsonV>) -> Result<FlatFieldsV, ToolboxIdlParseError>
    decreases fields, fields.len() + 1,
{
    if fields.len() == 0 {
        Ok(FlatFieldsV::Nothing)
    } else {
        match spec_parse_field_infos(fields, fields.len()) {
            Err(e) => Err(e),
            Ok(infos) => if spec_any_field_named(fields) {
                Ok(FlatFieldsV::Named(infos))
            } else {
                Ok(FlatFieldsV::Unnamed(spec_unnamed(infos)))
            },
        }
    }
}

/// The name, docs and fields of the first `n` enum variants.
pub open spec fn spec_parse_variants(variants: Seq<JsonV>, n: nat) -> Result<
    Seq<(Seq<char>, Option<JsonV>, FlatFieldsV)>,
    ToolboxIdlParseError,
>
    decreases variants, n,
{
    if n == 0 || n > variants.len() {
        Ok(Seq::empty())
    } else {
        match spec_parse_variants(variants, (n - 1) as nat) {
            Err(e) => Err(e),
            Ok(prev) => {
                let variant = variants[n - 1];
                match name_of(variant) {
                    None => Err(ToolboxIdlParseError::MissingName),
                    Some(name) => {
                        let docs = json_get(variant, "docs"@);
                        match variant {
                            JsonV::Object(entries) => match entries_get(entries, "fields"@) {
                                Some(JsonV::Array(fields)) => {
                                    proof {
                                        lemma_entries_get_decreases(entries, "fields"@);
                                    }
                                    match spec_parse_fields(fields) {
                                        Err(e) => Err(e),
                                        Ok(f) => Ok(prev.push((name, docs, f))),
                                    }
                                },
                                _ => Ok(prev.push((name, docs, FlatFieldsV::Nothing))),
                            },
                            _ => Ok(prev.push((name, docs, FlatFieldsV::Nothing))),
                        }
                    },
                }
            },
        }
    }
}

/// The padded type that a `"padded"` object describes.
pub open spec fn spec_parse_padded(entries: Seq<(Seq<char>, JsonV)>) -> FlatResult
    decreases entries, 1nat,
{
    match entries_get_u64(entries, "size"@) {
        None => Err(ToolboxIdlParseError::MissingPaddedSize),
        Some(size_bytes) => match spec_parse_object(entries) {
            Err(e) => Err(e),
            Ok(t) => Ok(FlatV::Padded { size_bytes, content: Box::new(t) }),
        },
    }
}

/// The enum type that a list of variants describes.
pub open spec fn spec_parse_enum(prefix_bytes: u8, variants: Seq<JsonV>) -> FlatResult
    decreases variants, variants.len() + 1,
{
    match spec_parse_variants(variants, variants.len()) {
        Err(e) => Err(e),
        Ok(variants) => Ok(FlatV::Enum { prefix_bytes, variants }),
    }
}

/// The struct type that a list of fields describes.
pub open spec fn spec_parse_struct(fields: Seq<JsonV>) -> FlatResult
    decreases fields, fields.len() + 2,
{
    match spec_parse_fields(fields) {
        Err(e) => Err(e),
        Ok(fields) => Ok(FlatV::Struct { fields }),
    }
}

/// The type that a JSON object describes, by the first of its kind keys that
/// it holds.
pub open spec fn spec_parse_object(entries: Seq<(Seq<char>, JsonV)>) -> FlatResult
    decreases entries, 0nat,
{
    proof {
        lemma_entries_get_decreases(entries, "type"@);
        lemma_entries_get_decreases(entries, "defined"@);
        lemma_entries_get_decreases(entries, "option"@);
        lemma_entries_get_decreases(entries, "option8"@);
        lemma_entries_get_decreases(entries, "option16"@);
        lemma_entries_get_decreases(entries, "option32"@);
        lemma_entries_get_decreases(entries, "vec"@);
        lemma_entries_get_decreases(entries, "vec8"@);
        lemma_entries_get_decreases(entries, "vec16"@);
        lemma_entries_get_decreases(entries, "vec32"@);
        lemma_entries_get_decreases(entries, "array"@);
        lemma_entries_get_decreases(entries, "fields"@);
        lemma_entries_get_decreases(entries, "variants"@);
        lemma_entries_get_decreases(entries, "variants8"@);
        lemma_entries_get_decreases(entries, "variants16"@);
        lemma_entries_get_decreases(entries, "variants32"@);
        lemma_entries_get_decreases(entries, "padded"@);
    }
    if let Some(x) = entries_get(entries, "type"@) {
        spec_parse_value(x)
    } else if let Some(x) = entries_get(entries, "defined"@) {
        spec_parse_defined(x)
    } else if let Some(symbol) = entries_get_str(entries, "generic"@) {
        Ok(FlatV::Generic { symbol })
    } else if let Some(x) = entries_get(entries, "option"@) {
        spec_wrap_option(1, spec_parse_value(x))
    } else if let Some(x) = entries_get(entries, "option8"@) {
        spec_wrap_option(1, spec_parse_value(x))
    } else if let Some(x) = entries_get(entries, "option16"@) {
        spec_wrap_option(2, spec_parse_value(x))
    } else if let Some(x) = entries_get(entries, "option32"@) {
        spec_wrap_option(4, spec_parse_value(x))
    } else if let Some(x) = entries_get(entries, "vec"@) {
        spec_wrap_vec(4, spec_parse_value(x))
    } else if let Some(x) = entries_get(entries, "vec8"@) {
        spec_wrap_vec(1, spec_parse_value(x))
    } else if let Some(x) = entries_get(entries, "vec16"@) {
        spec_wrap_vec(2, spec_parse_value(x))
    } else if let Some(x) = entries_get(entries, "vec32"@) {
        spec_wrap_vec(4, spec_parse_value(x))
    } else if let Some(JsonV::Array(items)) = entries_get(entries, "array"@) {
        spec_parse_array(items)
    } else if let Some(JsonV::Array(fields)) = entries_get(entries, "fields"@) {
        spec_parse_struct(fields)
    } else if let Some(JsonV::Array(variants)) = entries_get(entries, "variants"@) {
        spec_parse_enum(1, variants)
    } else if let Some(JsonV::Array(variants)) = entries_get(entries, "variants8"@) {
        spec_parse_enum(1, variants)
    } else if let Some(JsonV::Array(variants)) = entries_get(entries, "variants16"@) {
        spec_parse_enum(2, variants)
    } else if let Some(JsonV::Array(variants)) = entries_get(entries, "variants32"@) {
        spec_parse_enum(4, variants)
    } else if let Some(JsonV::Object(padded)) = entries_get(entries, "padded"@) {
        spec_parse_padded(padded)
    } else if let Some(literal) = entries_get_str(entries, "value"@) {
        match u64_literal(literal) {
            Some(literal) => Ok(FlatV::Const { literal }),
            None => Err(ToolboxIdlParseError::InvalidIntegerLiteral),
        }
    } else {
        Err(ToolboxIdlParseError::MissingTypeKey)
    }
}

/// Whether an object holds any of the keys that mark a type description.
pub open spec fn spec_object_is_type(entries: Seq<(Seq<char>, JsonV)>) -> bool {
    entries_has(entries, "type"@) || entries_has(entries, "defined"@) || entries_has(
        entries,
        "generic"@,
    ) || entries_has(entries, "option"@) || entries_has(entries, "option8"@) || entries_has(
        entries,
        "option32"@,
    ) || entries_has(entries, "vec"@) || entries_has(entries, "vec8"@) || entries_has(
        entries,
        "vec32"@,
    ) || entries_has(entries, "array"@) || entries_has(entries, "fields"@) || entries_has(
        entries,
        "variants"@,
    ) || entries_has(entries, "variants8"@) || entries_has(entries, "variants32"@)
        || entries_has(entries, "padded"@)
}


/// Once reading a list fails, reading a longer prefix fails the same way.
pub proof fn lemma_parse_list_err_stable(items: Seq<JsonV>, i: nat, n: nat)
    requires
        i <= n <= items.len(),
        spec_parse_list(items, i) is Err,
    ensures
        spec_parse_list(items, n) == spec_parse_list(items, i),
    decreases n - i,
{
    if i < n {
        lemma_parse_list_err_stable(items, i, (n - 1) as nat);
    }
}

/// Once reading fields fails, reading a longer prefix fails the same way.
pub proof fn lemma_parse_field_infos_err_stable(fields: Seq<JsonV>, i: nat, n: nat)
    requires
        i <= n <= fields.len(),
        spec_parse_field_infos(fields, i) is Err,
    ensures
        spec_parse_field_infos(fields, n) == spec_parse_field_infos(fields, i),
    decreases n - i,
{
    if i < n {
        lemma_parse_field_infos_err_stable(fields, i, (n - 1) as nat);
    }
}

/// Once reading variants fails, reading a longer prefix fails the same way.
pub proof fn lemma_parse_variants_err_stable(variants: Seq<JsonV>, i: nat, n: nat)
    requires
        i <= n <= variants.len(),
        spec_parse_variants(variants, i) is Err,
    ensures
        spec_parse_variants(variants, n) == spec_parse_variants(variants, i),
    decreases n - i,
{
    if i < n {
        lemma_parse_variants_err_stable(variants, i, (n - 1) as nat);
    }
}

/// The value held under `key` when `v` is an object, copied.
pub fn json_get_cloned(v: &JsonValue, key: &str) -> (r: Option<JsonValue>)
    ensures
        json_opt_view(r) == json_get(v@, key@),
{
    match v {
        JsonValue::Object(entries) => {
            proof {
                lemma_object_view(*entries);
            }
            match object_get(entries, key) {
                Some(x) => Some(x.deep_clone()),
                None => None,
            }
        },
        _ => None,
    }
}

/// The snake_case name that a field gives, if any.
pub fn idl_field_name(v: &JsonValue) -> (r: Option<String>)
    ensures
        match r {
            Some(s) => spec_field_name(v@) == Some(s@),
            None => spec_field_name(v@) is None,
        },
{
    match v {
        JsonValue::Object(entries) => {
            proof {
                lemma_object_view(*entries);
            }
            match object_get_str(entries, "name") {
                Some(s) => Some(idl_convert_to_snake_case(s)),
                None => None,
            }
        },
        _ => None,
    }
}

/// Reads the types that a list of JSON values describes.
fn try_parse_value_list(items: &Vec<JsonValue>) -> (r: Result<Vec<ToolboxIdlTypeFlat>, ToolboxIdlParseError>)
    ensures
        match r {
            Ok(ts) => spec_parse_list(json_seq_view(items@), items@.len()) == Ok::<
                Seq<FlatV>,
                ToolboxIdlParseError,
            >(flat_seq_view(ts@)),
            Err(e) => spec_parse_list(json_seq_view(items@), items@.len()) == Err::<
                Seq<FlatV>,
                ToolboxIdlParseError,
            >(e),
        },
    decreases items, 0nat,
{
    let ghost xs = json_seq_view(items@);
    let mut out: Vec<ToolboxIdlTypeFlat> = Vec::new();
    proof {
        assert(flat_seq_view(out@) =~= Seq::<FlatV>::empty());
    }
    let mut i: usize = 0;
    while i < items.len()
        invariant
            i <= items.len(),
            out@.len() == i,
            xs == json_seq_view(items@),
            spec_parse_list(xs, i as nat) == Ok::<Seq<FlatV>, ToolboxIdlParseError>(
                flat_seq_view(out@),
            ),
        decreases items.len() - i,
    {
        proof {
            assert(decreases_to!(*items => items@[i as int]));
        }
        match ToolboxIdlTypeFlat::try_parse_value(&items[i]) {
            Ok(t) => {
                let ghost prev = out@;
                out.push(t);
                proof {
                    assert(flat_seq_view(out@) =~= flat_seq_view(prev).push(flat_view(t)));
                }
            },
            Err(e) => {
                proof {
                    lemma_parse_list_err_stable(xs, (i + 1) as nat, items@.len());
                }
                return Err(e);
            },
        }
        i = i + 1;
    }
    Ok(out)
}

impl ToolboxIdlTypeFlat {
    /// Whether an object holds any of the keys that mark a type description.
    pub fn try_parse_object_is_possible(idl_object: &Vec<(String, JsonValue)>) -> (r: bool)
        ensures
            r == spec_object_is_type(json_entries_view(idl_object@)),
    {
        if object_has(idl_object, "type") || object_has(idl_object, "defined") || object_has(
            idl_object,
            "generic",
        ) || object_has(idl_object, "option") || object_has(idl_object, "option8")
            || object_has(idl_object, "option32") || object_has(idl_object, "vec") || object_has(
            idl_object,
            "vec8",
        ) || object_has(idl_object, "vec32") || object_has(idl_object, "array") || object_has(
            idl_object,
            "fields",
        ) || object_has(idl_object, "variants") || object_has(idl_object, "variants8")
            || object_has(idl_object, "variants32") || object_has(idl_object, "padded") {
            return true;
        }
        false
    }

    /// Reads the type that a JSON value describes.
    pub fn try_parse_value(idl_value: &JsonValue) -> (r: Result<
        ToolboxIdlTypeFlat,
        ToolboxIdlParseError,
    >)
        ensures
            flat_result_view(r) == spec_parse_value(idl_value@),
        decreases idl_value, 0nat,
    {
        match idl_value {
            JsonValue::Object(entries) => {
                proof {
                    lemma_object_view(*entries);
                    assert(decreases_to!(*idl_value => (*idl_value)->Object_0));
                }
                ToolboxIdlTypeFlat::try_parse_object(entries)
            },
            JsonValue::Array(items) => {
                proof {
                    lemma_array_view(*items);
                    assert(decreases_to!(*idl_value => (*idl_value)->Array_0));
                }
                ToolboxIdlTypeFlat::try_parse_array(items)
            },
            JsonValue::Str(s) => ToolboxIdlTypeFlat::try_parse_str(s.as_str()),
            _ => match idl_value.as_u64() {
                Some(literal) => ToolboxIdlTypeFlat::try_parse_u64(literal),
                None => Err(ToolboxIdlParseError::UnexpectedValueKind),
            },
        }
    }

    /// Reads the type that a JSON object describes, by the first of its kind
    /// keys that it holds.
    pub fn try_parse_object(idl_object: &Vec<(String, JsonValue)>) -> (r: Result<
        ToolboxIdlTypeFlat,
        ToolboxIdlParseError,
    >)
        ensures
            flat_result_view(r) == spec_parse_object(json_entries_view(idl_object@)),
        decreases idl_object, 0nat,
    {
        if let Some(j) = object_find(idl_object, "type") {
            proof {
                assert(decreases_to!(*idl_object => idl_object@[j as int].1));
            }
            return ToolboxIdlTypeFlat::try_parse_value(&idl_object[j].1);
        }
        if let Some(j) = object_find(idl_object, "defined") {
            proof {
                assert(decreases_to!(*idl_object => idl_object@[j as int].1));
            }
            return ToolboxIdlTypeFlat::try_parse_defined(&idl_object[j].1);
        }
        if let Some(symbol) = object_get_str(idl_object, "generic") {
            return ToolboxIdlTypeFlat::try_parse_generic_symbol(symbol);
        }
        if let Some(j) = object_find(idl_object, "option") {
            proof {
                assert(decreases_to!(*idl_object => idl_object@[j as int].1));
            }
            return ToolboxIdlTypeFlat::try_parse_option(1, &idl_object[j].1);
        }
        if let Some(j) = object_find(idl_object, "option8") {
            proof {
                assert(decreases_to!(*idl_object => idl_object@[j as int].1));
            }
            return ToolboxIdlTypeFlat::try_parse_option(1, &idl_object[j].1);
        }
        if let Some(j) = object_find(idl_object, "option16") {
            proof {
                assert(decreases_to!(*idl_object => idl_object@[j as int].1));
            }
            return ToolboxIdlTypeFlat::try_parse_option(2, &idl_object[j].1);
        }
        if let Some(j) = object_find(idl_object, "option32") {
            proof {
                assert(decreases_to!(*idl_object => idl_object@[j as int].1));
            }
            return ToolboxIdlTypeFlat::try_parse_option(4, &idl_object[j].1);
        }
        if let Some(j) = object_find(idl_object, "vec") {
            proof {
                assert(decreases_to!(*idl_object => idl_object@[j as int].1));
            }
            return ToolboxIdlTypeFlat::try_parse_vec(4, &idl_object[j].1);
        }
        if let Some(j) = object_find(idl_object, "vec8") {
            proof {
                assert(decreases_to!(*idl_object => idl_object@[j as int].1));
            }
            return ToolboxIdlTypeFlat::try_parse_vec(1, &idl_object[j].1);
        }
        if let Some(j) = object_find(idl_object, "vec16") {
            proof {
                assert(decreases_to!(*idl_object => idl_object@[j as int].1));
            }
            return ToolboxIdlTypeFlat::try_parse_vec(2, &idl_object[j].1);
        }
        if let Some(j) = object_find(idl_object, "vec32") {
            proof {
                assert(decreases_to!(*idl_object => idl_object@[j as int].1));
            }
            return ToolboxIdlTypeFlat::try_parse_vec(4, &idl_object[j].1);
        }
        if let Some(j) = object_find(idl_object, "array") {
            if let JsonValue::Array(items) = &idl_object[j].1 {
                proof {
                    lemma_array_view(*items);
                    assert(decreases_to!(*idl_object => idl_object@[j as int].1->Array_0));
                }
                return ToolboxIdlTypeFlat::try_parse_array(items);
            }
        }
        if let Some(j) = object_find(idl_object, "fields") {
            if let JsonValue::Array(fields) = &idl_object[j].1 {
                proof {
                    lemma_array_view(*fields);
                    assert(decreases_to!(*idl_object => idl_object@[j as int].1->Array_0));
                }
                return ToolboxIdlTypeFlat::try_parse_struct_fields(fields);
            }
        }
        if let Some(j) = object_find(idl_object, "variants") {
            if let JsonValue::Array(variants) = &idl_object[j].1 {
                proof {
                    lemma_array_view(*variants);
                    assert(decreases_to!(*idl_object => idl_object@[j as int].1->Array_0));
                }
                return ToolboxIdlTypeFlat::try_parse_enum_variants(1, variants);
            }
        }
        if let Some(j) = object_find(idl_object, "variants8") {
            if let JsonValue::Array(variants) = &idl_object[j].1 {
                proof {
                    lemma_array_view(*variants);
                    assert(decreases_to!(*idl_object => idl_object@[j as int].1->Array_0));
                }
                return ToolboxIdlTypeFlat::try_parse_enum_variants(1, variants);
            }
        }
        if let Some(j) = object_find(idl_object, "variants16") {
            if let JsonValue::Array(variants) = &idl_object[j].1 {
                proof {
                    lemma_array_view(*variants);
                    assert(decreases_to!(*idl_object => idl_object@[j as int].1->Array_0));
                }
                return ToolboxIdlTypeFlat::try_parse_enum_variants(2, variants);
            }
        }
        if let Some(j) = object_find(idl_object, "variants32") {
            if let JsonValue::Array(variants) = &idl_object[j].1 {
                proof {
                    lemma_array_view(*variants);
                    assert(decreases_to!(*idl_object => idl_object@[j as int].1->Array_0));
                }
                return ToolboxIdlTypeFlat::try_parse_enum_variants(4, variants);
            }
        }
        if let Some(j) = object_find(idl_object, "padded") {
            if let JsonValue::Object(padded) = &idl_object[j].1 {
                proof {
                    lemma_object_view(*padded);
                    assert(decreases_to!(*idl_object => idl_object@[j as int].1->Object_0));
                }
                return ToolboxIdlTypeFlat::try_parse_padded(padded);
            }
        }
        if let Some(literal) = object_get_str(idl_object, "value") {
            return ToolboxIdlTypeFlat::try_parse_const_value(literal);
        }
        Err(ToolboxIdlParseError::MissingTypeKey)
    }

    /// Reads `[items]` (a vector) or `[items, length]` (an array).
    pub fn try_parse_array(idl_array: &Vec<JsonValue>) -> (r: Result<
        ToolboxIdlTypeFlat,
        ToolboxIdlParseError,
    >)
        ensures
            flat_result_view(r) == spec_parse_array(json_seq_view(idl_array@)),
        decreases idl_array, 0nat,
    {
        if idl_array.len() == 1 {
            proof {
                assert(decreases_to!(*idl_array => idl_array@[0]));
            }
            return ToolboxIdlTypeFlat::try_parse_vec(4, &idl_array[0]);
        }
        if idl_array.len() == 2 {
            proof {
                assert(decreases_to!(*idl_array => idl_array@[0]));
                assert(decreases_to!(*idl_array => idl_array@[1]));
            }
            let items = match ToolboxIdlTypeFlat::try_parse_value(&idl_array[0]) {
                Ok(t) => t,
                Err(e) => return Err(e),
            };
            let length = match ToolboxIdlTypeFlat::try_parse_value(&idl_array[1]) {
                Ok(t) => t,
                Err(e) => return Err(e),
            };
            return Ok(
                ToolboxIdlTypeFlat::Array { items: Box::new(items), length: Box::new(length) },
            );
        }
        Err(ToolboxIdlParseError::InvalidArrayFormat)
    }

    /// Reads the type that a string names.
    pub fn try_parse_str(idl_str: &str) -> (r: Result<ToolboxIdlTypeFlat, ToolboxIdlParseError>)
        ensures
            flat_result_view(r) == Ok::<FlatV, ToolboxIdlParseError>(spec_parse_str(idl_str@)),
    {
        if str_eq(idl_str, "bytes") {
            proof {
                let u8_type = ToolboxIdlTypeFlat::Primitive { primitive: ToolboxIdlTypePrimitive::U8 };
                assert(flat_view(u8_type) == FlatV::Primitive { primitive: ToolboxIdlTypePrimitive::U8 });
            }
            return Ok(
                ToolboxIdlTypeFlat::Vec {
                    prefix_bytes: 4,
                    items: Box::new(
                        ToolboxIdlTypeFlat::Primitive { primitive: ToolboxIdlTypePrimitive::U8 },
                    ),
                },
            );
        }
        if str_eq(idl_str, "publicKey") {
            return Ok(
                ToolboxIdlTypeFlat::Primitive { primitive: ToolboxIdlTypePrimitive::PublicKey },
            );
        }
        match ToolboxIdlTypePrimitive::try_parse(idl_str) {
            Some(primitive) => Ok(ToolboxIdlTypeFlat::Primitive { primitive }),
            None => {
                let generics: Vec<ToolboxIdlTypeFlat> = Vec::new();
                let r = ToolboxIdlTypeFlat::Defined { name: str_to_string(idl_str), generics };
                proof {
                    assert(flat_view(r)->Defined_generics =~= Seq::<FlatV>::empty());
                }
                Ok(r)
            },
        }
    }

    /// A constant from an unsigned number.
    pub fn try_parse_u64(idl_u64: u64) -> (r: Result<ToolboxIdlTypeFlat, ToolboxIdlParseError>)
        ensures
            flat_result_view(r) == Ok::<FlatV, ToolboxIdlParseError>(
                FlatV::Const { literal: idl_u64 },
            ),
    {
        Ok(ToolboxIdlTypeFlat::Const { literal: idl_u64 })
    }

    /// Reads a `"defined"` entry: a name, and possibly generic arguments.
    pub fn try_parse_defined(idl_defined: &JsonValue) -> (r: Result<
        ToolboxIdlTypeFlat,
        ToolboxIdlParseError,
    >)
        ensures
            flat_result_view(r) == spec_parse_defined(idl_defined@),
        decreases idl_defined, 1nat,
    {
        let name = match idl_value_as_str_or_object_with_name_as_str(idl_defined) {
            Some(s) => str_to_string(s),
            None => return Err(ToolboxIdlParseError::MissingName),
        };
        let generics: Vec<ToolboxIdlTypeFlat> = match idl_defined {
            JsonValue::Object(entries) => {
                proof {
                    lemma_object_view(*entries);
                }
                match object_find(entries, "generics") {
                    Some(j) => match &entries[j].1 {
                        JsonValue::Array(idl_generics) => {
                            proof {
                                lemma_array_view(*idl_generics);
                                assert(decreases_to!(*idl_defined => (*idl_defined)->Object_0@[j as int].1->Array_0));
                            }
                            match try_parse_value_list(idl_generics) {
                                Ok(generics) => generics,
                                Err(e) => return Err(e),
                            }
                        },
                        _ => Vec::new(),
                    },
                    None => Vec::new(),
                }
            },
            _ => Vec::new(),
        };
        let r = ToolboxIdlTypeFlat::Defined { name, generics };
        proof {
            assert(flat_view(r)->Defined_generics =~= flat_seq_view(generics@));
            assert(flat_seq_view(Seq::<ToolboxIdlTypeFlat>::empty()) =~= Seq::<FlatV>::empty());
        }
        Ok(r)
    }

    /// A generic parameter by its symbol.
    pub fn try_parse_generic_symbol(idl_generic_symbol: &str) -> (r: Result<
        ToolboxIdlTypeFlat,
        ToolboxIdlParseError,
    >)
        ensures
            flat_result_view(r) == Ok::<FlatV, ToolboxIdlParseError>(
                FlatV::Generic { symbol: idl_generic_symbol@ },
            ),
    {
        Ok(ToolboxIdlTypeFlat::Generic { symbol: str_to_string(idl_generic_symbol) })
    }

    /// A constant from a decimal literal.
    pub fn try_parse_const_value(idl_value_literal: &str) -> (r: Result<
        ToolboxIdlTypeFlat,
        ToolboxIdlParseError,
    >)
        ensures
            flat_result_view(r) == match u64_literal(idl_value_literal@) {
                Some(literal) => Ok::<FlatV, ToolboxIdlParseError>(FlatV::Const { literal }),
                None => Err(ToolboxIdlParseError::InvalidIntegerLiteral),
            },
    {
        match parse_u64_literal(idl_value_literal) {
            Some(literal) => Ok(ToolboxIdlTypeFlat::Const { literal }),
            None => Err(ToolboxIdlParseError::InvalidIntegerLiteral),
        }
    }

    /// An optional value of the described type.
    fn try_parse_option(idl_option_prefix_bytes: u8, idl_option_content: &JsonValue) -> (r: Result<
        ToolboxIdlTypeFlat,
        ToolboxIdlParseError,
    >)
        ensures
            flat_result_view(r) == spec_wrap_option(
                idl_option_prefix_bytes,
                spec_parse_value(idl_option_content@),
            ),
        decreases idl_option_content, 1nat,
    {
        match ToolboxIdlTypeFlat::try_parse_value(idl_option_content) {
            Ok(t) => Ok(
                ToolboxIdlTypeFlat::Option {
                    prefix_bytes: idl_option_prefix_bytes,
                    content: Box::new(t),
                },
            ),
            Err(e) => Err(e),
        }
    }

    /// A vector of values of the described type.
    fn try_parse_vec(idl_vec_prefix_bytes: u8, idl_vec_items: &JsonValue) -> (r: Result<
        ToolboxIdlTypeFlat,
        ToolboxIdlParseError,
    >)
        ensures
            flat_result_view(r) == spec_wrap_vec(
                idl_vec_prefix_bytes,
                spec_parse_value(idl_vec_items@),
            ),
        decreases idl_vec_items, 1nat,
    {
        match ToolboxIdlTypeFlat::try_parse_value(idl_vec_items) {
            Ok(t) => Ok(
                ToolboxIdlTypeFlat::Vec { prefix_bytes: idl_vec_prefix_bytes, items: Box::new(t) },
            ),
            Err(e) => Err(e),
        }
    }

    /// A struct with the described fields.
    fn try_parse_struct_fields(idl_struct_fields: &Vec<JsonValue>) -> (r: Result<
        ToolboxIdlTypeFlat,
        ToolboxIdlParseError,
    >)
        ensures
            flat_result_view(r) == spec_parse_struct(json_seq_view(idl_struct_fields@)),
        decreases idl_struct_fields, 1nat,
    {
        match ToolboxIdlTypeFlatFields::try_parse(idl_struct_fields) {
            Ok(fields) => Ok(ToolboxIdlTypeFlat::Struct { fields }),
            Err(e) => Err(e),
        }
    }

    /// An enum with the described variants.
    fn try_parse_enum_variants(idl_enum_prefix_bytes: u8, idl_enum_variants: &Vec<JsonValue>) -> (r:
        Result<ToolboxIdlTypeFlat, ToolboxIdlParseError>)
        ensures
            flat_result_view(r) == spec_parse_enum(
                idl_enum_prefix_bytes,
                json_seq_view(idl_enum_variants@),
            ),
        decreases idl_enum_variants, 0nat,
    {
        let ghost vs = json_seq_view(idl_enum_variants@);
        let mut variants: Vec<(String, Option<JsonValue>, ToolboxIdlTypeFlatFields)> = Vec::new();
        proof {
            assert(variants_flat_seq_view(variants@) =~= Seq::<(Seq<char>, Option<JsonV>, FlatFieldsV)>::empty());
        }
        let mut i: usize = 0;
        while i < idl_enum_variants.len()
            invariant
                i <= idl_enum_variants.len(),
                variants@.len() == i,
                vs == json_seq_view(idl_enum_variants@),
                spec_parse_variants(vs, i as nat) == Ok::<
                    Seq<(Seq<char>, Option<JsonV>, FlatFieldsV)>,
                    ToolboxIdlParseError,
                >(variants_flat_seq_view(variants@)),
            decreases idl_enum_variants.len() - i,
        {
            let idl_enum_variant = &idl_enum_variants[i];
            let name = match idl_value_as_str_or_object_with_name_as_str(idl_enum_variant) {
                Some(s) => str_to_string(s),
                None => {
                    proof {
                        lemma_parse_variants_err_stable(vs, (i + 1) as nat, vs.len());
                    }
                    return Err(ToolboxIdlParseError::MissingName);
                },
            };
            let docs = json_get_cloned(idl_enum_variant, "docs");
            let fields = match idl_enum_variant {
                JsonValue::Object(entries) => {
                    proof {
                        lemma_object_view(*entries);
                    }
                    match object_find(entries, "fields") {
                        Some(j) => match &entries[j].1 {
                            JsonValue::Array(idl_fields) => {
                                proof {
                                    lemma_array_view(*idl_fields);
                                    assert(decreases_to!(*idl_enum_variants => idl_enum_variants@[i as int]->Object_0@[j as int].1->Array_0));
                                }
                                match ToolboxIdlTypeFlatFields::try_parse(idl_fields) {
                                    Ok(f) => f,
                                    Err(e) => {
                                        proof {
                                            lemma_parse_variants_err_stable(vs, (i + 1) as nat, vs.len());
                                        }
                                        return Err(e);
                                    },
                                }
                            },
                            _ => ToolboxIdlTypeFlatFields::Nothing,
                        },
                        None => ToolboxIdlTypeFlatFields::Nothing,
                    }
                },
                _ => ToolboxIdlTypeFlatFields::Nothing,
            };
            let ghost prev = variants@;
            proof {
                assert(flat_fields_view(ToolboxIdlTypeFlatFields::Nothing) == FlatFieldsV::Nothing);
            }
            variants.push((name, docs, fields));
            proof {
                assert(variants_flat_seq_view(variants@) =~= variants_flat_seq_view(prev).push(
                    (variants@[i as int].0@, json_opt_view(variants@[i as int].1), flat_fields_view(variants@[i as int].2)),
                ));
            }
            i = i + 1;
        }
        let r = ToolboxIdlTypeFlat::Enum { prefix_bytes: idl_enum_prefix_bytes, variants };
        proof {
            assert(flat_view(r)->Enum_variants =~= variants_flat_seq_view(variants@));
        }
        Ok(r)
    }

    /// A padded type: its `"size"` and the type that the same object describes.
    fn try_parse_padded(idl_padded: &Vec<(String, JsonValue)>) -> (r: Result<
        ToolboxIdlTypeFlat,
        ToolboxIdlParseError,
    >)
        ensures
            flat_result_view(r) == spec_parse_padded(json_entries_view(idl_padded@)),
        decreases idl_padded, 1nat,
    {
        let size_bytes = match object_get_u64(idl_padded, "size") {
            Some(size) => size,
            None => return Err(ToolboxIdlParseError::MissingPaddedSize),
        };
        match ToolboxIdlTypeFlat::try_parse_object(idl_padded) {
            Ok(t) => Ok(ToolboxIdlTypeFlat::Padded { size_bytes, content: Box::new(t) }),
            Err(e) => Err(e),
        }
    }
}

impl ToolboxIdlTypeFlatFields {
    /// Reads a list of fields: nothing when empty, named when at least one
    /// field has a name (the others are named by their position), unnamed
    /// otherwise.
    pub fn try_parse(idl_fields: &Vec<JsonValue>) -> (r: Result<
        ToolboxIdlTypeFlatFields,
        ToolboxIdlParseError,
    >)
        ensures
            flat_fields_result_view(r) == spec_parse_fields(json_seq_view(idl_fields@)),
        decreases idl_fields, 0nat,
    {
        let ghost fs = json_seq_view(idl_fields@);
        if idl_fields.len() == 0 {
            return Ok(ToolboxIdlTypeFlatFields::Nothing);
        }
        let mut fields_named = false;
        let mut fields_info: Vec<(String, Option<JsonValue>, ToolboxIdlTypeFlat)> = Vec::new();
        proof {
            assert(named_flat_seq_view(fields_info@) =~= Seq::<(Seq<char>, Option<JsonV>, FlatV)>::empty());
        }
        let mut i: usize = 0;
        while i < idl_fields.len()
            invariant
                i <= idl_fields.len(),
                fields_info@.len() == i,
                fs == json_seq_view(idl_fields@),
                spec_parse_field_infos(fs, i as nat) == Ok::<
                    Seq<(Seq<char>, Option<JsonV>, FlatV)>,
                    ToolboxIdlParseError,
                >(named_flat_seq_view(fields_info@)),
                fields_named == exists|k: int|
                    0 <= k < i && (#[trigger] spec_field_name(fs[k])) is Some,
            decreases idl_fields.len() - i,
        {
            let idl_field = &idl_fields[i];
            let field_name = idl_field_name(idl_field);
            if field_name.is_some() {
                fields_named = true;
            }
            let field_name_or_index = match field_name {
                Some(name) => name,
                None => decimal_string(i as u64),
            };
            let field_docs = json_get_cloned(idl_field, "docs");
            proof {
                assert(decreases_to!(*idl_fields => idl_fields@[i as int]));
            }
            let field_type_flat = match ToolboxIdlTypeFlat::try_parse_value(idl_field) {
                Ok(t) => t,
                Err(e) => {
                    proof {
                        lemma_parse_field_infos_err_stable(fs, (i + 1) as nat, fs.len());
                    }
                    return Err(e);
                },
            };
            let ghost prev = fields_info@;
            fields_info.push((field_name_or_index, field_docs, field_type_flat));
            proof {
                assert(named_flat_seq_view(fields_info@) =~= named_flat_seq_view(prev).push(
                    (fields_info@[i as int].0@, json_opt_view(fields_info@[i as int].1), flat_view(fields_info@[i as int].2)),
                ));
            }
            i = i + 1;
        }
        if !fields_named {
            let ghost all = named_flat_seq_view(fields_info@);
            let mut fields: Vec<(Option<JsonValue>, ToolboxIdlTypeFlat)> = Vec::new();
            while fields_info.len() > 0
                invariant
                    fields@.len() + fields_info@.len() == all.len(),
                    unnamed_flat_seq_view(fields@) =~= spec_unnamed(all).take(fields@.len() as int),
                    named_flat_seq_view(fields_info@) =~= all.skip(fields@.len() as int),
                decreases fields_info@.len(),
            {
                let ghost before = fields_info@;
                let (_, field_docs, field_type_flat) = fields_info.remove(0);
                proof {
                    assert(named_flat_seq_view(before)[0] == all[fields@.len() as int]);
                    assert(named_flat_seq_view(fields_info@) =~= named_flat_seq_view(before).drop_first());
                }
                fields.push((field_docs, field_type_flat));
            }
            proof {
                assert(spec_unnamed(all).take(all.len() as int) =~= spec_unnamed(all));
            }
            let r = ToolboxIdlTypeFlatFields::Unnamed(fields);
            proof {
                assert(flat_fields_view(r)->Unnamed_0 =~= unnamed_flat_seq_view(fields@));
            }
            Ok(r)
        } else {
            let r = ToolboxIdlTypeFlatFields::Named(fields_info);
            proof {
                assert(flat_fields_view(r)->Named_0 =~= named_flat_seq_view(fields_info@));
            }
            Ok(r)
        }
    }
}

} // verus!
