//! IDL types once definitions and generic parameters are resolved ("full"),
//! the questions callers ask of them, and their explanation as JSON.
use vstd::prelude::*;

use crate::idl_type_primitive::{primitive_name, ToolboxIdlTypePrimitive};
use crate::json::{
    entries_insert,
    json_entries_view,
    json_seq_view,
    lemma_array_view,
    lemma_object_view,
    object_insert,
    str_to_string,
    JsonNumber,
    JsonV,
    JsonValue,
};

verus! {

#[derive(Debug)]
pub enum ToolboxIdlTypeFull {
    Option { prefix_bytes: u8, content: Box<ToolboxIdlTypeFull> },
    Vec { prefix_bytes: u8, items: Box<ToolboxIdlTypeFull> },
    Array { items: Box<ToolboxIdlTypeFull>, length: u64 },
    Struct { fields: ToolboxIdlTypeFullFields },
    Enum { prefix_bytes: u8, variants: Vec<(String, ToolboxIdlTypeFullFields)> },
    Padded { size_bytes: u64, content: Box<ToolboxIdlTypeFull> },
    Const { literal: u64 },
    Primitive { primitive: ToolboxIdlTypePrimitive },
}

#[derive(Debug)]
pub enum ToolboxIdlTypeFullFields {
    Nothing,
    Named(Vec<(String, ToolboxIdlTypeFull)>),
    Unnamed(Vec<ToolboxIdlTypeFull>),
}

/// The mathematical view of a full type.
pub enum FullV {
    Option { prefix_bytes: u8, content: Box<FullV> },
    Vec { prefix_bytes: u8, items: Box<FullV> },
    Array { items: Box<FullV>, length: u64 },
    Struct { fields: FullFieldsV },
    Enum { prefix_bytes: u8, variants: Seq<(Seq<char>, FullFieldsV)> },
    Padded { size_bytes: u64, content: Box<FullV> },
    Const { literal: u64 },
    Primitive { primitive: ToolboxIdlTypePrimitive },
}

/// The mathematical view of the fields of a full struct or enum variant.
pub enum FullFieldsV {
    Nothing,
    Named(Seq<(Seq<char>, FullV)>),
    Unnamed(Seq<FullV>),
}

pub open spec fn full_view(t: ToolboxIdlTypeFull) -> FullV
    decreases t,
{
    match t {
        ToolboxIdlTypeFull::Option { prefix_bytes, content } => FullV::Option {
            prefix_bytes,
            content: Box::new(full_view(*content)),
        },
        ToolboxIdlTypeFull::Vec { prefix_bytes, items } => FullV::Vec {
            prefix_bytes,
            items: Box::new(full_view(*items)),
        },
        ToolboxIdlTypeFull::Array { items, length } => FullV::Array {
            items: Box::new(full_view(*items)),
            length,
        },
        ToolboxIdlTypeFull::Struct { fields } => FullV::Struct { fields: full_fields_view(fields) },
        ToolboxIdlTypeFull::Enum { prefix_bytes, variants } => FullV::Enum {
            prefix_bytes,
            variants: Seq::new(
                variants@.len(),
                |i: int|
                    if 0 <= i < variants@.len() {
                        proof {
                            assert(decreases_to!(t => variants@[i].1));
                        }
                        (variants@[i].0@, full_fields_view(variants@[i].1))
                    } else {
                        (Seq::empty(), FullFieldsV::Nothing)
                    },
            ),
        },
        ToolboxIdlTypeFull::Padded { size_bytes, content } => FullV::Padded {
            size_bytes,
            content: Box::new(full_view(*content)),
        },
        ToolboxIdlTypeFull::Const { literal } => FullV::Const { literal },
        ToolboxIdlTypeFull::Primitive { primitive } => FullV::Primitive { primitive },
    }
}

pub open spec fn full_fields_view(f: ToolboxIdlTypeFullFields) -> FullFieldsV
    decreases f,
{
    match f {
        ToolboxIdlTypeFullFields::Nothing => FullFieldsV::Nothing,
        ToolboxIdlTypeFullFields::Named(fields) => FullFieldsV::Named(
            Seq::new(
                fields@.len(),
                |i: int|
                    if 0 <= i < fields@.len() {
                        proof {
                            assert(decreases_to!(f => fields@[i].1));
                        }
                        (fields@[i].0@, full_view(fields@[i].1))
                    } else {
                        (Seq::empty(), FullV::Const { literal: 0 })
                    },
            ),
        ),
        ToolboxIdlTypeFullFields::Unnamed(fields) => FullFieldsV::Unnamed(
            Seq::new(
                fields@.len(),
                |i: int|
                    if 0 <= i < fields@.len() {
                        proof {
                            assert(decreases_to!(f => fields@[i]));
                        }
                        full_view(fields@[i])
                    } else {
                        FullV::Const { literal: 0 }
                    },
            ),
        ),
    }
}

/// The views of a list of full types.
pub open spec fn full_seq_view(s: Seq<ToolboxIdlTypeFull>) -> Seq<FullV> {
    Seq::new(s.len(), |i: int| full_view(s[i]))
}

/// The views of a list of named full types.
pub open spec fn named_full_seq_view(s: Seq<(String, ToolboxIdlTypeFull)>) -> Seq<(Seq<char>, FullV)> {
    Seq::new(s.len(), |i: int| (s[i].0@, full_view(s[i].1)))
}

/// The views of a list of full enum variants.
pub open spec fn variants_full_seq_view(s: Seq<(String, ToolboxIdlTypeFullFields)>) -> Seq<
    (Seq<char>, FullFieldsV),
> {
    Seq::new(s.len(), |i: int| (s[i].0@, full_fields_view(s[i].1)))
}

impl ToolboxIdlTypeFull {
    /// The type that holds nothing: a struct without fields.
    pub fn nothing() -> (r: ToolboxIdlTypeFull)
        ensures
            r matches ToolboxIdlTypeFull::Struct { fields: ToolboxIdlTypeFullFields::Nothing },
    {
        ToolboxIdlTypeFull::Struct { fields: ToolboxIdlTypeFullFields::Nothing }
    }

    /// Whether the type is a byte vector with a 4-byte length prefix.
    pub fn is_bytes(&self) -> (r: bool)
        ensures
            r == (*self matches ToolboxIdlTypeFull::Vec { prefix_bytes, items } && prefix_bytes
                == 4 && *items matches ToolboxIdlTypeFull::Primitive {
                primitive: ToolboxIdlTypePrimitive::U8,
            }),
    {
        match self {
            ToolboxIdlTypeFull::Vec { prefix_bytes, items } => {
                *prefix_bytes == 4 && items.is_primitive(&ToolboxIdlTypePrimitive::U8)
            },
            _ => false,
        }
    }

    /// Whether the type is the given primitive.
    pub fn is_primitive(&self, value: &ToolboxIdlTypePrimitive) -> (r: bool)
        ensures
            r == (*self matches ToolboxIdlTypeFull::Primitive { primitive } && primitive == *value),
    {
        match self {
            ToolboxIdlTypeFull::Primitive { primitive } => *primitive == *value,
            _ => false,
        }
    }

    /// The literal of a constant type.
    pub fn as_const_literal(&self) -> (r: Option<&u64>)
        ensures
            match self {
                ToolboxIdlTypeFull::Const { literal } => r == Some(literal),
                _ => r is None,
            },
    {
        match self {
            ToolboxIdlTypeFull::Const { literal } => Some(literal),
            _ => None,
        }
    }

    /// The fields of a struct type.
    pub fn as_struct_fields(&self) -> (r: Option<&ToolboxIdlTypeFullFields>)
        ensures
            match self {
                ToolboxIdlTypeFull::Struct { fields } => r == Some(fields),
                _ => r is None,
            },
    {
        match self {
            ToolboxIdlTypeFull::Struct { fields } => Some(fields),
            _ => None,
        }
    }
}

impl ToolboxIdlTypeFull {
    /// A copy of the type, down to its leaves.
    pub fn deep_clone(&self) -> (r: ToolboxIdlTypeFull)
        ensures
            full_view(r) == full_view(*self),
        decreases self, 0nat,
    {
        match self {
            ToolboxIdlTypeFull::Option { prefix_bytes, content } => ToolboxIdlTypeFull::Option {
                prefix_bytes: *prefix_bytes,
                content: Box::new(content.deep_clone()),
            },
            ToolboxIdlTypeFull::Vec { prefix_bytes, items } => ToolboxIdlTypeFull::Vec {
                prefix_bytes: *prefix_bytes,
                items: Box::new(items.deep_clone()),
            },
            ToolboxIdlTypeFull::Array { items, length } => ToolboxIdlTypeFull::Array {
                items: Box::new(items.deep_clone()),
                length: *length,
            },
            ToolboxIdlTypeFull::Struct { fields } => ToolboxIdlTypeFull::Struct {
                fields: fields.deep_clone(),
            },
            ToolboxIdlTypeFull::Enum { prefix_bytes, variants } => {
                let mut out: Vec<(String, ToolboxIdlTypeFullFields)> = Vec::new();
                let mut i: usize = 0;
                while i < variants.len()
                    invariant
                        i <= variants.len(),
                        out@.len() == i,
                        *self matches ToolboxIdlTypeFull::Enum { variants: vs, .. } && vs
                            == *variants,
                        forall|k: int|
                            0 <= k < i ==> (#[trigger] out@[k]).0@ == variants@[k].0@
                                && full_fields_view(out@[k].1) == full_fields_view(variants@[k].1),
                    decreases variants.len() - i,
                {
                    proof {
                        assert(decreases_to!(*self => (*self)->Enum_variants@[i as int].1));
                    }
                    let fields = variants[i].1.deep_clone();
                    out.push((str_to_string(variants[i].0.as_str()), fields));
                    proof {
                    }
                    i = i + 1;
                }
                let r = ToolboxIdlTypeFull::Enum { prefix_bytes: *prefix_bytes, variants: out };
                proof {
                    assert(variants_full_seq_view(out@) =~= variants_full_seq_view(variants@));
                    assert(full_view(r)->Enum_variants =~= variants_full_seq_view(out@));
                    assert(full_view(*self)->Enum_variants =~= variants_full_seq_view(variants@));
                }
                r
            },
            ToolboxIdlTypeFull::Padded { size_bytes, content } => ToolboxIdlTypeFull::Padded {
                size_bytes: *size_bytes,
                content: Box::new(content.deep_clone()),
            },
            ToolboxIdlTypeFull::Const { literal } => ToolboxIdlTypeFull::Const { literal: *literal },
            ToolboxIdlTypeFull::Primitive { primitive } => ToolboxIdlTypeFull::Primitive {
                primitive: *primitive,
            },
        }
    }
}

impl ToolboxIdlTypeFullFields {
    /// A copy of the fields, down to their leaves.
    pub fn deep_clone(&self) -> (r: ToolboxIdlTypeFullFields)
        ensures
            full_fields_view(r) == full_fields_view(*self),
        decreases self, 0nat,
    {
        match self {
            ToolboxIdlTypeFullFields::Nothing => ToolboxIdlTypeFullFields::Nothing,
            ToolboxIdlTypeFullFields::Named(fields) => {
                let mut out: Vec<(String, ToolboxIdlTypeFull)> = Vec::new();
                let mut i: usize = 0;
                while i < fields.len()
                    invariant
                        i <= fields.len(),
                        out@.len() == i,
                        *self == ToolboxIdlTypeFullFields::Named(*fields),
                        forall|k: int|
                            0 <= k < i ==> (#[trigger] out@[k]).0@ == fields@[k].0@
                                && full_view(out@[k].1) == full_view(fields@[k].1),
                    decreases fields.len() - i,
                {
                    proof {
                        assert(decreases_to!(*self => (*self)->Named_0@[i as int].1));
                    }
                    let t = fields[i].1.deep_clone();
                    out.push((str_to_string(fields[i].0.as_str()), t));
                    proof {
                    }
                    i = i + 1;
                }
                let r = ToolboxIdlTypeFullFields::Named(out);
                proof {
                    assert(named_full_seq_view(out@) =~= named_full_seq_view(fields@));
                    assert(full_fields_view(r)->Named_0 =~= named_full_seq_view(out@));
                    assert(full_fields_view(*self)->Named_0 =~= named_full_seq_view(fields@));
                }
                r
            },
            ToolboxIdlTypeFullFields::Unnamed(fields) => {
                let mut out: Vec<ToolboxIdlTypeFull> = Vec::new();
                let mut i: usize = 0;
                while i < fields.len()
                    invariant
                        i <= fields.len(),
                        out@.len() == i,
                        *self == ToolboxIdlTypeFullFields::Unnamed(*fields),
                        forall|k: int|
                            0 <= k < i ==> full_view(#[trigger] out@[k]) == full_view(fields@[k]),
                    decreases fields.len() - i,
                {
                    proof {
                        assert(decreases_to!(*self => (*self)->Unnamed_0@[i as int]));
                    }
                    let t = fields[i].deep_clone();
                    out.push(t);
                    proof {
                    }
                    i = i + 1;
                }
                let r = ToolboxIdlTypeFullFields::Unnamed(out);
                proof {
                    assert(full_seq_view(out@) =~= full_seq_view(fields@));
                    assert(full_fields_view(r)->Unnamed_0 =~= full_seq_view(out@));
                    assert(full_fields_view(*self)->Unnamed_0 =~= full_seq_view(fields@));
                }
                r
            },
        }
    }
}

impl ToolboxIdlTypeFullFields {
    /// No fields at all.
    pub fn nothing() -> (r: ToolboxIdlTypeFullFields)
        ensures
            r is Nothing,
    {
        ToolboxIdlTypeFullFields::Nothing
    }

    /// The named fields, if the fields are named.
    pub fn as_named(&self) -> (r: Option<&Vec<(String, ToolboxIdlTypeFull)>>)
        ensures
            match self {
                ToolboxIdlTypeFullFields::Named(named) => r == Some(named),
                _ => r is None,
            },
    {
        match self {
            ToolboxIdlTypeFullFields::Named(named) => Some(named),
            _ => None,
        }
    }
}

pub open spec fn json_u64(n: u64) -> JsonV {
    JsonV::Number(JsonNumber::PosInt(n))
}

/// The JSON explanation of a type: the shape a value of it takes.
pub open spec fn spec_explained(t: ToolboxIdlTypeFull) -> JsonV
    decreases t, 0nat,
{
    match t {
        ToolboxIdlTypeFull::Option { content, .. } => JsonV::Object(
            seq![("option"@, spec_explained(*content))],
        ),
        ToolboxIdlTypeFull::Vec { items, .. } => JsonV::Array(seq![spec_explained(*items)]),
        ToolboxIdlTypeFull::Array { items, length } => JsonV::Array(
            seq![spec_explained(*items), json_u64(length)],
        ),
        ToolboxIdlTypeFull::Struct { fields } => spec_fields_explained(fields),
        ToolboxIdlTypeFull::Enum { variants, .. } => JsonV::Object(
            seq![("variants"@, JsonV::Array(spec_variants_explained(variants@, variants@.len())))],
        ),
        ToolboxIdlTypeFull::Padded { content, .. } => spec_explained(*content),
        ToolboxIdlTypeFull::Const { literal } => json_u64(literal),
        ToolboxIdlTypeFull::Primitive { primitive } => JsonV::Str(primitive_name(primitive)),
    }
}

/// The explanations of the first `n` enum variants: the bare name of a
/// variant without fields, `{ name: fields }` otherwise.
pub open spec fn spec_variants_explained(
    variants: Seq<(String, ToolboxIdlTypeFullFields)>,
    n: nat,
) -> Seq<JsonV>
    decreases variants, n,
{
    if n == 0 || n > variants.len() {
        Seq::empty()
    } else {
        let (name, fields) = variants[n - 1];
        let explained = match fields {
            ToolboxIdlTypeFullFields::Nothing => JsonV::Str(name@),
            _ => JsonV::Object(seq![(name@, spec_fields_explained(fields))]),
        };
        spec_variants_explained(variants, (n - 1) as nat).push(explained)
    }
}

/// The entries that the first `n` named fields give, each inserted in turn.
pub open spec fn spec_named_explained(fields: Seq<(String, ToolboxIdlTypeFull)>, n: nat) -> Seq<
    (Seq<char>, JsonV),
>
    decreases fields, n,
{
    if n == 0 || n > fields.len() {
        Seq::empty()
    } else {
        entries_insert(
            spec_named_explained(fields, (n - 1) as nat),
            fields[n - 1].0@,
            spec_explained(fields[n - 1].1),
        )
    }
}

/// The explanations of the first `n` unnamed fields.
pub open spec fn spec_unnamed_explained(fields: Seq<ToolboxIdlTypeFull>, n: nat) -> Seq<JsonV>
    decreases fields, n,
{
    if n == 0 || n > fields.len() {
        Seq::empty()
    } else {
        spec_unnamed_explained(fields, (n - 1) as nat).push(spec_explained(fields[n - 1]))
    }
}

/// The JSON explanation of a list of fields.
pub open spec fn spec_fields_explained(f: ToolboxIdlTypeFullFields) -> JsonV
    decreases f, 0nat,
{
    match f {
        ToolboxIdlTypeFullFields::Nothing => JsonV::Null,
        ToolboxIdlTypeFullFields::Named(fields) => JsonV::Object(
            spec_named_explained(fields@, fields@.len()),
        ),
        ToolboxIdlTypeFullFields::Unnamed(fields) => JsonV::Array(
            spec_unnamed_explained(fields@, fields@.len()),
        ),
    }
}

/// The explanation of one enum variant: its bare name without fields,
/// `{ name: fields }` otherwise.
pub open spec fn spec_variant_explained(name: Seq<char>, fields: ToolboxIdlTypeFullFields) -> JsonV {
    match fields {
        ToolboxIdlTypeFullFields::Nothing => JsonV::Str(name),
        _ => JsonV::Object(seq![(name, spec_fields_explained(fields))]),
    }
}

/// The explanations of variants and of unnamed fields, item by item.
pub proof fn lemma_explained_items(
    variants: Seq<(String, ToolboxIdlTypeFullFields)>,
    fields: Seq<ToolboxIdlTypeFull>,
    n: nat,
    m: nat,
)
    requires
        n <= variants.len(),
        m <= fields.len(),
    ensures
        spec_variants_explained(variants, n).len() == n,
        forall|i: int|
            0 <= i < n ==> #[trigger] spec_variants_explained(variants, n)[i] == spec_variant_explained(
                variants[i].0@,
                variants[i].1,
            ),
        spec_unnamed_explained(fields, m).len() == m,
        forall|i: int| 0 <= i < m ==> #[trigger] spec_unnamed_explained(fields, m)[i] == spec_explained(fields[i]),
    decreases n + m,
{
    if n > 0 {
        lemma_explained_items(variants, fields, (n - 1) as nat, m);
    }
    if m > 0 {
        lemma_explained_items(variants, fields, n, (m - 1) as nat);
    }
}

/// Law: a vector explains as `[items]`, an array as `[items, length]`, an
/// option as `{"option": content}`, a padded type as its content, a struct
/// as its fields, a primitive as its name, a constant as its number, and an
/// enum as `{"variants": [..]}` listing each variant's bare name, or
/// `{name: fields}` when it has fields; unnamed fields explain item by item.
pub proof fn law_explained_shapes(t: ToolboxIdlTypeFull)
    ensures
        match t {
            ToolboxIdlTypeFull::Option { content, .. } => spec_explained(t) == JsonV::Object(
                seq![("option"@, spec_explained(*content))],
            ),
            ToolboxIdlTypeFull::Vec { items, .. } => spec_explained(t) == JsonV::Array(
                seq![spec_explained(*items)],
            ),
            ToolboxIdlTypeFull::Array { items, length } => spec_explained(t) == JsonV::Array(
                seq![spec_explained(*items), json_u64(length)],
            ),
            ToolboxIdlTypeFull::Struct { fields } => spec_explained(t) == spec_fields_explained(fields)
                && (fields matches ToolboxIdlTypeFullFields::Unnamed(fs) ==> (spec_unnamed_explained(
                fs@,
                fs@.len(),
            ).len() == fs@.len() && forall|i: int|
                0 <= i < fs@.len() ==> #[trigger] spec_unnamed_explained(fs@, fs@.len())[i]
                    == spec_explained(fs@[i]))),
            ToolboxIdlTypeFull::Enum { variants, .. } => spec_explained(t) == JsonV::Object(
                seq![("variants"@, JsonV::Array(spec_variants_explained(variants@, variants@.len())))],
            ) && spec_variants_explained(variants@, variants@.len()).len() == variants@.len() && forall|i: int|
                0 <= i < variants@.len() ==> #[trigger] spec_variants_explained(variants@, variants@.len())[i]
                    == spec_variant_explained(variants@[i].0@, variants@[i].1),
            ToolboxIdlTypeFull::Padded { content, .. } => spec_explained(t) == spec_explained(*content),
            ToolboxIdlTypeFull::Const { literal } => spec_explained(t) == json_u64(literal),
            ToolboxIdlTypeFull::Primitive { primitive } => spec_explained(t) == JsonV::Str(
                primitive_name(primitive),
            ),
        },
{
    match t {
        ToolboxIdlTypeFull::Struct { fields } => {
            if let ToolboxIdlTypeFullFields::Unnamed(fs) = fields {
                lemma_explained_items(Seq::empty(), fs@, 0, fs@.len());
            }
        },
        ToolboxIdlTypeFull::Enum { variants, .. } => {
            lemma_explained_items(variants@, Seq::empty(), variants@.len(), 0);
        },
        _ => {},
    }
}

impl ToolboxIdlTypeFull {
    /// Explains, as JSON, the shape that a value of the type takes.
    pub fn explained(&self) -> (r: JsonValue)
        ensures
            r@ == spec_explained(*self),
        decreases self, 0nat,
    {
        match self {
            ToolboxIdlTypeFull::Option { content, .. } => {
                let mut entries: Vec<(String, JsonValue)> = Vec::new();
                entries.push((str_to_string("option"), content.explained()));
                let r = JsonValue::Object(entries);
                proof {
                    assert(r@->Object_0 =~= seq![("option"@, spec_explained(**content))]);
                }
                r
            },
            ToolboxIdlTypeFull::Vec { items, .. } => {
                let mut out: Vec<JsonValue> = Vec::new();
                out.push(items.explained());
                let r = JsonValue::Array(out);
                proof {
                    assert(r@->Array_0 =~= seq![spec_explained(**items)]);
                }
                r
            },
            ToolboxIdlTypeFull::Array { items, length } => {
                let mut out: Vec<JsonValue> = Vec::new();
                out.push(items.explained());
                out.push(JsonValue::Number(JsonNumber::PosInt(*length)));
                proof {
                    assert(json_seq_view(out@) =~= seq![spec_explained(**items), json_u64(*length)]);
                    lemma_array_view(out);
                }
                let r = JsonValue::Array(out);
                r
            },
            ToolboxIdlTypeFull::Struct { fields } => fields.explained(),
            ToolboxIdlTypeFull::Enum { variants, .. } => {
                let mut json_variants: Vec<JsonValue> = Vec::new();
                let mut i: usize = 0;
                while i < variants.len()
                    invariant
                        i <= variants.len(),
                        json_variants@.len() == i,
                        *self matches ToolboxIdlTypeFull::Enum { variants: vs, .. } && vs
                            == *variants,
                        forall|k: int|
                            0 <= k < i ==> #[trigger] json_variants@[k]@
                                == spec_variants_explained(variants@, i as nat)[k],
                        spec_variants_explained(variants@, i as nat).len() == i,
                    decreases variants.len() - i,
                {
                    let explained = match &variants[i].1 {
                        ToolboxIdlTypeFullFields::Nothing => JsonValue::Str(
                            str_to_string(variants[i].0.as_str()),
                        ),
                        fields => {
                            proof {
                                assert(decreases_to!(*self => (*self)->Enum_variants@[i as int].1));
                            }
                            let mut entries: Vec<(String, JsonValue)> = Vec::new();
                            entries.push((str_to_string(variants[i].0.as_str()), fields.explained()));
                            let e = JsonValue::Object(entries);
                            proof {
                                assert(e@->Object_0 =~= seq![(variants@[i as int].0@, spec_fields_explained(variants@[i as int].1))]);
                            }
                            e
                        },
                    };
                    json_variants.push(explained);
                    i = i + 1;
                }
                let mut entries: Vec<(String, JsonValue)> = Vec::new();
                proof {
                    assert(json_seq_view(json_variants@) =~= spec_variants_explained(variants@, variants@.len()));
                    lemma_array_view(json_variants);
                }
                let arr = JsonValue::Array(json_variants);
                entries.push((str_to_string("variants"), arr));
                let r = JsonValue::Object(entries);
                proof {
                    assert(r@->Object_0 =~= seq![("variants"@, arr@)]);
                }
                r
            },
            ToolboxIdlTypeFull::Padded { content, .. } => content.explained(),
            ToolboxIdlTypeFull::Const { literal } => JsonValue::Number(JsonNumber::PosInt(*literal)),
            ToolboxIdlTypeFull::Primitive { primitive } => JsonValue::Str(
                str_to_string(primitive.as_str()),
            ),
        }
    }
}

impl ToolboxIdlTypeFullFields {
    /// Explains, as JSON, the shape that values of the fields take.
    pub fn explained(&self) -> (r: JsonValue)
        ensures
            r@ == spec_fields_explained(*self),
        decreases self, 0nat,
    {
        match self {
            ToolboxIdlTypeFullFields::Nothing => JsonValue::Null,
            ToolboxIdlTypeFullFields::Named(fields) => {
                let mut json_fields: Vec<(String, JsonValue)> = Vec::new();
                let mut i: usize = 0;
                while i < fields.len()
                    invariant
                        i <= fields.len(),
                        *self == ToolboxIdlTypeFullFields::Named(*fields),
                        json_entries_view(json_fields@) == spec_named_explained(
                            fields@,
                            i as nat,
                        ),
                    decreases fields.len() - i,
                {
                    proof {
                        assert(decreases_to!(*self => (*self)->Named_0@[i as int].1));
                    }
                    let explained = fields[i].1.explained();
                    object_insert(&mut json_fields, str_to_string(fields[i].0.as_str()), explained);
                    i = i + 1;
                }
                proof {
                    lemma_object_view(json_fields);
                }
                JsonValue::Object(json_fields)
            },
            ToolboxIdlTypeFullFields::Unnamed(fields) => {
                let mut json_fields: Vec<JsonValue> = Vec::new();
                let mut i: usize = 0;
                while i < fields.len()
                    invariant
                        i <= fields.len(),
                        *self == ToolboxIdlTypeFullFields::Unnamed(*fields),
                        json_seq_view(json_fields@) == spec_unnamed_explained(
                            fields@,
                            i as nat,
                        ),
                    decreases fields.len() - i,
                {
                    proof {
                        assert(decreases_to!(*self => (*self)->Unnamed_0@[i as int]));
                    }
                    let explained = fields[i].explained();
                    let ghost prev = json_fields@;
                    json_fields.push(explained);
                    proof {
                        assert(json_seq_view(json_fields@) =~= json_seq_view(prev).push(explained@));
                    }
                    i = i + 1;
                }
                proof {
                    lemma_array_view(json_fields);
                }
                JsonValue::Array(json_fields)
            },
        }
    }
}

} // verus!
