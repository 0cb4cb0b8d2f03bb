//! IDL types as they are written ("flat": definitions and generic parameters
//! are still referred to by name), and their mathematical view.
use vstd::prelude::*;

use crate::idl_type_primitive::ToolboxIdlTypePrimitive;
use crate::json::{json_opt_view, JsonV, JsonValue};

verus! {

#[derive(Debug)]
pub enum ToolboxIdlTypeFlat {
    Defined { name: String, generics: Vec<ToolboxIdlTypeFlat> },
    Generic { symbol: String },
    Option { prefix_bytes: u8, content: Box<ToolboxIdlTypeFlat> },
    Vec { prefix_bytes: u8, items: Box<ToolboxIdlTypeFlat> },
    Array { items: Box<ToolboxIdlTypeFlat>, length: Box<ToolboxIdlTypeFlat> },
    Struct { fields: ToolboxIdlTypeFlatFields },
    Enum {
        prefix_bytes: u8,
        variants: Vec<(String, Option<JsonValue>, ToolboxIdlTypeFlatFields)>,
    },
    Padded { size_bytes: u64, content: Box<ToolboxIdlTypeFlat> },
    Const { literal: u64 },
    Primitive { primitive: ToolboxIdlTypePrimitive },
}

#[derive(Debug)]
pub enum ToolboxIdlTypeFlatFields {
    Nothing,
    Named(Vec<(String, Option<JsonValue>, ToolboxIdlTypeFlat)>),
    Unnamed(Vec<(Option<JsonValue>, ToolboxIdlTypeFlat)>),
}

/// The mathematical view of a flat type.
pub enum FlatV {
    Defined { name: Seq<char>, generics: Seq<FlatV> },
    Generic { symbol: Seq<char> },
    Option { prefix_bytes: u8, content: Box<FlatV> },
    Vec { prefix_bytes: u8, items: Box<FlatV> },
    Array { items: Box<FlatV>, length: Box<FlatV> },
    Struct { fields: FlatFieldsV },
    Enum { prefix_bytes: u8, variants: Seq<(Seq<char>, Option<JsonV>, FlatFieldsV)> },
    Padded { size_bytes: u64, content: Box<FlatV> },
    Const { literal: u64 },
    Primitive { primitive: ToolboxIdlTypePrimitive },
}

/// The mathematical view of the fields of a flat struct or enum variant.
pub enum FlatFieldsV {
    Nothing,
    Named(Seq<(Seq<char>, Option<JsonV>, FlatV)>),
    Unnamed(Seq<(Option<JsonV>, FlatV)>),
}

pub open spec fn flat_view(t: ToolboxIdlTypeFlat) -> FlatV
    decreases t,
{
    match t {
        ToolboxIdlTypeFlat::Defined { name, generics } => FlatV::Defined {
            name: name@,
            generics: Seq::new(
                generics@.len(),
                |i: int|
                    if 0 <= i < generics@.len() {
                        proof {
                            assert(decreases_to!(t => generics@[i]));
                        }
                        flat_view(generics@[i])
                    } else {
                        FlatV::Const { literal: 0 }
                    },
            ),
        },
        ToolboxIdlTypeFlat::Generic { symbol } => FlatV::Generic { symbol: symbol@ },
        ToolboxIdlTypeFlat::Option { prefix_bytes, content } => FlatV::Option {
            prefix_bytes,
            content: Box::new(flat_view(*content)),
        },
        ToolboxIdlTypeFlat::Vec { prefix_bytes, items } => FlatV::Vec {
            prefix_bytes,
            items: Box::new(flat_view(*items)),
        },
        ToolboxIdlTypeFlat::Array { items, length } => FlatV::Array {
            items: Box::new(flat_view(*items)),
            length: Box::new(flat_view(*length)),
        },
        ToolboxIdlTypeFlat::Struct { fields } => FlatV::Struct { fields: flat_fields_view(fields) },
        ToolboxIdlTypeFlat::Enum { prefix_bytes, variants } => FlatV::Enum {
            prefix_bytes,
            variants: Seq::new(
                variants@.len(),
                |i: int|
                    if 0 <= i < variants@.len() {
                        proof {
                            assert(decreases_to!(t => variants@[i].2));
                        }
                        (
                            variants@[i].0@,
                            json_opt_view(variants@[i].1),
                            flat_fields_view(variants@[i].2),
                        )
                    } else {
                        (Seq::empty(), None, FlatFieldsV::Nothing)
                    },
            ),
        },
        ToolboxIdlTypeFlat::Padded { size_bytes, content } => FlatV::Padded {
            size_bytes,
            content: Box::new(flat_view(*content)),
        },
        ToolboxIdlTypeFlat::Const { literal } => FlatV::Const { literal },
        ToolboxIdlTypeFlat::Primitive { primitive } => FlatV::Primitive { primitive },
    }
}

pub open spec fn flat_fields_view(f: ToolboxIdlTypeFlatFields) -> FlatFieldsV
    decreases f,
{
    match f {
        ToolboxIdlTypeFlatFields::Nothing => FlatFieldsV::Nothing,
        ToolboxIdlTypeFlatFields::Named(fields) => FlatFieldsV::Named(
            Seq::new(
                fields@.len(),
                |i: int|
                    if 0 <= i < fields@.len() {
                        proof {
                            assert(decreases_to!(f => fields@[i].2));
                        }
                        (fields@[i].0@, json_opt_view(fields@[i].1), flat_view(fields@[i].2))
                    } else {
                        (Seq::empty(), None, FlatV::Const { literal: 0 })
                    },
            ),
        ),
        ToolboxIdlTypeFlatFields::Unnamed(fields) => FlatFieldsV::Unnamed(
            Seq::new(
                fields@.len(),
                |i: int|
                    if 0 <= i < fields@.len() {
                        proof {
                            assert(decreases_to!(f => fields@[i].1));
                        }
                        (json_opt_view(fields@[i].0), flat_view(fields@[i].1))
                    } else {
                        (None, FlatV::Const { literal: 0 })
                    },
            ),
        ),
    }
}

/// The views of a list of flat types.
pub open spec fn flat_seq_view(s: Seq<ToolboxIdlTypeFlat>) -> Seq<FlatV> {
    Seq::new(s.len(), |i: int| flat_view(s[i]))
}

/// The views of a list of named fields (or enum variants' names, docs and fields).
pub open spec fn named_flat_seq_view(s: Seq<(String, Option<JsonValue>, ToolboxIdlTypeFlat)>) -> Seq<
    (Seq<char>, Option<JsonV>, FlatV),
> {
    Seq::new(s.len(), |i: int| (s[i].0@, json_opt_view(s[i].1), flat_view(s[i].2)))
}

/// The views of a list of unnamed fields.
pub open spec fn unnamed_flat_seq_view(s: Seq<(Option<JsonValue>, ToolboxIdlTypeFlat)>) -> Seq<
    (Option<JsonV>, FlatV),
> {
    Seq::new(s.len(), |i: int| (json_opt_view(s[i].0), flat_view(s[i].1)))
}

/// The views of a list of enum variants.
pub open spec fn variants_flat_seq_view(
    s: Seq<(String, Option<JsonValue>, ToolboxIdlTypeFlatFields)>,
) -> Seq<(Seq<char>, Option<JsonV>, FlatFieldsV)> {
    Seq::new(s.len(), |i: int| (s[i].0@, json_opt_view(s[i].1), flat_fields_view(s[i].2)))
}

impl ToolboxIdlTypeFlat {
    /// The type that holds nothing: a struct without fields.
    pub fn nothing() -> (r: ToolboxIdlTypeFlat)
        ensures
            flat_view(r) == (FlatV::Struct { fields: FlatFieldsV::Nothing }),
    {
        proof {
            assert(flat_fields_view(ToolboxIdlTypeFlatFields::Nothing) == FlatFieldsV::Nothing);
        }
        ToolboxIdlTypeFlat::Struct { fields: ToolboxIdlTypeFlatFields::Nothing }
    }
}

} // verus!
