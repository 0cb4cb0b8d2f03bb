//! A named type definition of a program's IDL, with its generic parameters.
use vstd::prelude::*;

use crate::idl_parse_error::ToolboxIdlParseError;
use crate::idl_type_flat::{flat_view, FlatV, ToolboxIdlTypeFlat};
use crate::idl_type_flat_parse::{flat_result_view, spec_parse_value};
use crate::idl_utils::{idl_value_as_str_or_object_with_name_as_str, name_of};
use crate::json::{json_get, json_as_array, lemma_array_view, str_to_string, JsonV, JsonValue};

verus! {

#[derive(Debug)]
pub struct ToolboxIdlProgramType {
    pub name: String,
    pub generics: Vec<String>,
    pub type_flat: ToolboxIdlTypeFlat,
}

/// The mathematical view of a type definition.
pub struct ProgramTypeV {
    pub name: Seq<char>,
    pub generics: Seq<Seq<char>>,
    pub type_flat: FlatV,
}

pub open spec fn strings_view(s: Seq<String>) -> Seq<Seq<char>> {
    Seq::new(s.len(), |i: int| s[i]@)
}

pub open spec fn program_type_view(t: ToolboxIdlProgramType) -> ProgramTypeV {
    ProgramTypeV {
        name: t.name@,
        generics: strings_view(t.generics@),
        type_flat: flat_view(t.type_flat),
    }
}

pub open spec fn program_types_view(s: Seq<ToolboxIdlProgramType>) -> Seq<ProgramTypeV> {
    Seq::new(s.len(), |i: int| program_type_view(s[i]))
}

/// The names of the first `n` generic parameters, stopping at the first one
/// that has no name.
pub open spec fn spec_generic_names(items: Seq<JsonV>, n: nat) -> Result<
    Seq<Seq<char>>,
    ToolboxIdlParseError,
>
    decreases n,
{
    if n == 0 || n > items.len() {
        Ok(Seq::empty())
    } else {
        match spec_generic_names(items, (n - 1) as nat) {
            Err(e) => Err(e),
            Ok(prev) => match name_of(items[n - 1]) {
                None => Err(ToolboxIdlParseError::MissingName),
                Some(name) => Ok(prev.push(name)),
            },
        }
    }
}

/// The generic parameters that a type description declares: none unless it
/// is an object with a `"generics"` array.
pub open spec fn spec_declared_generics(v: JsonV) -> Result<Seq<Seq<char>>, ToolboxIdlParseError> {
    match json_get(v, "generics"@) {
        Some(g) => match json_as_array(g) {
            Some(items) => spec_generic_names(items, items.len()),
            None => Ok(Seq::empty()),
        },
        None => Ok(Seq::empty()),
    }
}

/// What reading the definition named `name` from its description gives.
pub open spec fn spec_program_type_parse(name: Seq<char>, v: JsonV) -> Result<
    ProgramTypeV,
    ToolboxIdlParseError,
> {
    match spec_declared_generics(v) {
        Err(e) => Err(e),
        Ok(generics) => match spec_parse_value(v) {
            Err(e) => Err(e),
            Ok(type_flat) => Ok(ProgramTypeV { name, generics, type_flat }),
        },
    }
}

/// Once reading generic names fails, reading a longer prefix fails the same way.
pub proof fn lemma_generic_names_err_stable(items: Seq<JsonV>, i: nat, n: nat)
    requires
        i <= n <= items.len(),
        spec_generic_names(items, i) is Err,
    ensures
        spec_generic_names(items, n) == spec_generic_names(items, i),
    decreases n - i,
{
    if i < n {
        lemma_generic_names_err_stable(items, i, (n - 1) as nat);
    }
}

impl ToolboxIdlProgramType {
    /// Reads the definition named `idl_type_name` from its JSON description:
    /// its generic parameters, then its type.
    pub fn try_parse(idl_type_name: &str, idl_type: &JsonValue) -> (r: Result<
        ToolboxIdlProgramType,
        ToolboxIdlParseError,
    >)
        ensures
            match r {
                Ok(t) => spec_program_type_parse(idl_type_name@, idl_type@) == Ok::<
                    ProgramTypeV,
                    ToolboxIdlParseError,
                >(program_type_view(t)),
                Err(e) => spec_program_type_parse(idl_type_name@, idl_type@) == Err::<
                    ProgramTypeV,
                    ToolboxIdlParseError,
                >(e),
            },
    {
        let mut generics: Vec<String> = Vec::new();
        proof {
            assert(strings_view(generics@) =~= Seq::<Seq<char>>::empty());
        }
        let idl_generics: Option<&Vec<JsonValue>> = match idl_type {
            JsonValue::Object(entries) => {
                proof {
                    crate::json::lemma_object_view(*entries);
                }
                crate::json::object_get_array(entries, "generics")
            },
            _ => None,
        };
        proof {
            assert(spec_declared_generics(idl_type@) == match idl_generics {
                Some(items) => spec_generic_names(
                    crate::json::json_seq_view(items@),
                    items@.len(),
                ),
                None => Ok(Seq::empty()),
            }) by {
                match idl_generics {
                    Some(items) => {
                        lemma_array_view(*items);
                    },
                    None => {},
                }
            }
        }
        if let Some(items) = idl_generics {
            let ghost xs = crate::json::json_seq_view(items@);
            let mut i: usize = 0;
            while i < items.len()
                invariant
                    i <= items.len(),
                    xs == crate::json::json_seq_view(items@),
                    xs.len() == items@.len(),
                    spec_declared_generics(idl_type@) == spec_generic_names(xs, xs.len()),
                    spec_generic_names(xs, i as nat) == Ok::<
                        Seq<Seq<char>>,
                        ToolboxIdlParseError,
                    >(strings_view(generics@)),
                decreases items.len() - i,
            {
                match idl_value_as_str_or_object_with_name_as_str(&items[i]) {
                    Some(name) => {
                        let ghost prev = generics@;
                        generics.push(str_to_string(name));
                        proof {
                            assert(strings_view(generics@) =~= strings_view(prev).push(name@));
                        }
                    },
                    None => {
                        proof {
                            assert(xs[i as int] == items@[i as int]@);
                            lemma_generic_names_err_stable(xs, (i + 1) as nat, xs.len());
                        }
                        return Err(ToolboxIdlParseError::MissingName);
                    },
                }
                i = i + 1;
            }
        }
        let type_flat = match ToolboxIdlTypeFlat::try_parse_value(idl_type) {
            Ok(t) => t,
            Err(e) => {
                return Err(e);
            },
        };
        let r = ToolboxIdlProgramType { name: str_to_string(idl_type_name), generics, type_flat };
        proof {
            assert(flat_result_view(Ok(type_flat)) == Ok::<FlatV, ToolboxIdlParseError>(
                flat_view(type_flat),
            ));
        }
        Ok(r)
    }
}

} // verus!
