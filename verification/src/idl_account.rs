//! An account type of a program's IDL, read from JSON: its discriminator,
//! size and content type.
use vstd::prelude::*;

use crate::idl_instruction::{flat_nothing, spec_discriminator, try_parse_discriminator};
use crate::idl_parse_error::ToolboxIdlParseError;
use crate::idl_program_type::{program_types_view, ProgramTypeV, ToolboxIdlProgramType};
use crate::idl_type_flat::{flat_view, FlatV, ToolboxIdlTypeFlat};
use crate::idl_type_flat_parse::{flat_result_view, spec_parse_object};
use crate::idl_type_full::{full_view, named_full_seq_view, FullV, ToolboxIdlTypeFull};
use crate::idl_type_full_hydrate::spec_hydrate;
use crate::json::{
    entries_get,
    entries_get_u64,
    entries_has,
    json_as_object,
    json_entries_view,
    json_opt_view,
    object_get,
    object_get_u64,
    object_has,
    str_to_string,
    JsonV,
    JsonValue,
};

verus! {

/// An account type of a program.
#[derive(Debug)]
pub struct ToolboxIdlAccount {
    pub name: String,
    pub docs: Option<JsonValue>,
    pub space: Option<usize>,
    pub discriminator: Vec<u8>,
    pub content_type_flat: ToolboxIdlTypeFlat,
    pub content_type_full: ToolboxIdlTypeFull,
}

/// The view of an account type.
pub struct AccountV {
    pub name: Seq<char>,
    pub docs: Option<JsonV>,
    pub space: Option<nat>,
    pub discriminator: Seq<u8>,
    pub content_type_flat: FlatV,
    pub content_type_full: FullV,
}

pub open spec fn account_view(a: ToolboxIdlAccount) -> AccountV {
    AccountV {
        name: a.name@,
        docs: json_opt_view(a.docs),
        space: match a.space {
            Some(s) => Some(s as nat),
            None => None,
        },
        discriminator: a.discriminator@,
        content_type_flat: flat_view(a.content_type_flat),
        content_type_full: full_view(a.content_type_full),
    }
}

/// Whether an account description holds its content type inline.
pub open spec fn spec_account_has_inline_type(entries: Seq<(Seq<char>, JsonV)>) -> bool {
    entries_has(entries, "type"@) || entries_has(entries, "defined"@) || entries_has(
        entries,
        "generic"@,
    ) || entries_has(entries, "option"@) || entries_has(entries, "option32"@) || entries_has(
        entries,
        "vec"@,
    ) || entries_has(entries, "array"@) || entries_has(entries, "fields"@) || entries_has(
        entries,
        "variants"@,
    ) || entries_has(entries, "padded"@)
}

/// The content type of an account: written inline, or else the definition
/// of the same name.
pub open spec fn spec_account_content(name: Seq<char>, entries: Seq<(Seq<char>, JsonV)>) -> Result<
    FlatV,
    ToolboxIdlParseError,
> {
    if spec_account_has_inline_type(entries) {
        spec_parse_object(entries)
    } else {
        Ok(FlatV::Defined { name, generics: Seq::empty() })
    }
}

/// What reading the account named `name` from its description gives: the
/// discriminator, the docs, the `"space"` (refused when it does not fit the
/// machine's word), and the content type resolved against the definitions.
pub open spec fn spec_account(name: Seq<char>, v: JsonV, typedefs: Seq<ProgramTypeV>) -> Result<
    AccountV,
    ToolboxIdlParseError,
> {
    match json_as_object(v) {
        None => Err(ToolboxIdlParseError::ExpectedObject),
        Some(entries) => match spec_discriminator("account:"@, name, entries) {
            Err(e) => Err(e),
            Ok(discriminator) => {
                let space = entries_get_u64(entries, "space"@);
                if space matches Some(s) && s > usize::MAX {
                    Err(ToolboxIdlParseError::InvalidInteger)
                } else {
                    match spec_account_content(name, entries) {
                        Err(e) => Err(e),
                        Ok(flat) => match spec_hydrate(flat, Seq::empty(), typedefs, typedefs.len()) {
                            Err(e) => Err(e),
                            Ok(full) => Ok(
                                AccountV {
                                    name,
                                    docs: entries_get(entries, "docs"@),
                                    space: match space {
                                        Some(s) => Some(s as nat),
                                        None => None,
                                    },
                                    discriminator,
                                    content_type_flat: flat,
                                    content_type_full: full,
                                },
                            ),
                        },
                    }
                }
            },
        },
    }
}

impl ToolboxIdlAccount {
    /// Reads the account type named `idl_account_name` from its JSON
    /// description, resolving its content type against `typedefs`.
    pub fn try_parse(
        idl_account_name: &str,
        idl_account: &JsonValue,
        typedefs: &Vec<ToolboxIdlProgramType>,
    ) -> (r: Result<ToolboxIdlAccount, ToolboxIdlParseError>)
        ensures
            match r {
                Ok(a) => spec_account(
                    idl_account_name@,
                    idl_account@,
                    program_types_view(typedefs@),
                ) == Ok::<AccountV, ToolboxIdlParseError>(account_view(a)),
                Err(e) => spec_account(
                    idl_account_name@,
                    idl_account@,
                    program_types_view(typedefs@),
                ) == Err::<AccountV, ToolboxIdlParseError>(e),
            },
    {
        let entries = match idl_account.as_object() {
            Some(entries) => entries,
            None => {
                return Err(ToolboxIdlParseError::ExpectedObject);
            },
        };
        let discriminator = match try_parse_discriminator("account:", idl_account_name, entries) {
            Ok(d) => d,
            Err(e) => {
                return Err(e);
            },
        };
        let docs = match object_get(entries, "docs") {
            Some(d) => Some(d.deep_clone()),
            None => None,
        };
        let space: Option<usize> = match object_get_u64(entries, "space") {
            Some(s) => {
                if s > usize::MAX as u64 {
                    return Err(ToolboxIdlParseError::InvalidInteger);
                }
                Some(s as usize)
            },
            None => None,
        };
        let content_type_flat = match Self::try_parse_data_type_flat(idl_account_name, entries) {
            Ok(t) => t,
            Err(e) => {
                return Err(e);
            },
        };
        let no_generics: Vec<(String, ToolboxIdlTypeFull)> = Vec::new();
        proof {
            assert(named_full_seq_view(no_generics@) =~= Seq::<(Seq<char>, FullV)>::empty());
        }
        let content_type_full = match content_type_flat.try_hydrate(&no_generics, typedefs) {
            Ok(t) => t,
            Err(e) => {
                return Err(e);
            },
        };
        Ok(
            ToolboxIdlAccount {
                name: str_to_string(idl_account_name),
                docs,
                space,
                discriminator,
                content_type_flat,
                content_type_full,
            },
        )
    }

    /// Reads the content type: inline, or the definition of the same name.
    fn try_parse_data_type_flat(idl_account_name: &str, entries: &Vec<(String, JsonValue)>) -> (r:
        Result<ToolboxIdlTypeFlat, ToolboxIdlParseError>)
        ensures
            flat_result_view(r) == spec_account_content(
                idl_account_name@,
                json_entries_view(entries@),
            ),
    {
        if object_has(entries, "type") || object_has(entries, "defined") || object_has(
            entries,
            "generic",
        ) || object_has(entries, "option") || object_has(entries, "option32") || object_has(
            entries,
            "vec",
        ) || object_has(entries, "array") || object_has(entries, "fields") || object_has(
            entries,
            "variants",
        ) || object_has(entries, "padded") {
            return ToolboxIdlTypeFlat::try_parse_object(entries);
        }
        let generics: Vec<ToolboxIdlTypeFlat> = Vec::new();
        let r = ToolboxIdlTypeFlat::Defined { name: str_to_string(idl_account_name), generics };
        proof {
            assert(flat_view(r)->Defined_generics =~= Seq::<FlatV>::empty());
        }
        Ok(r)
    }
}

} // verus!
