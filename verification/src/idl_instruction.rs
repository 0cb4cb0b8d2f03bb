//! An instruction of a program's IDL, read from JSON: its discriminator,
//! accounts, argument types and return type.
use vstd::prelude::*;

use crate::idl_instruction_account::{
    instruction_account_view,
    spec_instruction_account,
    InstructionAccountV,
    ToolboxIdlInstructionAccount,
};
use crate::idl_parse_error::ToolboxIdlParseError;
use crate::idl_program_type::{program_types_view, ProgramTypeV, ToolboxIdlProgramType};
use crate::idl_type_flat::{
    flat_fields_view,
    flat_view,
    FlatFieldsV,
    FlatV,
    ToolboxIdlTypeFlat,
    ToolboxIdlTypeFlatFields,
};
use crate::idl_type_flat_parse::{spec_parse_fields, spec_parse_value};
use crate::idl_type_full::{
    full_fields_view,
    full_view,
    named_full_seq_view,
    FullFieldsV,
    FullV,
    ToolboxIdlTypeFull,
    ToolboxIdlTypeFullFields,
};
use crate::idl_type_full_hydrate::{spec_hydrate, spec_hydrate_fields};
use crate::idl_utils::{
    idl_as_bytes,
    idl_hash_discriminator_from_string,
    spec_bytes_of,
    spec_hash_discriminator,
};
use crate::json::{
    entries_get,
    entries_get_array,
    json_as_object,
    json_entries_view,
    json_opt_view,
    json_seq_view,
    object_get,
    object_get_array,
    str_to_string,
    JsonV,
    JsonValue,
};

verus! {

/// An instruction of a program.
#[derive(Debug)]
pub struct ToolboxIdlInstruction {
    pub name: String,
    pub docs: Option<JsonValue>,
    pub discriminator: Vec<u8>,
    pub accounts: Vec<ToolboxIdlInstructionAccount>,
    pub args_type_flat_fields: ToolboxIdlTypeFlatFields,
    pub args_type_full_fields: ToolboxIdlTypeFullFields,
    pub return_type_flat: ToolboxIdlTypeFlat,
    pub return_type_full: ToolboxIdlTypeFull,
}

/// The view of an instruction.
pub struct InstructionV {
    pub name: Seq<char>,
    pub docs: Option<JsonV>,
    pub discriminator: Seq<u8>,
    pub accounts: Seq<InstructionAccountV>,
    pub args_type_flat_fields: FlatFieldsV,
    pub args_type_full_fields: FullFieldsV,
    pub return_type_flat: FlatV,
    pub return_type_full: FullV,
}

pub open spec fn instruction_accounts_view(s: Seq<ToolboxIdlInstructionAccount>) -> Seq<
    InstructionAccountV,
> {
    Seq::new(s.len(), |i: int| instruction_account_view(s[i]))
}

pub open spec fn instruction_view(i: ToolboxIdlInstruction) -> InstructionV {
    InstructionV {
        name: i.name@,
        docs: json_opt_view(i.docs),
        discriminator: i.discriminator@,
        accounts: instruction_accounts_view(i.accounts@),
        args_type_flat_fields: flat_fields_view(i.args_type_flat_fields),
        args_type_full_fields: full_fields_view(i.args_type_full_fields),
        return_type_flat: flat_view(i.return_type_flat),
        return_type_full: full_view(i.return_type_full),
    }
}

/// The discriminator of a named item: its `"discriminator"` bytes when it
/// gives an array (refused unless each entry is a byte), otherwise the
/// hash of `prefix` and the name.
pub open spec fn spec_discriminator(
    prefix: Seq<char>,
    name: Seq<char>,
    entries: Seq<(Seq<char>, JsonV)>,
) -> Result<Seq<u8>, ToolboxIdlParseError> {
    match entries_get_array(entries, "discriminator"@) {
        Some(items) => match spec_bytes_of(items, items.len()) {
            Some(bytes) => Ok(bytes),
            None => Err(ToolboxIdlParseError::InvalidByte),
        },
        None => Ok(spec_hash_discriminator(prefix, name)),
    }
}

/// The first `n` accounts read in order, stopping at the first failure.
pub open spec fn spec_instruction_accounts(
    items: Seq<JsonV>,
    typedefs: Seq<ProgramTypeV>,
    n: nat,
) -> Result<Seq<InstructionAccountV>, ToolboxIdlParseError>
    decreases n,
{
    if n == 0 || n > items.len() {
        Ok(Seq::empty())
    } else {
        match spec_instruction_accounts(items, typedefs, (n - 1) as nat) {
            Err(e) => Err(e),
            Ok(prev) => match spec_instruction_account(items[n - 1], typedefs) {
                Err(e) => Err(e),
                Ok(a) => Ok(prev.push(a)),
            },
        }
    }
}

/// The type that holds nothing, as flat and as full type.
pub open spec fn flat_nothing() -> FlatV {
    FlatV::Struct { fields: FlatFieldsV::Nothing }
}

/// What reading the instruction named `name` from its description gives:
/// the discriminator, the docs, the `"accounts"` array (required), the
/// `"args"` fields (none by default) and the `"returns"` type (nothing by
/// default), each type then resolved against the definitions.
pub open spec fn spec_instruction(name: Seq<char>, v: JsonV, typedefs: Seq<ProgramTypeV>) -> Result<
    InstructionV,
    ToolboxIdlParseError,
> {
    match json_as_object(v) {
        None => Err(ToolboxIdlParseError::ExpectedObject),
        Some(entries) => match spec_discriminator("global:"@, name, entries) {
            Err(e) => Err(e),
            Ok(discriminator) => match entries_get_array(entries, "accounts"@) {
                None => Err(ToolboxIdlParseError::ExpectedArray),
                Some(items) => match spec_instruction_accounts(items, typedefs, items.len()) {
                    Err(e) => Err(e),
                    Ok(accounts) => match (match entries_get_array(entries, "args"@) {
                        Some(args) => spec_parse_fields(args),
                        None => Ok(FlatFieldsV::Nothing),
                    }) {
                        Err(e) => Err(e),
                        Ok(args_flat) => match spec_hydrate_fields(
                            args_flat,
                            Seq::empty(),
                            typedefs,
                            typedefs.len(),
                        ) {
                            Err(e) => Err(e),
                            Ok(args_full) => match (match entries_get(entries, "returns"@) {
                                Some(r) => spec_parse_value(r),
                                None => Ok(flat_nothing()),
                            }) {
                                Err(e) => Err(e),
                                Ok(return_flat) => match spec_hydrate(
                                    return_flat,
                                    Seq::empty(),
                                    typedefs,
                                    typedefs.len(),
                                ) {
                                    Err(e) => Err(e),
                                    Ok(return_full) => Ok(
                                        InstructionV {
                                            name,
                                            docs: entries_get(entries, "docs"@),
                                            discriminator,
                                            accounts,
                                            args_type_flat_fields: args_flat,
                                            args_type_full_fields: args_full,
                                            return_type_flat: return_flat,
                                            return_type_full: return_full,
                                        },
                                    ),
                                },
                            },
                        },
                    },
                },
            },
        },
    }
}

/// Once reading accounts fails, reading a longer prefix fails the same way.
pub proof fn lemma_instruction_accounts_err_stable(
    items: Seq<JsonV>,
    typedefs: Seq<ProgramTypeV>,
    i: nat,
    n: nat,
)
    requires
        i <= n <= items.len(),
        spec_instruction_accounts(items, typedefs, i) is Err,
    ensures
        spec_instruction_accounts(items, typedefs, n) == spec_instruction_accounts(
            items,
            typedefs,
            i,
        ),
    decreases n - i,
{
    if i < n {
        lemma_instruction_accounts_err_stable(items, typedefs, i, (n - 1) as nat);
    }
}

/// Reads a discriminator: the given bytes, or the hash of `prefix` and `name`.
pub fn try_parse_discriminator(prefix: &str, name: &str, entries: &Vec<(String, JsonValue)>) -> (r:
    Result<Vec<u8>, ToolboxIdlParseError>)
    ensures
        match r {
            Ok(bytes) => spec_discriminator(prefix@, name@, json_entries_view(entries@)) == Ok::<
                Seq<u8>,
                ToolboxIdlParseError,
            >(bytes@),
            Err(e) => spec_discriminator(prefix@, name@, json_entries_view(entries@)) == Err::<
                Seq<u8>,
                ToolboxIdlParseError,
            >(e),
        },
{
    match object_get_array(entries, "discriminator") {
        Some(items) => match idl_as_bytes(items) {
            Some(bytes) => Ok(bytes),
            None => Err(ToolboxIdlParseError::InvalidByte),
        },
        None => Ok(idl_hash_discriminator_from_string(prefix, name)),
    }
}

impl ToolboxIdlInstruction {
    /// Reads the instruction named `idl_instruction_name` from its JSON
    /// description, resolving its types against `typedefs`.
    pub fn try_parse(
        idl_instruction_name: &str,
        idl_instruction: &JsonValue,
        typedefs: &Vec<ToolboxIdlProgramType>,
    ) -> (r: Result<ToolboxIdlInstruction, ToolboxIdlParseError>)
        ensures
            match r {
                Ok(i) => spec_instruction(
                    idl_instruction_name@,
                    idl_instruction@,
                    program_types_view(typedefs@),
                ) == Ok::<InstructionV, ToolboxIdlParseError>(instruction_view(i)),
                Err(e) => spec_instruction(
                    idl_instruction_name@,
                    idl_instruction@,
                    program_types_view(typedefs@),
                ) == Err::<InstructionV, ToolboxIdlParseError>(e),
            },
    {
        let entries = match idl_instruction.as_object() {
            Some(entries) => entries,
            None => {
                return Err(ToolboxIdlParseError::ExpectedObject);
            },
        };
        let discriminator = match try_parse_discriminator("global:", idl_instruction_name, entries) {
            Ok(d) => d,
            Err(e) => {
                return Err(e);
            },
        };
        let docs = match object_get(entries, "docs") {
            Some(d) => Some(d.deep_clone()),
            None => None,
        };
        let accounts = match Self::try_parse_accounts(entries, typedefs) {
            Ok(a) => a,
            Err(e) => {
                return Err(e);
            },
        };
        let args_type_flat_fields = match Self::try_parse_args_type_flat_fields(entries) {
            Ok(f) => f,
            Err(e) => {
                return Err(e);
            },
        };
        let no_generics: Vec<(String, ToolboxIdlTypeFull)> = Vec::new();
        proof {
            assert(named_full_seq_view(no_generics@) =~= Seq::<(Seq<char>, FullV)>::empty());
        }
        let args_type_full_fields = match args_type_flat_fields.try_hydrate(&no_generics, typedefs) {
            Ok(f) => f,
            Err(e) => {
                return Err(e);
            },
        };
        let return_type_flat = match Self::try_parse_return_type_flat(entries) {
            Ok(t) => t,
            Err(e) => {
                return Err(e);
            },
        };
        let return_type_full = match return_type_flat.try_hydrate(&no_generics, typedefs) {
            Ok(t) => t,
            Err(e) => {
                return Err(e);
            },
        };
        Ok(
            ToolboxIdlInstruction {
                name: str_to_string(idl_instruction_name),
                docs,
                discriminator,
                accounts,
                args_type_flat_fields,
                args_type_full_fields,
                return_type_flat,
                return_type_full,
            },
        )
    }

    /// Reads the `"accounts"` array.
    fn try_parse_accounts(
        entries: &Vec<(String, JsonValue)>,
        typedefs: &Vec<ToolboxIdlProgramType>,
    ) -> (r: Result<Vec<ToolboxIdlInstructionAccount>, ToolboxIdlParseError>)
        ensures
            match r {
                Ok(accounts) => entries_get_array(json_entries_view(entries@), "accounts"@) matches Some(
                    items,
                ) && spec_instruction_accounts(items, program_types_view(typedefs@), items.len())
                    == Ok::<Seq<InstructionAccountV>, ToolboxIdlParseError>(
                    instruction_accounts_view(accounts@),
                ),
                Err(e) => match entries_get_array(json_entries_view(entries@), "accounts"@) {
                    None => e == ToolboxIdlParseError::ExpectedArray,
                    Some(items) => spec_instruction_accounts(
                        items,
                        program_types_view(typedefs@),
                        items.len(),
                    ) == Err::<Seq<InstructionAccountV>, ToolboxIdlParseError>(e),
                },
            },
    {
        let ghost d = program_types_view(typedefs@);
        let items = match object_get_array(entries, "accounts") {
            Some(items) => items,
            None => {
                return Err(ToolboxIdlParseError::ExpectedArray);
            },
        };
        let ghost xs = json_seq_view(items@);
        let mut accounts: Vec<ToolboxIdlInstructionAccount> = Vec::new();
        proof {
            assert(instruction_accounts_view(accounts@) =~= Seq::<InstructionAccountV>::empty());
        }
        let mut i: usize = 0;
        while i < items.len()
            invariant
                i <= items.len(),
                xs == json_seq_view(items@),
                xs.len() == items@.len(),
                d == program_types_view(typedefs@),
                entries_get_array(json_entries_view(entries@), "accounts"@) == Some(xs),
                spec_instruction_accounts(xs, d, i as nat) == Ok::<
                    Seq<InstructionAccountV>,
                    ToolboxIdlParseError,
                >(instruction_accounts_view(accounts@)),
            decreases items.len() - i,
        {
            match ToolboxIdlInstructionAccount::try_parse(&items[i], typedefs) {
                Ok(a) => {
                    let ghost prev = accounts@;
                    accounts.push(a);
                    proof {
                        assert(instruction_accounts_view(accounts@) =~= instruction_accounts_view(
                            prev,
                        ).push(instruction_account_view(a)));
                    }
                },
                Err(e) => {
                    proof {
                        lemma_instruction_accounts_err_stable(xs, d, (i + 1) as nat, xs.len());
                    }
                    return Err(e);
                },
            }
            i = i + 1;
        }
        Ok(accounts)
    }

    /// Reads the `"args"` fields, none by default.
    fn try_parse_args_type_flat_fields(entries: &Vec<(String, JsonValue)>) -> (r: Result<
        ToolboxIdlTypeFlatFields,
        ToolboxIdlParseError,
    >)
        ensures
            crate::idl_type_flat_parse::flat_fields_result_view(r) == match entries_get_array(
                json_entries_view(entries@),
                "args"@,
            ) {
                Some(args) => spec_parse_fields(args),
                None => Ok(FlatFieldsV::Nothing),
            },
    {
        match object_get_array(entries, "args") {
            Some(args) => ToolboxIdlTypeFlatFields::try_parse(args),
            None => Ok(ToolboxIdlTypeFlatFields::Nothing),
        }
    }

    /// Reads the `"returns"` type, nothing by default.
    fn try_parse_return_type_flat(entries: &Vec<(String, JsonValue)>) -> (r: Result<
        ToolboxIdlTypeFlat,
        ToolboxIdlParseError,
    >)
        ensures
            crate::idl_type_flat_parse::flat_result_view(r) == match entries_get(
                json_entries_view(entries@),
                "returns"@,
            ) {
                Some(v) => spec_parse_value(v),
                None => Ok(flat_nothing()),
            },
    {
        match object_get(entries, "returns") {
            Some(v) => ToolboxIdlTypeFlat::try_parse_value(v),
            None => Ok(ToolboxIdlTypeFlat::nothing()),
        }
    }
}

} // verus!
