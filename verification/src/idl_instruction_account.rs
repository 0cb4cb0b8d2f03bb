//! The accounts of an IDL instruction: their flags, their fixed address, and
//! how their address is derived (PDA seeds and program), read from JSON.
use vstd::prelude::*;

use crate::endpoint::{pubkey_from_base58, pubkey_from_str, Pubkey};
use crate::idl_parse_error::ToolboxIdlParseError;
use crate::idl_path::{path_view, spec_path_parse, PathPartV, ToolboxIdlPath};
use crate::idl_program_type::{program_types_view, ProgramTypeV, ToolboxIdlProgramType};
use crate::idl_type_flat::{flat_view, FlatV, ToolboxIdlTypeFlat};
use crate::idl_type_flat_parse::{flat_result_view, spec_parse_value};
use crate::idl_type_full::{full_view, named_full_seq_view, FullV, ToolboxIdlTypeFull};
use crate::idl_type_full_hydrate::{full_result_view, spec_hydrate};
use crate::idl_utils::{idl_convert_to_snake_case, snake_case};
use crate::json::{
    entries_get,
    entries_get_array,
    entries_get_bool,
    entries_get_object,
    entries_get_str,
    json_as_array,
    json_as_object,
    json_as_str,
    json_entries_view,
    json_opt_view,
    json_seq_view,
    lemma_array_view,
    lemma_object_view,
    object_get,
    object_get_array,
    object_get_bool,
    object_get_object,
    object_get_str,
    str_eq,
    str_to_string,
    JsonV,
    JsonValue,
};

verus! {

/// One piece of a PDA derivation.
#[derive(Debug)]
pub enum ToolboxIdlInstructionAccountPdaBlob {
    /// A constant value of a given type.
    Const { type_flat: ToolboxIdlTypeFlat, type_full: ToolboxIdlTypeFull, value: JsonValue },
    /// A value found in the instruction's arguments.
    Arg { path: ToolboxIdlPath, typing: Option<(ToolboxIdlTypeFlat, ToolboxIdlTypeFull)> },
    /// A value found in an account's content.
    Account {
        account: Option<String>,
        path: ToolboxIdlPath,
        typing: Option<(ToolboxIdlTypeFlat, ToolboxIdlTypeFull)>,
    },
}

/// How an account's address is derived: seeds and, optionally, the program.
#[derive(Debug)]
pub struct ToolboxIdlInstructionAccountPda {
    pub seeds: Vec<ToolboxIdlInstructionAccountPdaBlob>,
    pub program: Option<ToolboxIdlInstructionAccountPdaBlob>,
}

/// An account of an instruction.
#[derive(Debug)]
pub struct ToolboxIdlInstructionAccount {
    pub name: String,
    pub docs: Option<JsonValue>,
    pub writable: bool,
    pub signer: bool,
    pub optional: bool,
    pub address: Option<Pubkey>,
    pub pda: Option<ToolboxIdlInstructionAccountPda>,
}

/// The view of a PDA piece.
pub enum BlobV {
    Const { type_flat: FlatV, type_full: FullV, value: JsonV },
    Arg { path: Seq<PathPartV>, typing: Option<(FlatV, FullV)> },
    Account { account: Option<Seq<char>>, path: Seq<PathPartV>, typing: Option<(FlatV, FullV)> },
}

/// The view of a PDA derivation.
pub struct PdaV {
    pub seeds: Seq<BlobV>,
    pub program: Option<BlobV>,
}

/// The view of an instruction account.
pub struct InstructionAccountV {
    pub name: Seq<char>,
    pub docs: Option<JsonV>,
    pub writable: bool,
    pub signer: bool,
    pub optional: bool,
    pub address: Option<Seq<u8>>,
    pub pda: Option<PdaV>,
}

pub open spec fn typing_view(t: Option<(ToolboxIdlTypeFlat, ToolboxIdlTypeFull)>) -> Option<
    (FlatV, FullV),
> {
    match t {
        Some((f, g)) => Some((flat_view(f), full_view(g))),
        None => None,
    }
}

pub open spec fn blob_view(b: ToolboxIdlInstructionAccountPdaBlob) -> BlobV {
    match b {
        ToolboxIdlInstructionAccountPdaBlob::Const { type_flat, type_full, value } => BlobV::Const {
            type_flat: flat_view(type_flat),
            type_full: full_view(type_full),
            value: value@,
        },
        ToolboxIdlInstructionAccountPdaBlob::Arg { path, typing } => BlobV::Arg {
            path: path_view(path),
            typing: typing_view(typing),
        },
        ToolboxIdlInstructionAccountPdaBlob::Account { account, path, typing } => BlobV::Account {
            account: match account {
                Some(a) => Some(a@),
                None => None,
            },
            path: path_view(path),
            typing: typing_view(typing),
        },
    }
}

pub open spec fn blobs_view(s: Seq<ToolboxIdlInstructionAccountPdaBlob>) -> Seq<BlobV> {
    Seq::new(s.len(), |i: int| blob_view(s[i]))
}

pub open spec fn pda_view(p: ToolboxIdlInstructionAccountPda) -> PdaV {
    PdaV {
        seeds: blobs_view(p.seeds@),
        program: match p.program {
            Some(b) => Some(blob_view(b)),
            None => None,
        },
    }
}

pub open spec fn instruction_account_view(a: ToolboxIdlInstructionAccount) -> InstructionAccountV {
    InstructionAccountV {
        name: a.name@,
        docs: json_opt_view(a.docs),
        writable: a.writable,
        signer: a.signer,
        optional: a.optional,
        address: match a.address {
            Some(p) => Some(p@),
            None => None,
        },
        pda: match a.pda {
            Some(p) => Some(pda_view(p)),
            None => None,
        },
    }
}

/// A type read from its description and resolved against the definitions.
pub open spec fn spec_typed(type_value: JsonV, typedefs: Seq<ProgramTypeV>) -> Result<
    (FlatV, FullV),
    ToolboxIdlParseError,
> {
    match spec_parse_value(type_value) {
        Err(e) => Err(e),
        Ok(f) => match spec_hydrate(f, Seq::empty(), typedefs, typedefs.len()) {
            Err(e) => Err(e),
            Ok(g) => Ok((f, g)),
        },
    }
}

/// The optional typing of a path piece.
pub open spec fn spec_typing(type_value: Option<JsonV>, typedefs: Seq<ProgramTypeV>) -> Result<
    Option<(FlatV, FullV)>,
    ToolboxIdlParseError,
> {
    match type_value {
        None => Ok(None),
        Some(t) => match spec_typed(t, typedefs) {
            Err(e) => Err(e),
            Ok(x) => Ok(Some(x)),
        },
    }
}

/// A constant piece: the value, of the type that `type_value` describes.
pub open spec fn spec_blob_const(value: JsonV, type_value: JsonV, typedefs: Seq<ProgramTypeV>) -> Result<
    BlobV,
    ToolboxIdlParseError,
> {
    match spec_typed(type_value, typedefs) {
        Err(e) => Err(e),
        Ok((f, g)) => Ok(BlobV::Const { type_flat: f, type_full: g, value }),
    }
}

/// A piece read from the instruction's arguments at `path`.
pub open spec fn spec_blob_arg(path: Seq<char>, type_value: Option<JsonV>, typedefs: Seq<ProgramTypeV>) -> Result<
    BlobV,
    ToolboxIdlParseError,
> {
    match spec_path_parse(path) {
        Err(_) => Err(ToolboxIdlParseError::InvalidPath),
        Ok(p) => match spec_typing(type_value, typedefs) {
            Err(e) => Err(e),
            Ok(typing) => Ok(BlobV::Arg { path: p, typing }),
        },
    }
}

/// A piece read from an account's content at `path`.
pub open spec fn spec_blob_account(
    account: Option<Seq<char>>,
    path: Seq<char>,
    type_value: Option<JsonV>,
    typedefs: Seq<ProgramTypeV>,
) -> Result<BlobV, ToolboxIdlParseError> {
    match spec_path_parse(path) {
        Err(_) => Err(ToolboxIdlParseError::InvalidPath),
        Ok(p) => match spec_typing(type_value, typedefs) {
            Err(e) => Err(e),
            Ok(typing) => Ok(BlobV::Account { account, path: p, typing }),
        },
    }
}

/// A PDA piece read from its description: an object with a `"value"` is a
/// constant (of type `"type"`, bytes by default); another object is read at
/// its `"path"`, from the arguments when its `"kind"` is `"arg"` and from an
/// account otherwise; an array is a constant of bytes, a string a constant
/// string.
pub open spec fn spec_blob(v: JsonV, typedefs: Seq<ProgramTypeV>) -> Result<
    BlobV,
    ToolboxIdlParseError,
> {
    match v {
        JsonV::Object(entries) => match entries_get(entries, "value"@) {
            Some(value) => spec_blob_const(
                value,
                match entries_get(entries, "type"@) {
                    Some(t) => t,
                    None => JsonV::Str("bytes"@),
                },
                typedefs,
            ),
            None => match entries_get_str(entries, "path"@) {
                None => Err(ToolboxIdlParseError::MissingString),
                Some(path) => if entries_get_str(entries, "kind"@) == Some("arg"@) {
                    spec_blob_arg(path, entries_get(entries, "type"@), typedefs)
                } else {
                    spec_blob_account(
                        entries_get_str(entries, "account"@),
                        path,
                        entries_get(entries, "type"@),
                        typedefs,
                    )
                },
            },
        },
        JsonV::Array(_) => spec_blob_const(v, JsonV::Str("bytes"@), typedefs),
        JsonV::Str(_) => spec_blob_const(v, JsonV::Str("string"@), typedefs),
        _ => Err(ToolboxIdlParseError::InvalidBlob),
    }
}

/// The first `n` seeds read in order, stopping at the first failure.
pub open spec fn spec_blobs(items: Seq<JsonV>, typedefs: Seq<ProgramTypeV>, n: nat) -> Result<
    Seq<BlobV>,
    ToolboxIdlParseError,
>
    decreases n,
{
    if n == 0 || n > items.len() {
        Ok(Seq::empty())
    } else {
        match spec_blobs(items, typedefs, (n - 1) as nat) {
            Err(e) => Err(e),
            Ok(prev) => match spec_blob(items[n - 1], typedefs) {
                Err(e) => Err(e),
                Ok(b) => Ok(prev.push(b)),
            },
        }
    }
}

/// The PDA derivation of an account object: none without a `"pda"` object;
/// otherwise its `"seeds"` (none without an array) and its `"program"`.
pub open spec fn spec_pda(entries: Seq<(Seq<char>, JsonV)>, typedefs: Seq<ProgramTypeV>) -> Result<
    Option<PdaV>,
    ToolboxIdlParseError,
> {
    match entries_get_object(entries, "pda"@) {
        None => Ok(None),
        Some(pda) => {
            let seeds = match entries_get_array(pda, "seeds"@) {
                Some(items) => spec_blobs(items, typedefs, items.len()),
                None => Ok(Seq::empty()),
            };
            match seeds {
                Err(e) => Err(e),
                Ok(seeds) => match entries_get(pda, "program"@) {
                    None => Ok(Some(PdaV { seeds, program: None })),
                    Some(p) => match spec_blob(p, typedefs) {
                        Err(e) => Err(e),
                        Ok(b) => Ok(Some(PdaV { seeds, program: Some(b) })),
                    },
                },
            }
        },
    }
}

/// The fixed address of an account object: none without an `"address"`
/// string, refused when the string is not a public key.
pub open spec fn spec_address(entries: Seq<(Seq<char>, JsonV)>) -> Result<
    Option<Seq<u8>>,
    ToolboxIdlParseError,
> {
    match entries_get_str(entries, "address"@) {
        None => Ok(None),
        Some(text) => match pubkey_from_base58(text) {
            None => Err(ToolboxIdlParseError::InvalidAddress),
            Some(bytes) => Ok(Some(bytes)),
        },
    }
}

/// A flag given under either of two keys (the first one winning), false
/// when neither holds a boolean.
pub open spec fn spec_flag(entries: Seq<(Seq<char>, JsonV)>, key: Seq<char>, alias: Seq<char>) -> bool {
    match entries_get_bool(entries, key) {
        Some(b) => b,
        None => match entries_get_bool(entries, alias) {
            Some(b) => b,
            None => false,
        },
    }
}

/// What reading an instruction account from its description gives.
pub open spec fn spec_instruction_account(v: JsonV, typedefs: Seq<ProgramTypeV>) -> Result<
    InstructionAccountV,
    ToolboxIdlParseError,
> {
    match json_as_object(v) {
        None => Err(ToolboxIdlParseError::ExpectedObject),
        Some(entries) => match entries_get_str(entries, "name"@) {
            None => Err(ToolboxIdlParseError::MissingName),
            Some(name) => match spec_address(entries) {
                Err(e) => Err(e),
                Ok(address) => match spec_pda(entries, typedefs) {
                    Err(e) => Err(e),
                    Ok(pda) => Ok(
                        InstructionAccountV {
                            name: snake_case(name),
                            docs: entries_get(entries, "docs"@),
                            writable: spec_flag(entries, "writable"@, "isMut"@),
                            signer: spec_flag(entries, "signer"@, "isSigner"@),
                            optional: spec_flag(entries, "optional"@, "isOptional"@),
                            address,
                            pda,
                        },
                    ),
                },
            },
        },
    }
}

/// Once reading seeds fails, reading a longer prefix fails the same way.
pub proof fn lemma_blobs_err_stable(items: Seq<JsonV>, typedefs: Seq<ProgramTypeV>, i: nat, n: nat)
    requires
        i <= n <= items.len(),
        spec_blobs(items, typedefs, i) is Err,
    ensures
        spec_blobs(items, typedefs, n) == spec_blobs(items, typedefs, i),
    decreases n - i,
{
    if i < n {
        lemma_blobs_err_stable(items, typedefs, i, (n - 1) as nat);
    }
}

/// Reads a type from its description and resolves it against the definitions.
fn try_parse_typed(type_value: &JsonValue, typedefs: &Vec<ToolboxIdlProgramType>) -> (r: Result<
    (ToolboxIdlTypeFlat, ToolboxIdlTypeFull),
    ToolboxIdlParseError,
>)
    ensures
        match r {
            Ok((f, g)) => spec_typed(type_value@, program_types_view(typedefs@)) == Ok::<
                (FlatV, FullV),
                ToolboxIdlParseError,
            >((flat_view(f), full_view(g))),
            Err(e) => spec_typed(type_value@, program_types_view(typedefs@)) == Err::<
                (FlatV, FullV),
                ToolboxIdlParseError,
            >(e),
        },
{
    let type_flat = match ToolboxIdlTypeFlat::try_parse_value(type_value) {
        Ok(t) => t,
        Err(e) => {
            return Err(e);
        },
    };
    let no_generics: Vec<(String, ToolboxIdlTypeFull)> = Vec::new();
    proof {
        assert(named_full_seq_view(no_generics@) =~= Seq::<(Seq<char>, FullV)>::empty());
    }
    match type_flat.try_hydrate(&no_generics, typedefs) {
        Ok(type_full) => Ok((type_flat, type_full)),
        Err(e) => Err(e),
    }
}

/// Reads the optional typing of a path piece.
fn try_parse_typing(type_value: Option<&JsonValue>, typedefs: &Vec<ToolboxIdlProgramType>) -> (r:
    Result<Option<(ToolboxIdlTypeFlat, ToolboxIdlTypeFull)>, ToolboxIdlParseError>)
    ensures
        match r {
            Ok(t) => spec_typing(
                match type_value {
                    Some(v) => Some(v@),
                    None => None,
                },
                program_types_view(typedefs@),
            ) == Ok::<Option<(FlatV, FullV)>, ToolboxIdlParseError>(typing_view(t)),
            Err(e) => spec_typing(
                match type_value {
                    Some(v) => Some(v@),
                    None => None,
                },
                program_types_view(typedefs@),
            ) == Err::<Option<(FlatV, FullV)>, ToolboxIdlParseError>(e),
        },
{
    match type_value {
        None => Ok(None),
        Some(v) => match try_parse_typed(v, typedefs) {
            Ok(x) => Ok(Some(x)),
            Err(e) => Err(e),
        },
    }
}

impl ToolboxIdlInstructionAccount {
    /// Reads an instruction account from its JSON description: its name (in
    /// snake_case), docs, flags, fixed address and PDA derivation.
    pub fn try_parse(
        idl_instruction_account: &JsonValue,
        typedefs: &Vec<ToolboxIdlProgramType>,
    ) -> (r: Result<ToolboxIdlInstructionAccount, ToolboxIdlParseError>)
        ensures
            match r {
                Ok(a) => spec_instruction_account(
                    idl_instruction_account@,
                    program_types_view(typedefs@),
                ) == Ok::<InstructionAccountV, ToolboxIdlParseError>(
                    instruction_account_view(a),
                ),
                Err(e) => spec_instruction_account(
                    idl_instruction_account@,
                    program_types_view(typedefs@),
                ) == Err::<InstructionAccountV, ToolboxIdlParseError>(e),
            },
    {
        let entries = match idl_instruction_account.as_object() {
            Some(entries) => entries,
            None => {
                return Err(ToolboxIdlParseError::ExpectedObject);
            },
        };
        let name = match object_get_str(entries, "name") {
            Some(name) => idl_convert_to_snake_case(name),
            None => {
                return Err(ToolboxIdlParseError::MissingName);
            },
        };
        let docs = match object_get(entries, "docs") {
            Some(d) => Some(d.deep_clone()),
            None => None,
        };
        let writable = Self::try_parse_flag(entries, "writable", "isMut");
        let signer = Self::try_parse_flag(entries, "signer", "isSigner");
        let optional = Self::try_parse_flag(entries, "optional", "isOptional");
        let address = match Self::try_parse_address(entries) {
            Ok(a) => a,
            Err(e) => {
                return Err(e);
            },
        };
        let pda = match Self::try_parse_pda(entries, typedefs) {
            Ok(p) => p,
            Err(e) => {
                return Err(e);
            },
        };
        Ok(ToolboxIdlInstructionAccount { name, docs, writable, signer, optional, address, pda })
    }

    /// Reads a flag under either of two keys, false by default.
    fn try_parse_flag(entries: &Vec<(String, JsonValue)>, key: &str, alias: &str) -> (r: bool)
        ensures
            r == spec_flag(json_entries_view(entries@), key@, alias@),
    {
        match object_get_bool(entries, key) {
            Some(b) => b,
            None => match object_get_bool(entries, alias) {
                Some(b) => b,
                None => false,
            },
        }
    }

    /// Reads the fixed address, if any.
    fn try_parse_address(entries: &Vec<(String, JsonValue)>) -> (r: Result<
        Option<Pubkey>,
        ToolboxIdlParseError,
    >)
        ensures
            match r {
                Ok(a) => spec_address(json_entries_view(entries@)) == Ok::<
                    Option<Seq<u8>>,
                    ToolboxIdlParseError,
                >(
                    match a {
                        Some(p) => Some(p@),
                        None => None,
                    },
                ),
                Err(e) => spec_address(json_entries_view(entries@)) == Err::<
                    Option<Seq<u8>>,
                    ToolboxIdlParseError,
                >(e),
            },
    {
        match object_get_str(entries, "address") {
            None => Ok(None),
            Some(text) => match pubkey_from_str(text) {
                Some(p) => Ok(Some(p)),
                None => Err(ToolboxIdlParseError::InvalidAddress),
            },
        }
    }

    /// Reads the PDA derivation, if any.
    fn try_parse_pda(entries: &Vec<(String, JsonValue)>, typedefs: &Vec<ToolboxIdlProgramType>) -> (r:
        Result<Option<ToolboxIdlInstructionAccountPda>, ToolboxIdlParseError>)
        ensures
            match r {
                Ok(p) => spec_pda(json_entries_view(entries@), program_types_view(typedefs@))
                    == Ok::<Option<PdaV>, ToolboxIdlParseError>(
                    match p {
                        Some(p) => Some(pda_view(p)),
                        None => None,
                    },
                ),
                Err(e) => spec_pda(json_entries_view(entries@), program_types_view(typedefs@))
                    == Err::<Option<PdaV>, ToolboxIdlParseError>(e),
            },
    {
        let ghost d = program_types_view(typedefs@);
        let pda = match object_get_object(entries, "pda") {
            None => {
                return Ok(None);
            },
            Some(pda) => pda,
        };
        let ghost pv = json_entries_view(pda@);
        let mut seeds: Vec<ToolboxIdlInstructionAccountPdaBlob> = Vec::new();
        proof {
            assert(blobs_view(seeds@) =~= Seq::<BlobV>::empty());
        }
        match object_get_array(pda, "seeds") {
            None => {},
            Some(items) => {
                let ghost xs = json_seq_view(items@);
                let mut i: usize = 0;
                while i < items.len()
                    invariant
                        i <= items.len(),
                        xs == json_seq_view(items@),
                        xs.len() == items@.len(),
                        d == program_types_view(typedefs@),
                        pv == json_entries_view(pda@),
                        entries_get_object(json_entries_view(entries@), "pda"@) == Some(pv),
                        entries_get_array(pv, "seeds"@) == Some(xs),
                        spec_blobs(xs, d, i as nat) == Ok::<Seq<BlobV>, ToolboxIdlParseError>(
                            blobs_view(seeds@),
                        ),
                    decreases items.len() - i,
                {
                    match Self::try_parse_pda_blob(&items[i], typedefs) {
                        Ok(b) => {
                            let ghost prev = seeds@;
                            seeds.push(b);
                            proof {
                                assert(blobs_view(seeds@) =~= blobs_view(prev).push(blob_view(b)));
                            }
                        },
                        Err(e) => {
                            proof {
                                lemma_blobs_err_stable(xs, d, (i + 1) as nat, xs.len());
                            }
                            return Err(e);
                        },
                    }
                    i = i + 1;
                }
            },
        }
        let program = match object_get(pda, "program") {
            None => None,
            Some(p) => match Self::try_parse_pda_blob(p, typedefs) {
                Ok(b) => Some(b),
                Err(e) => {
                    return Err(e);
                },
            },
        };
        Ok(Some(ToolboxIdlInstructionAccountPda { seeds, program }))
    }

    /// Reads one PDA piece.
    fn try_parse_pda_blob(blob: &JsonValue, typedefs: &Vec<ToolboxIdlProgramType>) -> (r: Result<
        ToolboxIdlInstructionAccountPdaBlob,
        ToolboxIdlParseError,
    >)
        ensures
            match r {
                Ok(b) => spec_blob(blob@, program_types_view(typedefs@)) == Ok::<
                    BlobV,
                    ToolboxIdlParseError,
                >(blob_view(b)),
                Err(e) => spec_blob(blob@, program_types_view(typedefs@)) == Err::<
                    BlobV,
                    ToolboxIdlParseError,
                >(e),
            },
    {
        match blob {
            JsonValue::Object(entries) => {
                proof {
                    lemma_object_view(*entries);
                }
                if let Some(value) = object_get(entries, "value") {
                    let bytes_type = JsonValue::Str(str_to_string("bytes"));
                    let type_value = match object_get(entries, "type") {
                        Some(t) => t,
                        None => &bytes_type,
                    };
                    return Self::try_parse_pda_blob_const_type_value(
                        value.deep_clone(),
                        type_value,
                        typedefs,
                    );
                }
                let path = match object_get_str(entries, "path") {
                    Some(path) => path,
                    None => {
                        return Err(ToolboxIdlParseError::MissingString);
                    },
                };
                let type_value = object_get(entries, "type");
                let is_arg = match object_get_str(entries, "kind") {
                    Some(kind) => str_eq(kind, "arg"),
                    None => false,
                };
                if is_arg {
                    return Self::try_parse_pda_blob_arg_path(path, type_value, typedefs);
                }
                let account = object_get_str(entries, "account");
                Self::try_parse_pda_blob_account_path(account, path, type_value, typedefs)
            },
            JsonValue::Array(_) => {
                let bytes_type = JsonValue::Str(str_to_string("bytes"));
                Self::try_parse_pda_blob_const_type_value(blob.deep_clone(), &bytes_type, typedefs)
            },
            JsonValue::Str(_) => {
                let string_type = JsonValue::Str(str_to_string("string"));
                Self::try_parse_pda_blob_const_type_value(blob.deep_clone(), &string_type, typedefs)
            },
            _ => Err(ToolboxIdlParseError::InvalidBlob),
        }
    }

    /// A constant piece: the value, of the type that `type_value` describes.
    fn try_parse_pda_blob_const_type_value(
        value: JsonValue,
        type_value: &JsonValue,
        typedefs: &Vec<ToolboxIdlProgramType>,
    ) -> (r: Result<ToolboxIdlInstructionAccountPdaBlob, ToolboxIdlParseError>)
        ensures
            match r {
                Ok(b) => spec_blob_const(value@, type_value@, program_types_view(typedefs@))
                    == Ok::<BlobV, ToolboxIdlParseError>(blob_view(b)),
                Err(e) => spec_blob_const(value@, type_value@, program_types_view(typedefs@))
                    == Err::<BlobV, ToolboxIdlParseError>(e),
            },
    {
        match try_parse_typed(type_value, typedefs) {
            Ok((type_flat, type_full)) => Ok(
                ToolboxIdlInstructionAccountPdaBlob::Const { type_flat, type_full, value },
            ),
            Err(e) => Err(e),
        }
    }

    /// A piece read from the instruction's arguments.
    fn try_parse_pda_blob_arg_path(
        path: &str,
        type_value: Option<&JsonValue>,
        typedefs: &Vec<ToolboxIdlProgramType>,
    ) -> (r: Result<ToolboxIdlInstructionAccountPdaBlob, ToolboxIdlParseError>)
        ensures
            match r {
                Ok(b) => spec_blob_arg(
                    path@,
                    match type_value {
                        Some(v) => Some(v@),
                        None => None,
                    },
                    program_types_view(typedefs@),
                ) == Ok::<BlobV, ToolboxIdlParseError>(blob_view(b)),
                Err(e) => spec_blob_arg(
                    path@,
                    match type_value {
                        Some(v) => Some(v@),
                        None => None,
                    },
                    program_types_view(typedefs@),
                ) == Err::<BlobV, ToolboxIdlParseError>(e),
            },
    {
        let path = match ToolboxIdlPath::try_parse(path) {
            Ok(p) => p,
            Err(_) => {
                return Err(ToolboxIdlParseError::InvalidPath);
            },
        };
        match try_parse_typing(type_value, typedefs) {
            Ok(typing) => Ok(ToolboxIdlInstructionAccountPdaBlob::Arg { path, typing }),
            Err(e) => Err(e),
        }
    }

    /// A piece read from an account's content.
    fn try_parse_pda_blob_account_path(
        account: Option<&str>,
        path: &str,
        type_value: Option<&JsonValue>,
        typedefs: &Vec<ToolboxIdlProgramType>,
    ) -> (r: Result<ToolboxIdlInstructionAccountPdaBlob, ToolboxIdlParseError>)
        ensures
            match r {
                Ok(b) => spec_blob_account(
                    match account {
                        Some(a) => Some(a@),
                        None => None,
                    },
                    path@,
                    match type_value {
                        Some(v) => Some(v@),
                        None => None,
                    },
                    program_types_view(typedefs@),
                ) == Ok::<BlobV, ToolboxIdlParseError>(blob_view(b)),
                Err(e) => spec_blob_account(
                    match account {
                        Some(a) => Some(a@),
                        None => None,
                    },
                    path@,
                    match type_value {
                        Some(v) => Some(v@),
                        None => None,
                    },
                    program_types_view(typedefs@),
                ) == Err::<BlobV, ToolboxIdlParseError>(e),
            },
    {
        let account = match account {
            Some(a) => Some(str_to_string(a)),
            None => None,
        };
        let path = match ToolboxIdlPath::try_parse(path) {
            Ok(p) => p,
            Err(_) => {
                return Err(ToolboxIdlParseError::InvalidPath);
            },
        };
        match try_parse_typing(type_value, typedefs) {
            Ok(typing) => Ok(ToolboxIdlInstructionAccountPdaBlob::Account { account, path, typing }),
            Err(e) => Err(e),
        }
    }
}

} // verus!
