//! What reading an IDL promises of its parts: resolving keeps prefix sizes,
//! typed seeds keep their type, the legacy names of flags and of public
//! keys are understood, and inline account fields are the content.
use vstd::prelude::*;

use crate::idl_account::spec_account;
use crate::idl_instruction::spec_discriminator;
use crate::idl_instruction_account::{spec_blob, spec_instruction_account, BlobV};
use crate::idl_parse_error::ToolboxIdlParseError;
use crate::idl_program_type::ProgramTypeV;
use crate::idl_type_flat::{FlatFieldsV, FlatV};
use crate::idl_type_flat_parse::{spec_parse_fields, spec_parse_value};
use crate::idl_type_full::FullV;
use crate::idl_type_full_hydrate::{spec_hydrate, spec_hydrate_variants};
use crate::idl_type_primitive::ToolboxIdlTypePrimitive;
use crate::json::{entries_get, entries_get_bool, entries_get_str, entries_get_u64, JsonV};

verus! {

/// Law: resolving an option, a vector or an enum keeps its length prefix
/// size, and resolving a padded type its padded size: it succeeds exactly
/// when its content (items, variants) resolves, and gives the same kind
/// with the same size around the resolved content.
pub proof fn law_hydrate_keeps_prefixes(
    prefix_bytes: u8,
    size_bytes: u64,
    inner: FlatV,
    variants: Seq<(Seq<char>, Option<JsonV>, FlatFieldsV)>,
    bindings: Seq<(Seq<char>, FullV)>,
    typedefs: Seq<ProgramTypeV>,
    fuel: nat,
)
    ensures
        ({
            let r = spec_hydrate(
                FlatV::Option { prefix_bytes, content: Box::new(inner) },
                bindings,
                typedefs,
                fuel,
            );
            &&& r is Ok <==> spec_hydrate(inner, bindings, typedefs, fuel) is Ok
            &&& r matches Ok(full) ==> full matches FullV::Option { prefix_bytes: p, content }
                && p == prefix_bytes && spec_hydrate(inner, bindings, typedefs, fuel) == Ok::<
                FullV,
                ToolboxIdlParseError,
            >(*content)
        }),
        ({
            let r = spec_hydrate(
                FlatV::Vec { prefix_bytes, items: Box::new(inner) },
                bindings,
                typedefs,
                fuel,
            );
            &&& r is Ok <==> spec_hydrate(inner, bindings, typedefs, fuel) is Ok
            &&& r matches Ok(full) ==> full matches FullV::Vec { prefix_bytes: p, items }
                && p == prefix_bytes && spec_hydrate(inner, bindings, typedefs, fuel) == Ok::<
                FullV,
                ToolboxIdlParseError,
            >(*items)
        }),
        ({
            let r = spec_hydrate(FlatV::Enum { prefix_bytes, variants }, bindings, typedefs, fuel);
            let vs = spec_hydrate_variants(variants, bindings, typedefs, fuel, variants.len());
            &&& r is Ok <==> vs is Ok
            &&& r matches Ok(full) ==> full matches FullV::Enum { prefix_bytes: p, variants: got }
                && p == prefix_bytes && vs == Ok::<Seq<(Seq<char>, crate::idl_type_full::FullFieldsV)>, ToolboxIdlParseError>(got)
        }),
        ({
            let r = spec_hydrate(
                FlatV::Padded { size_bytes, content: Box::new(inner) },
                bindings,
                typedefs,
                fuel,
            );
            &&& r is Ok <==> spec_hydrate(inner, bindings, typedefs, fuel) is Ok
            &&& r matches Ok(full) ==> full matches FullV::Padded { size_bytes: z, content }
                && z == size_bytes && spec_hydrate(inner, bindings, typedefs, fuel)
                == Ok::<FullV, ToolboxIdlParseError>(*content)
        }),
{
}

/// Law: a seed read at a path keeps its declared type: its typing is
/// present exactly when the seed has a `"type"`, and is then that type read
/// and resolved against the definitions; a seed of kind `"arg"` reads the
/// arguments, any other kind an account.
pub proof fn law_seed_typing(entries: Seq<(Seq<char>, JsonV)>, typedefs: Seq<ProgramTypeV>)
    requires
        entries_get(entries, "value"@) is None,
    ensures
        ({
            let r = spec_blob(JsonV::Object(entries), typedefs);
            let declared = entries_get(entries, "type"@);
            let typing = match r {
                Ok(BlobV::Account { typing, .. }) => typing,
                Ok(BlobV::Arg { typing, .. }) => typing,
                _ => None,
            };
            &&& r is Ok ==> entries_get_str(entries, "path"@) is Some
            &&& r is Ok ==> (r->Ok_0 is Arg <==> entries_get_str(entries, "kind"@) == Some("arg"@))
            &&& r is Ok ==> !(r->Ok_0 is Const)
            &&& r matches Ok(BlobV::Account { account, .. }) ==> account == entries_get_str(entries, "account"@)
            &&& r is Ok ==> (typing is Some <==> declared is Some)
            &&& r is Ok ==> (declared matches Some(t) ==> spec_parse_value(t) matches Ok(f) && spec_hydrate(
                f,
                Seq::empty(),
                typedefs,
                typedefs.len(),
            ) matches Ok(g) && typing == Some((f, g)))
        }),
{
}

/// Law: an instruction account's flags are read under their names, or else
/// under their legacy names (`isMut`, `isSigner`, `isOptional`), and are
/// false when neither holds a boolean.
pub proof fn law_instruction_account_flags(entries: Seq<(Seq<char>, JsonV)>, typedefs: Seq<ProgramTypeV>)
    ensures
        spec_instruction_account(JsonV::Object(entries), typedefs) matches Ok(a) ==> {
            &&& a.writable == match entries_get_bool(entries, "writable"@) {
                Some(b) => b,
                None => entries_get_bool(entries, "isMut"@) == Some(true),
            }
            &&& a.signer == match entries_get_bool(entries, "signer"@) {
                Some(b) => b,
                None => entries_get_bool(entries, "isSigner"@) == Some(true),
            }
            &&& a.optional == match entries_get_bool(entries, "optional"@) {
                Some(b) => b,
                None => entries_get_bool(entries, "isOptional"@) == Some(true),
            }
        },
{
}

/// Law: the strings that name the public key type are exactly `pubkey` and
/// its legacy spelling `publicKey`.
pub proof fn law_public_key_names(s: Seq<char>)
    ensures
        (spec_parse_value(JsonV::Str(s)) == Ok::<FlatV, ToolboxIdlParseError>(
            FlatV::Primitive { primitive: ToolboxIdlTypePrimitive::PublicKey },
        )) <==> (s == "publicKey"@ || s == "pubkey"@),
{
    reveal_strlit("pubkey");
    reveal_strlit("publicKey");
    reveal_strlit("bytes");
    reveal_strlit("u8");
    reveal_strlit("u16");
    reveal_strlit("u32");
    reveal_strlit("u64");
    reveal_strlit("u128");
    reveal_strlit("i8");
    reveal_strlit("i16");
    reveal_strlit("i32");
    reveal_strlit("i64");
    reveal_strlit("i128");
    reveal_strlit("f32");
    reveal_strlit("f64");
    reveal_strlit("bool");
    reveal_strlit("string");
    assert("pubkey"@[0] != "string"@[0]);
    assert("pubkey"@.len() != "bytes"@.len());
    assert("pubkey"@.len() != "u8"@.len());
    assert("pubkey"@.len() != "u16"@.len());
    assert("pubkey"@.len() != "u32"@.len());
    assert("pubkey"@.len() != "u64"@.len());
    assert("pubkey"@.len() != "u128"@.len());
    assert("pubkey"@.len() != "i8"@.len());
    assert("pubkey"@.len() != "i16"@.len());
    assert("pubkey"@.len() != "i32"@.len());
    assert("pubkey"@.len() != "i64"@.len());
    assert("pubkey"@.len() != "i128"@.len());
    assert("pubkey"@.len() != "f32"@.len());
    assert("pubkey"@.len() != "f64"@.len());
    assert("pubkey"@.len() != "bool"@.len());
    assert("publicKey"@.len() != "bytes"@.len());
    assert("publicKey"@.len() != "pubkey"@.len());
}

/// Law: an account described with a `"fields"` list (and no other kind key
/// before it) has as content the struct that those fields describe,
/// whatever the definitions; it is read whenever its discriminator, its
/// space and that struct are.
pub proof fn law_account_inline_fields(
    name: Seq<char>,
    entries: Seq<(Seq<char>, JsonV)>,
    fields: Seq<JsonV>,
    typedefs: Seq<ProgramTypeV>,
)
    requires
        entries_get(entries, "fields"@) == Some(JsonV::Array(fields)),
        entries_get(entries, "type"@) is None,
        entries_get(entries, "defined"@) is None,
        entries_get(entries, "generic"@) is None,
        entries_get(entries, "option"@) is None,
        entries_get(entries, "option8"@) is None,
        entries_get(entries, "option16"@) is None,
        entries_get(entries, "option32"@) is None,
        entries_get(entries, "vec"@) is None,
        entries_get(entries, "vec8"@) is None,
        entries_get(entries, "vec16"@) is None,
        entries_get(entries, "vec32"@) is None,
        entries_get(entries, "array"@) is None,
    ensures
        spec_account(name, JsonV::Object(entries), typedefs) matches Ok(a) ==> spec_parse_fields(fields)
            == Ok::<FlatFieldsV, ToolboxIdlParseError>(a.content_type_flat->Struct_fields)
            && a.content_type_flat is Struct,
        (spec_parse_fields(fields) matches Ok(f) && spec_discriminator("account:"@, name, entries) is Ok
            && !(entries_get_u64(entries, "space"@) matches Some(s) && s > usize::MAX) && spec_hydrate(
            FlatV::Struct { fields: f },
            Seq::empty(),
            typedefs,
            typedefs.len(),
        ) is Ok) ==> spec_account(name, JsonV::Object(entries), typedefs) is Ok,
{
}

} // verus!
