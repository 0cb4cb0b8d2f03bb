//! The primitive types that an IDL can name.
use vstd::prelude::*;

use crate::json::str_eq;

verus! {

#[derive(Clone, Copy, Debug, PartialEq, Eq, Structural)]
pub enum ToolboxIdlTypePrimitive {
    U8,
    U16,
    U32,
    U64,
    U128,
    I8,
    I16,
    I32,
    I64,
    I128,
    F32,
    F64,
    Bool,
    String,
    PublicKey,
}

/// The name under which an IDL writes each primitive.
pub open spec fn primitive_name(p: ToolboxIdlTypePrimitive) -> Seq<char> {
    match p {
        ToolboxIdlTypePrimitive::U8 => "u8"@,
        ToolboxIdlTypePrimitive::U16 => "u16"@,
        ToolboxIdlTypePrimitive::U32 => "u32"@,
        ToolboxIdlTypePrimitive::U64 => "u64"@,
        ToolboxIdlTypePrimitive::U128 => "u128"@,
        ToolboxIdlTypePrimitive::I8 => "i8"@,
        ToolboxIdlTypePrimitive::I16 => "i16"@,
        ToolboxIdlTypePrimitive::I32 => "i32"@,
        ToolboxIdlTypePrimitive::I64 => "i64"@,
        ToolboxIdlTypePrimitive::I128 => "i128"@,
        ToolboxIdlTypePrimitive::F32 => "f32"@,
        ToolboxIdlTypePrimitive::F64 => "f64"@,
        ToolboxIdlTypePrimitive::Bool => "bool"@,
        ToolboxIdlTypePrimitive::String => "string"@,
        ToolboxIdlTypePrimitive::PublicKey => "pubkey"@,
    }
}

/// The primitive that a name denotes, if any.
pub open spec fn primitive_from_name(name: Seq<char>) -> Option<ToolboxIdlTypePrimitive> {
    if name == "u8"@ {
        Some(ToolboxIdlTypePrimitive::U8)
    } else if name == "u16"@ {
        Some(ToolboxIdlTypePrimitive::U16)
    } else if name == "u32"@ {
        Some(ToolboxIdlTypePrimitive::U32)
    } else if name == "u64"@ {
        Some(ToolboxIdlTypePrimitive::U64)
    } else if name == "u128"@ {
        Some(ToolboxIdlTypePrimitive::U128)
    } else if name == "i8"@ {
        Some(ToolboxIdlTypePrimitive::I8)
    } else if name == "i16"@ {
        Some(ToolboxIdlTypePrimitive::I16)
    } else if name == "i32"@ {
        Some(ToolboxIdlTypePrimitive::I32)
    } else if name == "i64"@ {
        Some(ToolboxIdlTypePrimitive::I64)
    } else if name == "i128"@ {
        Some(ToolboxIdlTypePrimitive::I128)
    } else if name == "f32"@ {
        Some(ToolboxIdlTypePrimitive::F32)
    } else if name == "f64"@ {
        Some(ToolboxIdlTypePrimitive::F64)
    } else if name == "bool"@ {
        Some(ToolboxIdlTypePrimitive::Bool)
    } else if name == "string"@ {
        Some(ToolboxIdlTypePrimitive::String)
    } else if name == "pubkey"@ {
        Some(ToolboxIdlTypePrimitive::PublicKey)
    } else {
        None
    }
}

impl ToolboxIdlTypePrimitive {
    pub fn try_parse(name: &str) -> (r: Option<ToolboxIdlTypePrimitive>)
        ensures
            r == primitive_from_name(name@),
    {
        if str_eq(name, "u8") {
            Some(ToolboxIdlTypePrimitive::U8)
        } else if str_eq(name, "u16") {
            Some(ToolboxIdlTypePrimitive::U16)
        } else if str_eq(name, "u32") {
            Some(ToolboxIdlTypePrimitive::U32)
        } else if str_eq(name, "u64") {
            Some(ToolboxIdlTypePrimitive::U64)
        } else if str_eq(name, "u128") {
            Some(ToolboxIdlTypePrimitive::U128)
        } else if str_eq(name, "i8") {
            Some(ToolboxIdlTypePrimitive::I8)
        } else if str_eq(name, "i16") {
            Some(ToolboxIdlTypePrimitive::I16)
        } else if str_eq(name, "i32") {
            Some(ToolboxIdlTypePrimitive::I32)
        } else if str_eq(name, "i64") {
            Some(ToolboxIdlTypePrimitive::I64)
        } else if str_eq(name, "i128") {
            Some(ToolboxIdlTypePrimitive::I128)
        } else if str_eq(name, "f32") {
            Some(ToolboxIdlTypePrimitive::F32)
        } else if str_eq(name, "f64") {
            Some(ToolboxIdlTypePrimitive::F64)
        } else if str_eq(name, "bool") {
            Some(ToolboxIdlTypePrimitive::Bool)
        } else if str_eq(name, "string") {
            Some(ToolboxIdlTypePrimitive::String)
        } else if str_eq(name, "pubkey") {
            Some(ToolboxIdlTypePrimitive::PublicKey)
        } else {
            None
        }
    }

    pub fn as_str(&self) -> (r: &'static str)
        ensures
            r@ == primitive_name(*self),
    {
        match self {
            ToolboxIdlTypePrimitive::U8 => "u8",
            ToolboxIdlTypePrimitive::U16 => "u16",
            ToolboxIdlTypePrimitive::U32 => "u32",
            ToolboxIdlTypePrimitive::U64 => "u64",
            ToolboxIdlTypePrimitive::U128 => "u128",
            ToolboxIdlTypePrimitive::I8 => "i8",
            ToolboxIdlTypePrimitive::I16 => "i16",
            ToolboxIdlTypePrimitive::I32 => "i32",
            ToolboxIdlTypePrimitive::I64 => "i64",
            ToolboxIdlTypePrimitive::I128 => "i128",
            ToolboxIdlTypePrimitive::F32 => "f32",
            ToolboxIdlTypePrimitive::F64 => "f64",
            ToolboxIdlTypePrimitive::Bool => "bool",
            ToolboxIdlTypePrimitive::String => "string",
            ToolboxIdlTypePrimitive::PublicKey => "pubkey",
        }
    }
}

/// The characters of each primitive name.
proof fn lemma_primitive_names_spelled()
    ensures
        "u8"@.len() == 2 && "u8"@[0] == 'u' && "u8"@[1] == '8',
        "u16"@.len() == 3 && "u16"@[0] == 'u' && "u16"@[1] == '1' && "u16"@[2] == '6',
        "u32"@.len() == 3 && "u32"@[0] == 'u' && "u32"@[1] == '3' && "u32"@[2] == '2',
        "u64"@.len() == 3 && "u64"@[0] == 'u' && "u64"@[1] == '6' && "u64"@[2] == '4',
        "u128"@.len() == 4 && "u128"@[0] == 'u' && "u128"@[1] == '1' && "u128"@[2] == '2' && "u128"@[3] == '8',
        "i8"@.len() == 2 && "i8"@[0] == 'i' && "i8"@[1] == '8',
        "i16"@.len() == 3 && "i16"@[0] == 'i' && "i16"@[1] == '1' && "i16"@[2] == '6',
        "i32"@.len() == 3 && "i32"@[0] == 'i' && "i32"@[1] == '3' && "i32"@[2] == '2',
        "i64"@.len() == 3 && "i64"@[0] == 'i' && "i64"@[1] == '6' && "i64"@[2] == '4',
        "i128"@.len() == 4 && "i128"@[0] == 'i' && "i128"@[1] == '1' && "i128"@[2] == '2' && "i128"@[3] == '8',
        "f32"@.len() == 3 && "f32"@[0] == 'f' && "f32"@[1] == '3' && "f32"@[2] == '2',
        "f64"@.len() == 3 && "f64"@[0] == 'f' && "f64"@[1] == '6' && "f64"@[2] == '4',
        "bool"@.len() == 4 && "bool"@[0] == 'b' && "bool"@[1] == 'o' && "bool"@[2] == 'o' && "bool"@[3] == 'l',
        "string"@.len() == 6 && "string"@[0] == 's' && "string"@[1] == 't' && "string"@[2] == 'r' && "string"@[3] == 'i' && "string"@[4] == 'n' && "string"@[5] == 'g',
        "pubkey"@.len() == 6 && "pubkey"@[0] == 'p' && "pubkey"@[1] == 'u' && "pubkey"@[2] == 'b' && "pubkey"@[3] == 'k' && "pubkey"@[4] == 'e' && "pubkey"@[5] == 'y',
{
    reveal_strlit("u8");
    assert("u8"@[0] == 'u' && "u8"@[1] == '8');
    reveal_strlit("u16");
    assert("u16"@[0] == 'u' && "u16"@[1] == '1' && "u16"@[2] == '6');
    reveal_strlit("u32");
    assert("u32"@[0] == 'u' && "u32"@[1] == '3' && "u32"@[2] == '2');
    reveal_strlit("u64");
    assert("u64"@[0] == 'u' && "u64"@[1] == '6' && "u64"@[2] == '4');
    reveal_strlit("u128");
    assert("u128"@[0] == 'u' && "u128"@[1] == '1' && "u128"@[2] == '2' && "u128"@[3] == '8');
    reveal_strlit("i8");
    assert("i8"@[0] == 'i' && "i8"@[1] == '8');
    reveal_strlit("i16");
    assert("i16"@[0] == 'i' && "i16"@[1] == '1' && "i16"@[2] == '6');
    reveal_strlit("i32");
    assert("i32"@[0] == 'i' && "i32"@[1] == '3' && "i32"@[2] == '2');
    reveal_strlit("i64");
    assert("i64"@[0] == 'i' && "i64"@[1] == '6' && "i64"@[2] == '4');
    reveal_strlit("i128");
    assert("i128"@[0] == 'i' && "i128"@[1] == '1' && "i128"@[2] == '2' && "i128"@[3] == '8');
    reveal_strlit("f32");
    assert("f32"@[0] == 'f' && "f32"@[1] == '3' && "f32"@[2] == '2');
    reveal_strlit("f64");
    assert("f64"@[0] == 'f' && "f64"@[1] == '6' && "f64"@[2] == '4');
    reveal_strlit("bool");
    assert("bool"@[0] == 'b' && "bool"@[1] == 'o' && "bool"@[2] == 'o' && "bool"@[3] == 'l');
    reveal_strlit("string");
    assert("string"@[0] == 's' && "string"@[1] == 't' && "string"@[2] == 'r' && "string"@[3] == 'i' && "string"@[4] == 'n' && "string"@[5] == 'g');
    reveal_strlit("pubkey");
    assert("pubkey"@[0] == 'p' && "pubkey"@[1] == 'u' && "pubkey"@[2] == 'b' && "pubkey"@[3] == 'k' && "pubkey"@[4] == 'e' && "pubkey"@[5] == 'y');
}

/// Every primitive is read back from the name it is written under.
pub proof fn law_primitive_name_roundtrip(p: ToolboxIdlTypePrimitive)
    ensures
        primitive_from_name(primitive_name(p)) == Some(p),
{
    lemma_primitive_names_spelled();
}

} // verus!
