use solana_toolbox::cli::ToolboxCliCommandAccountArgs;
use solana_toolbox::idl_error::ToolboxIdlError;
use solana_toolbox::idl_error::ToolboxIdlFormat;
use solana_toolbox::idl_path::ToolboxIdlPath;
use solana_toolbox::idl_path::ToolboxIdlPathError;
use solana_toolbox::idl_path::ToolboxIdlPathPart;
use solana_toolbox::idl_type_full::ToolboxIdlTypeFull;
use solana_toolbox::idl_type_full::ToolboxIdlTypeFullFields;
use solana_toolbox::idl_type_primitive::ToolboxIdlTypePrimitive;
use solana_toolbox::idl_utils::decimal_string;
use solana_toolbox::idl_utils::idl_convert_to_snake_case;
use solana_toolbox::idl_utils::idl_hash_discriminator_from_string;
use solana_toolbox::idl_utils::parse_u64_literal;
use solana_toolbox::json::JsonNumber;
use solana_toolbox::json::JsonValue;

fn s(text: &str) -> JsonValue {
    JsonValue::Str(text.to_string())
}

fn n(value: u64) -> JsonValue {
    JsonValue::Number(JsonNumber::PosInt(value))
}

fn arr(items: Vec<JsonValue>) -> JsonValue {
    JsonValue::Array(items)
}

fn obj(entries: Vec<(&str, JsonValue)>) -> JsonValue {
    JsonValue::Object(entries.into_iter().map(|(k, v)| (k.to_string(), v)).collect())
}

fn same<T: std::fmt::Debug>(a: &T, b: &T) -> bool {
    format!("{:?}", a) == format!("{:?}", b)
}

fn prim(p: ToolboxIdlTypePrimitive) -> ToolboxIdlTypeFull {
    ToolboxIdlTypeFull::Primitive { primitive: p }
}

#[test]
fn path_parse_export_roundtrip() {
    let path = ToolboxIdlPath::try_parse("params.metadata.0.bytes").unwrap();
    assert_eq!(path.parts.len(), 4);
    assert!(matches!(&path.parts[2], ToolboxIdlPathPart::Index(0)));
    assert!(matches!(&path.parts[1], ToolboxIdlPathPart::Key(k) if k == "metadata"));
    assert_eq!(path.export(), "params.metadata.0.bytes");
    let built = ToolboxIdlPath {
        parts: vec![ToolboxIdlPathPart::Key("a".to_string()), ToolboxIdlPathPart::Index(12)],
    };
    let reread = ToolboxIdlPath::try_parse(&built.export()).unwrap();
    assert!(same(&reread, &built));
    assert_eq!(ToolboxIdlPath::try_parse("a..b").unwrap_err(), ToolboxIdlPathError::EmptyPart);
    assert_eq!(ToolboxIdlPath::try_parse("").unwrap_err(), ToolboxIdlPathError::EmptyPart);
}

#[test]
fn path_get_json_value() {
    let value = obj(vec![("params", obj(vec![("list", arr(vec![n(5), n(6)]))]))]);
    let found = ToolboxIdlPath::try_parse("params.list.1").unwrap().try_get_json_value(&value).unwrap();
    assert!(same(found, &n(6)));
    let path = |t: &str| ToolboxIdlPath::try_parse(t).unwrap();
    assert_eq!(path("params.list.2").try_get_json_value(&value).unwrap_err(), ToolboxIdlPathError::IndexOutOfBounds);
    assert_eq!(path("params.list.x").try_get_json_value(&value).unwrap_err(), ToolboxIdlPathError::ExpectedIndex);
    assert_eq!(path("params.0").try_get_json_value(&value).unwrap_err(), ToolboxIdlPathError::ExpectedKey);
    assert_eq!(path("params.other").try_get_json_value(&value).unwrap_err(), ToolboxIdlPathError::KeyNotFound);
    assert_eq!(path("params.list.0.x").try_get_json_value(&value).unwrap_err(), ToolboxIdlPathError::NotAContainer);
}

#[test]
fn full_type_queries() {
    assert!(matches!(
        ToolboxIdlTypeFull::nothing(),
        ToolboxIdlTypeFull::Struct { fields: ToolboxIdlTypeFullFields::Nothing }
    ));
    let bytes = ToolboxIdlTypeFull::Vec { prefix_bytes: 4, items: Box::new(prim(ToolboxIdlTypePrimitive::U8)) };
    assert!(bytes.is_bytes());
    let short_bytes = ToolboxIdlTypeFull::Vec { prefix_bytes: 1, items: Box::new(prim(ToolboxIdlTypePrimitive::U8)) };
    assert!(!short_bytes.is_bytes());
    assert!(prim(ToolboxIdlTypePrimitive::Bool).is_primitive(&ToolboxIdlTypePrimitive::Bool));
    assert!(!prim(ToolboxIdlTypePrimitive::Bool).is_primitive(&ToolboxIdlTypePrimitive::U8));
    assert_eq!(ToolboxIdlTypeFull::Const { literal: 4 }.as_const_literal(), Some(&4));
    assert_eq!(prim(ToolboxIdlTypePrimitive::U8).as_const_literal(), None);
    let fields = ToolboxIdlTypeFullFields::Named(vec![("a".to_string(), prim(ToolboxIdlTypePrimitive::U8))]);
    let structure = ToolboxIdlTypeFull::Struct { fields };
    assert_eq!(structure.as_struct_fields().unwrap().as_named().unwrap().len(), 1);
    assert!(prim(ToolboxIdlTypePrimitive::U8).as_struct_fields().is_none());
    assert!(matches!(ToolboxIdlTypeFullFields::nothing(), ToolboxIdlTypeFullFields::Nothing));
    assert!(ToolboxIdlTypeFullFields::nothing().as_named().is_none());
}

#[test]
fn full_type_explained() {
    let t = ToolboxIdlTypeFull::Struct {
        fields: ToolboxIdlTypeFullFields::Named(vec![
            ("amount".to_string(), prim(ToolboxIdlTypePrimitive::U64)),
            (
                "kind".to_string(),
                ToolboxIdlTypeFull::Enum {
                    prefix_bytes: 1,
                    variants: vec![
                        ("A".to_string(), ToolboxIdlTypeFullFields::Nothing),
                        ("B".to_string(), ToolboxIdlTypeFullFields::Unnamed(vec![prim(ToolboxIdlTypePrimitive::U8)])),
                    ],
                },
            ),
            (
                "maybe".to_string(),
                ToolboxIdlTypeFull::Option { prefix_bytes: 1, content: Box::new(prim(ToolboxIdlTypePrimitive::Bool)) },
            ),
            (
                "list".to_string(),
                ToolboxIdlTypeFull::Array { items: Box::new(prim(ToolboxIdlTypePrimitive::U8)), length: 2 },
            ),
        ]),
    };
    let expected = obj(vec![
        ("amount", s("u64")),
        ("kind", obj(vec![("variants", arr(vec![s("A"), obj(vec![("B", arr(vec![s("u8")]))])]))])),
        ("maybe", obj(vec![("option", s("bool"))])),
        ("list", arr(vec![s("u8"), n(2)])),
    ]);
    assert!(same(&t.explained(), &expected));
}

#[test]
fn primitive_names_roundtrip() {
    let all = [
        ToolboxIdlTypePrimitive::U8,
        ToolboxIdlTypePrimitive::U16,
        ToolboxIdlTypePrimitive::U32,
        ToolboxIdlTypePrimitive::U64,
        ToolboxIdlTypePrimitive::U128,
        ToolboxIdlTypePrimitive::I8,
        ToolboxIdlTypePrimitive::I16,
        ToolboxIdlTypePrimitive::I32,
        ToolboxIdlTypePrimitive::I64,
        ToolboxIdlTypePrimitive::I128,
        ToolboxIdlTypePrimitive::F32,
        ToolboxIdlTypePrimitive::F64,
        ToolboxIdlTypePrimitive::Bool,
        ToolboxIdlTypePrimitive::String,
        ToolboxIdlTypePrimitive::PublicKey,
    ];
    for p in all {
        assert_eq!(ToolboxIdlTypePrimitive::try_parse(p.as_str()), Some(p));
    }
    assert_eq!(ToolboxIdlTypePrimitive::PublicKey.as_str(), "pubkey");
    assert_eq!(ToolboxIdlTypePrimitive::try_parse("u256"), None);
}

#[test]
fn utils_snake_case_numbers_hash() {
    assert_eq!(idl_convert_to_snake_case("myAccountName"), "my_account_name");
    assert_eq!(idl_convert_to_snake_case("Name"), "name");
    let once = idl_convert_to_snake_case("fundingGoalAmount");
    assert_eq!(idl_convert_to_snake_case(&once), once);
    assert_eq!(decimal_string(0), "0");
    assert_eq!(decimal_string(1234567890), "1234567890");
    assert_eq!(parse_u64_literal("+42"), Some(42));
    assert_eq!(parse_u64_literal("18446744073709551615"), Some(u64::MAX));
    assert_eq!(parse_u64_literal("18446744073709551616"), None);
    assert_eq!(parse_u64_literal("4a"), None);
    assert_eq!(parse_u64_literal(""), None);
    let expected = solana_sdk::hash::hash(b"global:my_ix").to_bytes()[..8].to_vec();
    assert_eq!(idl_hash_discriminator_from_string("global:", "my_ix"), expected);
}

#[test]
fn error_export_formats() {
    let error = ToolboxIdlError { name: "Oops".to_string(), code: 6000, msg: "".to_string() };
    let shortcut = ToolboxIdlFormat {
        can_shortcut_error_to_number_if_no_msg: true,
        use_object_for_unordered_named_array: false,
    };
    assert!(same(&error.export(&shortcut), &n(6000)));
    let full = ToolboxIdlFormat {
        can_shortcut_error_to_number_if_no_msg: false,
        use_object_for_unordered_named_array: false,
    };
    assert!(same(
        &error.export(&full),
        &obj(vec![("name", s("Oops")), ("code", n(6000)), ("msg", s(""))])
    ));
    let keyed = ToolboxIdlFormat {
        can_shortcut_error_to_number_if_no_msg: true,
        use_object_for_unordered_named_array: true,
    };
    let with_msg = ToolboxIdlError { name: "Oops".to_string(), code: 1, msg: "bad".to_string() };
    assert!(same(&with_msg.export(&keyed), &obj(vec![("code", n(1)), ("msg", s("bad"))])));
}

#[test]
fn cli_account_report() {
    let args = ToolboxCliCommandAccountArgs { address: "abc".to_string() };
    assert_eq!(args.address, "abc");
    let report = ToolboxCliCommandAccountArgs::report(
        "addr".to_string(),
        5,
        "owner".to_string(),
        "Program.Account".to_string(),
        obj(vec![("x", n(1))]),
        8,
        "https://example".to_string(),
    );
    assert!(same(
        &report,
        &obj(vec![
            ("address", s("addr")),
            ("lamports", n(5)),
            ("owner", s("owner")),
            ("name", s("Program.Account")),
            ("state", obj(vec![("x", n(1))])),
            ("space", n(8)),
            ("explorer_url", s("https://example")),
        ])
    ));
}
