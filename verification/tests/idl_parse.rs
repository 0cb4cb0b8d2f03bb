use solana_toolbox::idl_account::ToolboxIdlAccount;
use solana_toolbox::idl_instruction::ToolboxIdlInstruction;
use solana_toolbox::idl_instruction_account::ToolboxIdlInstructionAccount;
use solana_toolbox::idl_instruction_account::ToolboxIdlInstructionAccountPdaBlob;
use solana_toolbox::idl_parse_error::ToolboxIdlParseError;
use solana_toolbox::idl_program_type::ToolboxIdlProgramType;
use solana_toolbox::idl_type_flat::ToolboxIdlTypeFlat;
use solana_toolbox::idl_type_flat::ToolboxIdlTypeFlatFields;
use solana_toolbox::idl_type_full::ToolboxIdlTypeFull;
use solana_toolbox::idl_type_full::ToolboxIdlTypeFullFields;
use solana_toolbox::idl_type_primitive::ToolboxIdlTypePrimitive;
use solana_toolbox::json::JsonNumber;
use solana_toolbox::json::JsonValue;

fn s(text: &str) -> JsonValue {
    JsonValue::Str(text.to_string())
}

fn n(value: u64) -> JsonValue {
    JsonValue::Number(JsonNumber::PosInt(value))
}

fn arr(items: Vec<JsonValue>) -> JsonValue {
    JsonValue::Array(items)
}

fn obj(entries: Vec<(&str, JsonValue)>) -> JsonValue {
    JsonValue::Object(entries.into_iter().map(|(k, v)| (k.to_string(), v)).collect())
}

fn same<T: std::fmt::Debug>(a: &T, b: &T) -> bool {
    format!("{:?}", a) == format!("{:?}", b)
}

fn prim(p: ToolboxIdlTypePrimitive) -> ToolboxIdlTypeFull {
    ToolboxIdlTypeFull::Primitive { primitive: p }
}

fn parse(v: &JsonValue) -> Result<ToolboxIdlTypeFlat, ToolboxIdlParseError> {
    ToolboxIdlTypeFlat::try_parse_value(v)
}

#[test]
fn parse_flat_shorthands() {
    assert!(same(
        &parse(&s("u8")).unwrap(),
        &ToolboxIdlTypeFlat::Primitive { primitive: ToolboxIdlTypePrimitive::U8 }
    ));
    assert!(same(
        &parse(&obj(vec![("vec", s("u8"))])).unwrap(),
        &ToolboxIdlTypeFlat::Vec {
            prefix_bytes: 4,
            items: Box::new(ToolboxIdlTypeFlat::Primitive { primitive: ToolboxIdlTypePrimitive::U8 }),
        }
    ));
    assert!(same(
        &parse(&obj(vec![("option32", s("bool"))])).unwrap(),
        &ToolboxIdlTypeFlat::Option {
            prefix_bytes: 4,
            content: Box::new(ToolboxIdlTypeFlat::Primitive { primitive: ToolboxIdlTypePrimitive::Bool }),
        }
    ));
    assert!(same(
        &parse(&arr(vec![s("u8"), n(4)])).unwrap(),
        &ToolboxIdlTypeFlat::Array {
            items: Box::new(ToolboxIdlTypeFlat::Primitive { primitive: ToolboxIdlTypePrimitive::U8 }),
            length: Box::new(ToolboxIdlTypeFlat::Const { literal: 4 }),
        }
    ));
    assert!(same(
        &parse(&obj(vec![("defined", s("Thing"))])).unwrap(),
        &ToolboxIdlTypeFlat::Defined { name: "Thing".to_string(), generics: vec![] }
    ));
    assert!(same(
        &parse(&obj(vec![("generic", s("T"))])).unwrap(),
        &ToolboxIdlTypeFlat::Generic { symbol: "T".to_string() }
    ));
    assert!(same(&parse(&n(7)).unwrap(), &ToolboxIdlTypeFlat::Const { literal: 7 }));
}

#[test]
fn parse_flat_errors() {
    assert_eq!(parse(&JsonValue::Null).unwrap_err(), ToolboxIdlParseError::UnexpectedValueKind);
    assert_eq!(parse(&obj(vec![("nothing", n(1))])).unwrap_err(), ToolboxIdlParseError::MissingTypeKey);
    assert_eq!(
        parse(&arr(vec![s("u8"), n(1), n(2)])).unwrap_err(),
        ToolboxIdlParseError::InvalidArrayFormat
    );
}

#[test]
fn parse_fields_named_and_unnamed() {
    let named = ToolboxIdlTypeFlatFields::try_parse(&vec![
        obj(vec![("name", s("firstValue")), ("type", s("u8"))]),
        obj(vec![("type", s("u16"))]),
    ])
    .unwrap();
    match named {
        ToolboxIdlTypeFlatFields::Named(fields) => {
            assert_eq!(fields[0].0, "first_value");
            assert_eq!(fields[1].0, "1");
        },
        _ => panic!("expected named fields"),
    }
    let unnamed = ToolboxIdlTypeFlatFields::try_parse(&vec![s("u8"), s("u16")]).unwrap();
    assert!(matches!(unnamed, ToolboxIdlTypeFlatFields::Unnamed(ref f) if f.len() == 2));
    let nothing = ToolboxIdlTypeFlatFields::try_parse(&vec![]).unwrap();
    assert!(matches!(nothing, ToolboxIdlTypeFlatFields::Nothing));
}

#[test]
fn program_type_generics() {
    let typedef = ToolboxIdlProgramType::try_parse(
        "Pair",
        &obj(vec![
            ("generics", arr(vec![s("A"), obj(vec![("name", s("B"))])])),
            (
                "fields",
                arr(vec![
                    obj(vec![("name", s("a")), ("type", obj(vec![("generic", s("A"))]))]),
                    obj(vec![("name", s("b")), ("type", obj(vec![("generic", s("B"))]))]),
                ]),
            ),
        ]),
    )
    .unwrap();
    assert_eq!(typedef.generics, vec!["A".to_string(), "B".to_string()]);
    assert_eq!(
        ToolboxIdlProgramType::try_parse("Bad", &obj(vec![("generics", arr(vec![n(1)])), ("type", s("u8"))]))
            .unwrap_err(),
        ToolboxIdlParseError::MissingName
    );
}

fn typedefs() -> Vec<ToolboxIdlProgramType> {
    vec![
        ToolboxIdlProgramType::try_parse(
            "Pair",
            &obj(vec![
                ("generics", arr(vec![s("A"), s("B")])),
                (
                    "fields",
                    arr(vec![
                        obj(vec![("name", s("a")), ("type", obj(vec![("generic", s("A"))]))]),
                        obj(vec![("name", s("b")), ("type", obj(vec![("generic", s("B"))]))]),
                    ]),
                ),
            ]),
        )
        .unwrap(),
        ToolboxIdlProgramType::try_parse(
            "Loop",
            &obj(vec![("fields", arr(vec![obj(vec![("name", s("next")), ("type", obj(vec![("option", obj(vec![("defined", s("Loop"))]))]))])]))]),
        )
        .unwrap(),
        ToolboxIdlProgramType::try_parse("Len", &n(3)).unwrap(),
    ]
}

#[test]
fn hydrate_generics_and_definitions() {
    let flat = parse(&obj(vec![(
        "defined",
        obj(vec![("name", s("Pair")), ("generics", arr(vec![s("u8"), s("bool")]))]),
    )]))
    .unwrap();
    let full = flat.try_hydrate(&vec![], &typedefs()).unwrap();
    assert!(same(
        &full,
        &ToolboxIdlTypeFull::Struct {
            fields: ToolboxIdlTypeFullFields::Named(vec![
                ("a".to_string(), prim(ToolboxIdlTypePrimitive::U8)),
                ("b".to_string(), prim(ToolboxIdlTypePrimitive::Bool)),
            ]),
        }
    ));
    let bound = parse(&obj(vec![("generic", s("T"))])).unwrap();
    let full = bound
        .try_hydrate(&vec![("T".to_string(), prim(ToolboxIdlTypePrimitive::I64))], &vec![])
        .unwrap();
    assert!(same(&full, &prim(ToolboxIdlTypePrimitive::I64)));
    let array = parse(&arr(vec![s("u8"), obj(vec![("defined", s("Len"))])])).unwrap();
    let full = array.try_hydrate(&vec![], &typedefs()).unwrap();
    assert!(same(
        &full,
        &ToolboxIdlTypeFull::Array { items: Box::new(prim(ToolboxIdlTypePrimitive::U8)), length: 3 }
    ));
}

#[test]
fn hydrate_errors() {
    let unknown = parse(&obj(vec![("defined", s("Nope"))])).unwrap();
    assert_eq!(unknown.try_hydrate(&vec![], &typedefs()).unwrap_err(), ToolboxIdlParseError::UnknownTypedef);
    let unbound = parse(&obj(vec![("generic", s("T"))])).unwrap();
    assert_eq!(unbound.try_hydrate(&vec![], &vec![]).unwrap_err(), ToolboxIdlParseError::UnknownGeneric);
    let arity = parse(&obj(vec![("defined", s("Pair"))])).unwrap();
    assert_eq!(arity.try_hydrate(&vec![], &typedefs()).unwrap_err(), ToolboxIdlParseError::GenericArity);
    let looping = parse(&obj(vec![("defined", s("Loop"))])).unwrap();
    assert_eq!(
        looping.try_hydrate(&vec![], &typedefs()).unwrap_err(),
        ToolboxIdlParseError::RecursiveTypedef
    );
    let not_const = parse(&arr(vec![s("u8"), s("u8")])).unwrap();
    assert_eq!(
        not_const.try_hydrate(&vec![], &vec![]).unwrap_err(),
        ToolboxIdlParseError::ArrayLengthNotConst
    );
}

#[test]
fn instruction_account_flags_and_address() {
    let key = solana_sdk::pubkey::Pubkey::new_unique();
    let account = ToolboxIdlInstructionAccount::try_parse(
        &obj(vec![
            ("name", s("myAccount")),
            ("isMut", JsonValue::Bool(true)),
            ("isSigner", JsonValue::Bool(false)),
            ("optional", JsonValue::Bool(true)),
            ("address", s(&key.to_string())),
        ]),
        &vec![],
    )
    .unwrap();
    assert_eq!(account.name, "my_account");
    assert!(account.writable);
    assert!(!account.signer);
    assert!(account.optional);
    assert_eq!(account.address.unwrap().bytes, key.to_bytes());
    assert!(account.pda.is_none());
    assert_eq!(
        ToolboxIdlInstructionAccount::try_parse(&obj(vec![("name", s("a")), ("address", s("bad!"))]), &vec![])
            .unwrap_err(),
        ToolboxIdlParseError::InvalidAddress
    );
    assert_eq!(
        ToolboxIdlInstructionAccount::try_parse(&obj(vec![("isMut", JsonValue::Bool(true))]), &vec![])
            .unwrap_err(),
        ToolboxIdlParseError::MissingName
    );
    assert_eq!(
        ToolboxIdlInstructionAccount::try_parse(&s("a"), &vec![]).unwrap_err(),
        ToolboxIdlParseError::ExpectedObject
    );
}

#[test]
fn instruction_account_pda_blobs() {
    let account = ToolboxIdlInstructionAccount::try_parse(
        &obj(vec![
            ("name", s("vault")),
            (
                "pda",
                obj(vec![
                    (
                        "seeds",
                        arr(vec![
                            obj(vec![("kind", s("const")), ("value", arr(vec![n(1), n(2)]))]),
                            obj(vec![("kind", s("arg")), ("path", s("params.index")), ("type", s("u64"))]),
                            obj(vec![("kind", s("account")), ("path", s("owner")), ("account", s("Campaign"))]),
                            s("seed"),
                        ]),
                    ),
                    ("program", arr(vec![n(9)])),
                ]),
            ),
        ]),
        &vec![],
    )
    .unwrap();
    let pda = account.pda.unwrap();
    assert_eq!(pda.seeds.len(), 4);
    match &pda.seeds[0] {
        ToolboxIdlInstructionAccountPdaBlob::Const { type_full, value, .. } => {
            assert!(type_full.is_bytes());
            assert!(same(value, &arr(vec![n(1), n(2)])));
        },
        _ => panic!("expected a constant seed"),
    }
    match &pda.seeds[1] {
        ToolboxIdlInstructionAccountPdaBlob::Arg { path, typing } => {
            assert_eq!(path.export(), "params.index");
            assert!(same(&typing.as_ref().unwrap().1, &prim(ToolboxIdlTypePrimitive::U64)));
        },
        _ => panic!("expected an argument seed"),
    }
    match &pda.seeds[2] {
        ToolboxIdlInstructionAccountPdaBlob::Account { account, path, typing } => {
            assert_eq!(account.as_deref(), Some("Campaign"));
            assert_eq!(path.export(), "owner");
            assert!(typing.is_none());
        },
        _ => panic!("expected an account seed"),
    }
    match &pda.seeds[3] {
        ToolboxIdlInstructionAccountPdaBlob::Const { type_full, .. } => {
            assert!(type_full.is_primitive(&ToolboxIdlTypePrimitive::String));
        },
        _ => panic!("expected a string seed"),
    }
    assert!(matches!(pda.program, Some(ToolboxIdlInstructionAccountPdaBlob::Const { .. })));
    assert_eq!(
        ToolboxIdlInstructionAccount::try_parse(
            &obj(vec![("name", s("a")), ("pda", obj(vec![("seeds", arr(vec![n(1)]))]))]),
            &vec![]
        )
        .unwrap_err(),
        ToolboxIdlParseError::InvalidBlob
    );
    assert_eq!(
        ToolboxIdlInstructionAccount::try_parse(
            &obj(vec![("name", s("a")), ("pda", obj(vec![("seeds", arr(vec![obj(vec![("kind", s("arg"))])]))]))]),
            &vec![]
        )
        .unwrap_err(),
        ToolboxIdlParseError::MissingString
    );
    assert_eq!(
        ToolboxIdlInstructionAccount::try_parse(
            &obj(vec![("name", s("a")), ("pda", obj(vec![("seeds", arr(vec![obj(vec![("path", s("a..b"))])]))]))]),
            &vec![]
        )
        .unwrap_err(),
        ToolboxIdlParseError::InvalidPath
    );
}

fn hashed(text: &str) -> Vec<u8> {
    solana_sdk::hash::hash(text.as_bytes()).to_bytes()[..8].to_vec()
}

#[test]
fn instruction_default_discriminator_and_types() {
    let instruction = ToolboxIdlInstruction::try_parse(
        "initialize",
        &obj(vec![("accounts", arr(vec![])), ("returns", s("u32"))]),
        &vec![],
    )
    .unwrap();
    assert_eq!(instruction.discriminator, hashed("global:initialize"));
    assert!(matches!(instruction.args_type_full_fields, ToolboxIdlTypeFullFields::Nothing));
    assert!(instruction.return_type_full.is_primitive(&ToolboxIdlTypePrimitive::U32));
    assert_eq!(
        ToolboxIdlInstruction::try_parse("x", &obj(vec![]), &vec![]).unwrap_err(),
        ToolboxIdlParseError::ExpectedArray
    );
    assert_eq!(
        ToolboxIdlInstruction::try_parse(
            "x",
            &obj(vec![("discriminator", arr(vec![n(256)])), ("accounts", arr(vec![]))]),
            &vec![]
        )
        .unwrap_err(),
        ToolboxIdlParseError::InvalidByte
    );
}

#[test]
fn account_discriminator_space_and_content() {
    let typedefs = vec![ToolboxIdlProgramType::try_parse(
        "Campaign",
        &obj(vec![("fields", arr(vec![obj(vec![("name", s("bump")), ("type", s("u8"))])]))]),
    )
    .unwrap()];
    let account = ToolboxIdlAccount::try_parse("Campaign", &obj(vec![("space", n(16))]), &typedefs).unwrap();
    assert_eq!(account.discriminator, hashed("account:Campaign"));
    assert_eq!(account.space, Some(16));
    assert!(same(
        &account.content_type_full,
        &ToolboxIdlTypeFull::Struct {
            fields: ToolboxIdlTypeFullFields::Named(vec![("bump".to_string(), prim(ToolboxIdlTypePrimitive::U8))]),
        }
    ));
    let inline = ToolboxIdlAccount::try_parse(
        "Other",
        &obj(vec![("discriminator", arr(vec![n(1), n(2)])), ("type", s("u16"))]),
        &vec![],
    )
    .unwrap();
    assert_eq!(inline.discriminator, vec![1, 2]);
    assert!(inline.content_type_full.is_primitive(&ToolboxIdlTypePrimitive::U16));
    assert_eq!(
        ToolboxIdlAccount::try_parse("Missing", &obj(vec![]), &vec![]).unwrap_err(),
        ToolboxIdlParseError::UnknownTypedef
    );
}
