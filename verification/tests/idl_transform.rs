use solana_toolbox::idl_instruction::ToolboxIdlInstruction;
use solana_toolbox::idl_program_type::ToolboxIdlProgramType;
use solana_toolbox::idl_transform_error::ToolboxIdlTransformError;
use solana_toolbox::idl_type_flat::ToolboxIdlTypeFlat;
use solana_toolbox::idl_type_flat::ToolboxIdlTypeFlatFields;
use solana_toolbox::json::JsonNumber;
use solana_toolbox::json::JsonValue;

fn s(text: &str) -> JsonValue {
    JsonValue::Str(text.to_string())
}

fn n(value: u64) -> JsonValue {
    JsonValue::Number(JsonNumber::PosInt(value))
}

fn neg(value: i64) -> JsonValue {
    JsonValue::Number(JsonNumber::NegInt(value))
}

fn arr(items: Vec<JsonValue>) -> JsonValue {
    JsonValue::Array(items)
}

fn obj(entries: Vec<(&str, JsonValue)>) -> JsonValue {
    JsonValue::Object(entries.into_iter().map(|(k, v)| (k.to_string(), v)).collect())
}

fn same<T: std::fmt::Debug>(a: &T, b: &T) -> bool {
    format!("{:?}", a) == format!("{:?}", b)
}

#[test]
fn unit_transform_instruction_struct_run() {
    let typedefs = vec![ToolboxIdlProgramType::try_parse(
        "MyArg",
        &obj(vec![(
            "fields",
            arr(vec![
                obj(vec![("name", s("id")), ("type", s("u16"))]),
                obj(vec![("name", s("data")), ("type", obj(vec![("vec", s("u8"))]))]),
            ]),
        )]),
    )
    .unwrap()];
    let idl_instruction = ToolboxIdlInstruction::try_parse(
        "my_ix",
        &obj(vec![
            ("discriminator", arr(vec![n(77), n(78)])),
            (
                "accounts",
                arr(vec![
                    obj(vec![("name", s("signer")), ("signer", JsonValue::Bool(true))]),
                    obj(vec![("name", s("writable")), ("writable", JsonValue::Bool(true))]),
                ]),
            ),
            (
                "args",
                arr(vec![
                    obj(vec![("name", s("arg1")), ("type", obj(vec![("defined", s("MyArg"))]))]),
                    obj(vec![("name", s("arg2")), ("type", s("i16"))]),
                ]),
            ),
        ]),
        &typedefs,
    )
    .unwrap();
    assert_eq!(idl_instruction.accounts[0].name, "signer");
    assert_eq!(idl_instruction.accounts[0].signer, true);
    assert_eq!(idl_instruction.accounts[0].writable, false);
    assert_eq!(idl_instruction.accounts[1].name, "writable");
    assert_eq!(idl_instruction.accounts[1].signer, false);
    assert_eq!(idl_instruction.accounts[1].writable, true);
    let payload = obj(vec![
        ("arg1", obj(vec![("id", n(42)), ("data", arr(vec![n(1), n(2), n(3)]))])),
        ("arg2", neg(-2)),
    ]);
    let data = idl_instruction.encode_payload(&payload).unwrap();
    assert_eq!(vec![77, 78, 42, 0, 3, 0, 0, 0, 1, 2, 3, 254, 255], data);
    let decoded = idl_instruction.decode_payload(&data).unwrap();
    assert!(same(&payload, &decoded));
}

#[test]
fn unit_parse_typedef_enum_variants_run() {
    let type1 = ToolboxIdlProgramType::try_parse(
        "MyEnum",
        &obj(vec![(
            "variants",
            arr(vec![
                obj(vec![("name", s("Case1")), ("fields", arr(vec![]))]),
                obj(vec![("name", s("Case2")), ("fields", arr(vec![]))]),
                obj(vec![("name", s("Case3")), ("fields", arr(vec![]))]),
            ]),
        )]),
    )
    .unwrap();
    let type2 = ToolboxIdlProgramType::try_parse(
        "MyEnum",
        &obj(vec![(
            "variants",
            arr(vec![
                obj(vec![("name", s("Case1"))]),
                obj(vec![("name", s("Case2"))]),
                obj(vec![("name", s("Case3"))]),
            ]),
        )]),
    )
    .unwrap();
    let type3 = ToolboxIdlProgramType::try_parse(
        "MyEnum",
        &obj(vec![("variants", arr(vec![s("Case1"), s("Case2"), s("Case3")]))]),
    )
    .unwrap();
    assert!(same(&type1, &type2));
    assert!(same(&type1, &type3));
    let expected = ToolboxIdlProgramType {
        name: "MyEnum".to_string(),
        generics: vec![],
        type_flat: ToolboxIdlTypeFlat::Enum {
            prefix_bytes: 1,
            variants: vec![
                ("Case1".to_string(), None, ToolboxIdlTypeFlatFields::Nothing),
                ("Case2".to_string(), None, ToolboxIdlTypeFlatFields::Nothing),
                ("Case3".to_string(), None, ToolboxIdlTypeFlatFields::Nothing),
            ],
        },
    };
    assert!(same(&type1, &expected));
}

#[test]
fn decode_payload_refuses_wrong_discriminator() {
    let idl_instruction = ToolboxIdlInstruction::try_parse(
        "my_ix",
        &obj(vec![("discriminator", arr(vec![n(1), n(2)])), ("accounts", arr(vec![]))]),
        &vec![],
    )
    .unwrap();
    assert_eq!(
        idl_instruction.decode_payload(&[1, 3]).unwrap_err(),
        ToolboxIdlTransformError::InvalidDiscriminator
    );
    assert_eq!(
        idl_instruction.decode_payload(&[1]).unwrap_err(),
        ToolboxIdlTransformError::InvalidDiscriminator
    );
    assert!(same(&idl_instruction.decode_payload(&[1, 2]).unwrap(), &JsonValue::Null));
}

use solana_toolbox::idl_type_full::ToolboxIdlTypeFull;
use solana_toolbox::idl_type_full::ToolboxIdlTypeFullFields;
use solana_toolbox::idl_type_primitive::ToolboxIdlTypePrimitive;

fn prim(p: ToolboxIdlTypePrimitive) -> ToolboxIdlTypeFull {
    ToolboxIdlTypeFull::Primitive { primitive: p }
}

fn roundtrip(t: &ToolboxIdlTypeFull, v: &JsonValue) -> Vec<u8> {
    let bytes = t.try_serialize(v).unwrap();
    let mut padded = vec![9, 9];
    padded.extend_from_slice(&bytes);
    padded.push(7);
    let (n, decoded) = t.try_deserialize(&padded, 2).unwrap();
    assert_eq!(n, bytes.len());
    assert!(same(v, &decoded), "{:?} != {:?}", v, decoded);
    bytes
}

#[test]
fn serialize_integers_little_endian() {
    assert_eq!(roundtrip(&prim(ToolboxIdlTypePrimitive::U8), &n(255)), vec![255]);
    assert_eq!(roundtrip(&prim(ToolboxIdlTypePrimitive::U16), &n(258)), vec![2, 1]);
    assert_eq!(roundtrip(&prim(ToolboxIdlTypePrimitive::U32), &n(1)), vec![1, 0, 0, 0]);
    assert_eq!(
        roundtrip(&prim(ToolboxIdlTypePrimitive::U64), &n(u64::MAX)),
        vec![255; 8]
    );
    let mut u128_bytes = vec![255; 8];
    u128_bytes.extend_from_slice(&[0; 8]);
    assert_eq!(roundtrip(&prim(ToolboxIdlTypePrimitive::U128), &n(u64::MAX)), u128_bytes);
    assert_eq!(roundtrip(&prim(ToolboxIdlTypePrimitive::I8), &neg(-128)), vec![128]);
    assert_eq!(roundtrip(&prim(ToolboxIdlTypePrimitive::I8), &n(127)), vec![127]);
    assert_eq!(roundtrip(&prim(ToolboxIdlTypePrimitive::I16), &neg(-2)), vec![254, 255]);
    assert_eq!(
        roundtrip(&prim(ToolboxIdlTypePrimitive::I64), &neg(i64::MIN)),
        (i64::MIN).to_le_bytes().to_vec()
    );
    assert_eq!(roundtrip(&prim(ToolboxIdlTypePrimitive::I128), &neg(-1)), vec![255; 16]);
}

#[test]
fn serialize_integers_out_of_range() {
    let u8_type = prim(ToolboxIdlTypePrimitive::U8);
    assert_eq!(u8_type.try_serialize(&n(256)), Err(ToolboxIdlTransformError::NumberOutOfRange));
    assert_eq!(u8_type.try_serialize(&neg(-1)), Err(ToolboxIdlTransformError::NumberOutOfRange));
    assert_eq!(u8_type.try_serialize(&s("1")), Err(ToolboxIdlTransformError::ExpectedNumber));
    let i8_type = prim(ToolboxIdlTypePrimitive::I8);
    assert_eq!(i8_type.try_serialize(&neg(-129)), Err(ToolboxIdlTransformError::NumberOutOfRange));
    assert_eq!(i8_type.try_serialize(&n(128)), Err(ToolboxIdlTransformError::NumberOutOfRange));
}

#[test]
fn deserialize_integers() {
    let i128_type = prim(ToolboxIdlTypePrimitive::I128);
    let mut too_large = vec![0; 16];
    too_large[9] = 1;
    assert_eq!(
        i128_type.try_deserialize(&too_large, 0).unwrap_err(),
        ToolboxIdlTransformError::NumberOutOfRange
    );
    let u128_type = prim(ToolboxIdlTypePrimitive::U128);
    assert_eq!(
        u128_type.try_deserialize(&too_large, 0).unwrap_err(),
        ToolboxIdlTransformError::NumberOutOfRange
    );
    assert_eq!(
        prim(ToolboxIdlTypePrimitive::U32).try_deserialize(&[1, 2, 3], 0).unwrap_err(),
        ToolboxIdlTransformError::NotEnoughBytes
    );
    assert_eq!(
        prim(ToolboxIdlTypePrimitive::U8).try_deserialize(&[1, 2, 3], 4).unwrap_err(),
        ToolboxIdlTransformError::NotEnoughBytes
    );
}

#[test]
fn serialize_bool_and_strings() {
    assert_eq!(roundtrip(&prim(ToolboxIdlTypePrimitive::Bool), &JsonValue::Bool(true)), vec![1]);
    assert_eq!(roundtrip(&prim(ToolboxIdlTypePrimitive::Bool), &JsonValue::Bool(false)), vec![0]);
    assert_eq!(
        prim(ToolboxIdlTypePrimitive::Bool).try_deserialize(&[2], 0).unwrap_err(),
        ToolboxIdlTransformError::InvalidBool
    );
    assert_eq!(
        roundtrip(&prim(ToolboxIdlTypePrimitive::String), &s("hé")),
        vec![3, 0, 0, 0, 104, 195, 169]
    );
    assert_eq!(
        prim(ToolboxIdlTypePrimitive::String).try_deserialize(&[1, 0, 0, 0, 255], 0).unwrap_err(),
        ToolboxIdlTransformError::InvalidUtf8
    );
    assert_eq!(
        prim(ToolboxIdlTypePrimitive::String).try_deserialize(&[5, 0, 0, 0, 65], 0).unwrap_err(),
        ToolboxIdlTransformError::NotEnoughBytes
    );
}

#[test]
fn serialize_public_keys() {
    let key = solana_sdk::pubkey::Pubkey::new_unique();
    let bytes = roundtrip(&prim(ToolboxIdlTypePrimitive::PublicKey), &s(&key.to_string()));
    assert_eq!(bytes, key.to_bytes().to_vec());
    assert_eq!(
        prim(ToolboxIdlTypePrimitive::PublicKey).try_serialize(&s("not a key")),
        Err(ToolboxIdlTransformError::InvalidAddress)
    );
    let zero = prim(ToolboxIdlTypePrimitive::PublicKey).try_deserialize(&[0; 32], 0).unwrap();
    assert!(same(&zero, &(32, s("11111111111111111111111111111111"))));
}

#[test]
fn serialize_floats() {
    let f64_type = prim(ToolboxIdlTypePrimitive::F64);
    let bits = 1.5f64.to_bits();
    assert_eq!(
        roundtrip(&f64_type, &JsonValue::Number(JsonNumber::Float(bits))),
        1.5f64.to_le_bytes().to_vec()
    );
    assert_eq!(f64_type.try_serialize(&n(1)), Err(ToolboxIdlTransformError::FloatUnsupported));
    let infinite = f64::INFINITY.to_le_bytes();
    assert!(same(&f64_type.try_deserialize(&infinite, 0).unwrap(), &(8, JsonValue::Null)));
    assert_eq!(
        prim(ToolboxIdlTypePrimitive::F32).try_serialize(&JsonValue::Number(JsonNumber::Float(bits))),
        Err(ToolboxIdlTransformError::FloatUnsupported)
    );
}

#[test]
fn serialize_options_vectors_arrays() {
    let option = ToolboxIdlTypeFull::Option {
        prefix_bytes: 1,
        content: Box::new(prim(ToolboxIdlTypePrimitive::U16)),
    };
    assert_eq!(roundtrip(&option, &JsonValue::Null), vec![0]);
    assert_eq!(roundtrip(&option, &n(5)), vec![1, 5, 0]);
    let option32 = ToolboxIdlTypeFull::Option {
        prefix_bytes: 4,
        content: Box::new(prim(ToolboxIdlTypePrimitive::U8)),
    };
    assert_eq!(roundtrip(&option32, &n(5)), vec![1, 0, 0, 0, 5]);
    let vec8 = ToolboxIdlTypeFull::Vec {
        prefix_bytes: 1,
        items: Box::new(prim(ToolboxIdlTypePrimitive::U8)),
    };
    assert_eq!(roundtrip(&vec8, &arr(vec![n(1), n(2)])), vec![2, 1, 2]);
    let too_many: Vec<JsonValue> = (0..256).map(|_| n(0)).collect();
    assert_eq!(vec8.try_serialize(&arr(too_many)), Err(ToolboxIdlTransformError::PrefixOverflow));
    let wide = ToolboxIdlTypeFull::Vec {
        prefix_bytes: 9,
        items: Box::new(prim(ToolboxIdlTypePrimitive::U8)),
    };
    assert_eq!(wide.try_serialize(&arr(vec![])), Err(ToolboxIdlTransformError::InvalidPrefixSize));
    let array = ToolboxIdlTypeFull::Array {
        items: Box::new(prim(ToolboxIdlTypePrimitive::U8)),
        length: 3,
    };
    assert_eq!(roundtrip(&array, &arr(vec![n(1), n(2), n(3)])), vec![1, 2, 3]);
    assert_eq!(
        array.try_serialize(&arr(vec![n(1)])),
        Err(ToolboxIdlTransformError::ArrayLengthMismatch)
    );
    assert_eq!(array.try_serialize(&n(1)), Err(ToolboxIdlTransformError::ExpectedArray));
}

#[test]
fn serialize_structs_enums_padding() {
    let fields = ToolboxIdlTypeFullFields::Named(vec![
        ("a".to_string(), prim(ToolboxIdlTypePrimitive::U8)),
        ("b".to_string(), prim(ToolboxIdlTypePrimitive::Bool)),
    ]);
    let structure = ToolboxIdlTypeFull::Struct { fields };
    assert_eq!(
        roundtrip(&structure, &obj(vec![("a", n(3)), ("b", JsonValue::Bool(true))])),
        vec![3, 1]
    );
    assert_eq!(
        structure.try_serialize(&obj(vec![("a", n(3))])),
        Err(ToolboxIdlTransformError::MissingField)
    );
    assert_eq!(structure.try_serialize(&n(3)), Err(ToolboxIdlTransformError::ExpectedObject));
    let tuple = ToolboxIdlTypeFull::Struct {
        fields: ToolboxIdlTypeFullFields::Unnamed(vec![
            prim(ToolboxIdlTypePrimitive::U8),
            prim(ToolboxIdlTypePrimitive::U8),
        ]),
    };
    assert_eq!(roundtrip(&tuple, &arr(vec![n(4), n(5)])), vec![4, 5]);
    let enumeration = ToolboxIdlTypeFull::Enum {
        prefix_bytes: 1,
        variants: vec![
            ("Empty".to_string(), ToolboxIdlTypeFullFields::Nothing),
            (
                "Full".to_string(),
                ToolboxIdlTypeFullFields::Unnamed(vec![prim(ToolboxIdlTypePrimitive::U8)]),
            ),
        ],
    };
    assert_eq!(roundtrip(&enumeration, &s("Empty")), vec![0]);
    assert_eq!(roundtrip(&enumeration, &obj(vec![("Full", arr(vec![n(9)]))])), vec![1, 9]);
    assert_eq!(enumeration.try_serialize(&s("Other")), Err(ToolboxIdlTransformError::UnknownVariant));
    assert_eq!(enumeration.try_serialize(&n(0)), Err(ToolboxIdlTransformError::ExpectedEnum));
    assert_eq!(
        enumeration.try_deserialize(&[2], 0).unwrap_err(),
        ToolboxIdlTransformError::InvalidVariantIndex
    );
    let padded = ToolboxIdlTypeFull::Padded {
        size_bytes: 4,
        content: Box::new(prim(ToolboxIdlTypePrimitive::U16)),
    };
    assert_eq!(roundtrip(&padded, &n(1)), vec![1, 0, 0, 0]);
    let too_small = ToolboxIdlTypeFull::Padded {
        size_bytes: 1,
        content: Box::new(prim(ToolboxIdlTypePrimitive::U16)),
    };
    assert_eq!(too_small.try_serialize(&n(1)), Err(ToolboxIdlTransformError::PaddingOverflow));
    assert_eq!(
        too_small.try_deserialize(&[1, 0], 0).unwrap_err(),
        ToolboxIdlTransformError::PaddingOverflow
    );
    let constant = ToolboxIdlTypeFull::Const { literal: 3 };
    assert_eq!(constant.try_serialize(&n(3)), Err(ToolboxIdlTransformError::ConstNotSerializable));
}

#[test]
fn payload_roundtrip_any_key_order() {
    let typedefs = vec![ToolboxIdlProgramType::try_parse(
        "MyArg",
        &obj(vec![(
            "fields",
            arr(vec![
                obj(vec![("name", s("id")), ("type", s("u16"))]),
                obj(vec![("name", s("data")), ("type", obj(vec![("vec", s("u8"))]))]),
            ]),
        )]),
    )
    .unwrap()];
    let idl_instruction = ToolboxIdlInstruction::try_parse(
        "my_ix",
        &obj(vec![
            ("discriminator", arr(vec![n(77), n(78)])),
            ("accounts", arr(vec![])),
            (
                "args",
                arr(vec![
                    obj(vec![("name", s("arg1")), ("type", obj(vec![("defined", s("MyArg"))]))]),
                    obj(vec![("name", s("arg2")), ("type", s("i16"))]),
                ]),
            ),
        ]),
        &typedefs,
    )
    .unwrap();
    let in_order = obj(vec![
        ("arg1", obj(vec![("id", n(42)), ("data", arr(vec![n(1), n(2), n(3)]))])),
        ("arg2", neg(-2)),
    ]);
    // Keys sorted, as a sorted map hands them over, and fully reversed.
    let sorted = obj(vec![
        ("arg1", obj(vec![("data", arr(vec![n(1), n(2), n(3)])), ("id", n(42))])),
        ("arg2", neg(-2)),
    ]);
    let reversed = obj(vec![
        ("arg2", neg(-2)),
        ("arg1", obj(vec![("data", arr(vec![n(1), n(2), n(3)])), ("id", n(42))])),
    ]);
    let expected = vec![77, 78, 42, 0, 3, 0, 0, 0, 1, 2, 3, 254, 255];
    for payload in [&sorted, &reversed] {
        let data = idl_instruction.encode_payload(payload).unwrap();
        assert_eq!(expected, data);
        let decoded = idl_instruction.decode_payload(&data).unwrap();
        assert!(same(&in_order, &decoded));
    }
}

#[test]
fn one_key_kinds_prefix_sizes() {
    let u8t = || Box::new(ToolboxIdlTypeFlat::Primitive { primitive: ToolboxIdlTypePrimitive::U8 });
    let one = |k: &str, v: JsonValue| vec![(k.to_string(), v)];
    let cases: Vec<(&str, u8, bool)> = vec![
        ("option", 1, true),
        ("option8", 1, true),
        ("option16", 2, true),
        ("option32", 4, true),
        ("vec", 4, false),
        ("vec8", 1, false),
        ("vec16", 2, false),
        ("vec32", 4, false),
    ];
    for (key, prefix_bytes, is_option) in cases {
        let got = ToolboxIdlTypeFlat::try_parse_object(&one(key, s("u8"))).unwrap();
        let expected = if is_option {
            ToolboxIdlTypeFlat::Option { prefix_bytes, content: u8t() }
        } else {
            ToolboxIdlTypeFlat::Vec { prefix_bytes, items: u8t() }
        };
        assert!(same(&got, &expected), "{}", key);
    }
    for (key, prefix_bytes) in [("variants", 1u8), ("variants8", 1), ("variants16", 2), ("variants32", 4)] {
        let got = ToolboxIdlTypeFlat::try_parse_object(&one(key, arr(vec![s("A")]))).unwrap();
        let expected = ToolboxIdlTypeFlat::Enum {
            prefix_bytes,
            variants: vec![("A".to_string(), None, ToolboxIdlTypeFlatFields::Nothing)],
        };
        assert!(same(&got, &expected), "{}", key);
    }
}
