use zink::codegen::event::{
    abi, abi_for_variant, get_solidity_type, impl_variant_fns, parse, variant_fn, EmitArm,
    EventArtifact, EventBody, EventDeclaration, EventError, EventField, EventVariant, FieldType,
    FieldsShape, TypeError, VariantError, VariantFn,
};

fn path(ident: &str) -> FieldType {
    FieldType::Path {
        ident: Some(ident.to_string()),
        argument: None,
    }
}

fn vec_of(inner: FieldType) -> FieldType {
    FieldType::Path {
        ident: Some("Vec".to_string()),
        argument: Some(Box::new(inner)),
    }
}

fn field(name: &str, ty: &str, indexed: bool) -> EventField {
    EventField {
        name: Some(name.to_string()),
        ty: path(ty),
        indexed,
    }
}

fn variant(name: &str, fields: Vec<EventField>, anonymous: bool) -> EventVariant {
    EventVariant {
        name: name.to_string(),
        shape: FieldsShape::Named,
        fields,
        anonymous,
    }
}

fn indexed_fields(count: usize) -> Vec<EventField> {
    (0..count)
        .map(|i| field(&format!("f{i}"), "U256", true))
        .collect()
}

#[test]
fn the_table_of_types() {
    assert_eq!(get_solidity_type(&path("Address")), Ok("address".to_string()));
    assert_eq!(get_solidity_type(&path("U256")), Ok("uint256".to_string()));
    assert_eq!(get_solidity_type(&path("I256")), Ok("int256".to_string()));
    assert_eq!(get_solidity_type(&path("Bytes32")), Ok("bytes32".to_string()));
    assert_eq!(get_solidity_type(&path("bool")), Ok("bool".to_string()));
    assert_eq!(get_solidity_type(&path("String")), Ok("string".to_string()));
    assert_eq!(get_solidity_type(&path("Bytes")), Ok("bytes".to_string()));
    assert_eq!(
        get_solidity_type(&vec_of(path("Address"))),
        Ok("address[]".to_string())
    );
    assert_eq!(
        get_solidity_type(&vec_of(vec_of(path("U256")))),
        Ok("uint256[][]".to_string())
    );
}

#[test]
fn types_outside_the_table() {
    assert_eq!(get_solidity_type(&path("u64")), Err(TypeError::Unsupported));
    assert_eq!(get_solidity_type(&path("address")), Err(TypeError::Unsupported));
    assert_eq!(get_solidity_type(&FieldType::Other), Err(TypeError::Unsupported));
    assert_eq!(
        get_solidity_type(&path("Vec")),
        Err(TypeError::VecRequiresTypeArgument)
    );
    assert_eq!(
        get_solidity_type(&vec_of(path("u64"))),
        Err(TypeError::Unsupported)
    );
    assert_eq!(
        get_solidity_type(&FieldType::Path {
            ident: None,
            argument: None
        }),
        Err(TypeError::InvalidTypePath)
    );
}

#[test]
fn three_indexed_fields_are_within_the_budget() {
    let result = abi_for_variant("E", &variant("V", indexed_fields(3), false));
    assert!(result.is_ok());
}

#[test]
fn four_indexed_fields_exceed_the_budget() {
    assert_eq!(
        abi_for_variant("E", &variant("V", indexed_fields(4), false)),
        Err(VariantError::TooManyIndexed {
            field: 3,
            anonymous: false
        })
    );
}

#[test]
fn four_indexed_fields_are_within_the_budget_of_an_anonymous_variant() {
    assert!(abi_for_variant("E", &variant("V", indexed_fields(4), true)).is_ok());
}

#[test]
fn five_indexed_fields_exceed_the_budget_of_an_anonymous_variant() {
    assert_eq!(
        abi_for_variant("E", &variant("V", indexed_fields(5), true)),
        Err(VariantError::TooManyIndexed {
            field: 4,
            anonymous: true
        })
    );
}

#[test]
fn fields_that_are_not_indexed_do_not_count() {
    let mut fields = indexed_fields(3);
    fields.insert(1, field("data", "Bytes", false));
    assert!(abi_for_variant("E", &variant("V", fields.clone(), false)).is_ok());
    fields.push(field("last", "bool", true));
    assert_eq!(
        abi_for_variant("E", &variant("V", fields, false)),
        Err(VariantError::TooManyIndexed {
            field: 4,
            anonymous: false
        })
    );
}

#[test]
fn the_first_failure_in_field_order_is_reported() {
    let mut fields = indexed_fields(4);
    fields[1].ty = path("u64");
    assert_eq!(
        abi_for_variant("E", &variant("V", fields.clone(), false)),
        Err(VariantError::UnsupportedType {
            field: 1,
            error: TypeError::Unsupported
        })
    );
    fields[1].ty = path("U256");
    fields.push(field("bad", "u64", false));
    assert_eq!(
        abi_for_variant("E", &variant("V", fields, false)),
        Err(VariantError::TooManyIndexed {
            field: 3,
            anonymous: false
        })
    );
}

#[test]
fn the_description_of_a_variant() {
    let transfer = variant(
        "Transfer",
        vec![
            field("from", "Address", true),
            field("to", "Address", true),
            field("value", "U256", false),
        ],
        false,
    );
    assert_eq!(
        abi_for_variant("ERC20Events", &transfer).unwrap(),
        r#"{"type":"event","name":"ERC20Events","inputs":[{"name":"from","type":"address","indexed":true},{"name":"to","type":"address","indexed":true},{"name":"value","type":"uint256","indexed":false}],"anonymous":false}"#
    );
}

#[test]
fn fields_without_a_name_are_called_by_their_position() {
    let tuple = EventVariant {
        name: "Pair".to_string(),
        shape: FieldsShape::Unnamed,
        fields: vec![
            EventField {
                name: None,
                ty: path("bool"),
                indexed: false,
            },
            EventField {
                name: None,
                ty: vec_of(path("String")),
                indexed: true,
            },
        ],
        anonymous: true,
    };
    assert_eq!(
        abi_for_variant("E", &tuple).unwrap(),
        r#"{"type":"event","name":"E","inputs":[{"name":"param_0","type":"bool","indexed":false},{"name":"param_1","type":"string[]","indexed":true}],"anonymous":true}"#
    );
}

#[test]
fn a_unit_variant_has_no_inputs() {
    let unit = EventVariant {
        name: "Ping".to_string(),
        shape: FieldsShape::Unit,
        fields: vec![],
        anonymous: false,
    };
    assert_eq!(
        abi_for_variant("E", &unit).unwrap(),
        r#"{"type":"event","name":"E","inputs":[],"anonymous":false}"#
    );
}

fn declaration(name: &str, variants: Vec<EventVariant>) -> EventDeclaration {
    EventDeclaration {
        name: name.to_string(),
        body: EventBody::Enum(variants),
    }
}

#[test]
fn the_description_of_an_event_is_an_array() {
    let item = declaration(
        "Token",
        vec![
            variant("Mint", vec![field("amount", "U256", false)], false),
            variant("Burn", vec![], true),
        ],
    );
    let text = abi(&item).unwrap();
    assert_eq!(
        text,
        r#"[{"type":"event","name":"Token","inputs":[{"name":"amount","type":"uint256","indexed":false}],"anonymous":false},{"type":"event","name":"Token","inputs":[],"anonymous":true}]"#
    );
    let parsed: serde_json::Value = serde_json::from_str(&text).unwrap();
    let entries = parsed.as_array().unwrap();
    assert_eq!(entries.len(), 2);
    assert_eq!(entries[0]["type"].as_str(), Some("event"));
    assert_eq!(entries[0]["inputs"][0]["type"].as_str(), Some("uint256"));
    assert_eq!(entries[0]["inputs"][0]["indexed"].as_bool(), Some(false));
    assert_eq!(entries[1]["anonymous"].as_bool(), Some(true));
    assert_eq!(abi(&declaration("Empty", vec![])).unwrap(), "[]");
}

#[test]
fn a_name_of_32_bytes_is_the_longest() {
    let name = "a".repeat(32);
    assert!(parse(&declaration(&name, vec![])).is_ok());
    let name = "a".repeat(33);
    assert_eq!(
        parse(&declaration(&name, vec![])),
        Err(EventError::NameTooLong)
    );
    // sixteen characters of two bytes each, and one byte more
    let name = format!("{}a", "ä".repeat(16));
    assert_eq!(
        parse(&declaration(&name, vec![])),
        Err(EventError::NameTooLong)
    );
    assert!(parse(&declaration(&"ä".repeat(16), vec![])).is_ok());
}

#[test]
fn only_enums_declare_events() {
    let item = EventDeclaration {
        name: "Transfer".to_string(),
        body: EventBody::Other,
    };
    assert_eq!(parse(&item), Err(EventError::NotAnEnum));
    assert_eq!(abi(&item), Err(EventError::NotAnEnum));
    let item = EventDeclaration {
        name: "a".repeat(40),
        body: EventBody::Other,
    };
    assert_eq!(parse(&item), Err(EventError::NameTooLong));
}

#[test]
fn the_failure_of_a_variant_names_the_variant() {
    let item = declaration(
        "Token",
        vec![
            variant("Fine", indexed_fields(3), false),
            variant("TooMany", indexed_fields(4), false),
            variant("Unsupported", vec![field("x", "u8", false)], false),
        ],
    );
    assert_eq!(
        parse(&item),
        Err(EventError::Variant {
            variant: 1,
            error: VariantError::TooManyIndexed {
                field: 3,
                anonymous: false
            }
        })
    );
}

#[test]
fn a_variant_has_at_most_four_fields() {
    let mut fields = indexed_fields(2);
    fields.extend((0..3).map(|i| field(&format!("d{i}"), "bool", false)));
    let item = declaration(
        "Token",
        vec![variant("Fine", indexed_fields(3), false), variant("Wide", fields, false)],
    );
    assert!(abi(&item).is_ok());
    assert_eq!(parse(&item), Err(EventError::TooManyTopics { variant: 1 }));
}

#[test]
fn entry_points_are_named_in_snake_case() {
    let item = declaration(
        "Token",
        vec![
            variant(
                "TransferFrom",
                vec![field("from", "Address", true), field("value", "U256", false)],
                false,
            ),
            EventVariant {
                name: "HTTPRequest".to_string(),
                shape: FieldsShape::Unnamed,
                fields: vec![EventField {
                    name: None,
                    ty: path("bool"),
                    indexed: false,
                }],
                anonymous: false,
            },
            EventVariant {
                name: "Ping".to_string(),
                shape: FieldsShape::Unit,
                fields: vec![],
                anonymous: false,
            },
        ],
    );
    let artifact = parse(&item).unwrap();
    assert_eq!(
        artifact,
        EventArtifact {
            name: "Token".to_string(),
            abi: abi(&item).unwrap(),
            variant_fns: vec![
                VariantFn {
                    name: "transfer_from".to_string(),
                    args: vec!["from".to_string(), "value".to_string()],
                    topics: 2,
                },
                VariantFn {
                    name: "http_request".to_string(),
                    args: vec!["param_0".to_string()],
                    topics: 1,
                },
                VariantFn {
                    name: "ping".to_string(),
                    args: vec![],
                    topics: 0,
                },
            ],
            expr_match: vec![
                EmitArm {
                    variant: "TransferFrom".to_string(),
                    shape: FieldsShape::Named,
                    args: vec!["from".to_string(), "value".to_string()],
                    target: "transfer_from".to_string(),
                },
                EmitArm {
                    variant: "HTTPRequest".to_string(),
                    shape: FieldsShape::Unnamed,
                    args: vec!["param_0".to_string()],
                    target: "http_request".to_string(),
                },
                EmitArm {
                    variant: "Ping".to_string(),
                    shape: FieldsShape::Unit,
                    args: vec![],
                    target: "ping".to_string(),
                },
            ],
        }
    );
}

#[test]
fn an_entry_point_adds_its_arm() {
    let mut arms = vec![];
    let mint = variant("MintTo", vec![field("to", "Address", true)], false);
    let entry = impl_variant_fns(&mint, &mut arms);
    assert_eq!(entry.name, "mint_to");
    assert_eq!(entry.topics, 1);
    let entry = variant_fn(&mint, "given".to_string(), &mut arms);
    assert_eq!(entry.name, "given");
    assert_eq!(arms.len(), 2);
    assert_eq!(arms[0].target, "mint_to");
    assert_eq!(arms[1].target, "given");
    assert_eq!(arms[1].variant, "MintTo");
}

#[test]
fn refusals_are_reported_with_the_declaration() {
    let item = declaration(
        "Token",
        vec![
            variant("Mint", vec![field("to", "u8", false)], false),
            EventVariant {
                name: "Pair".to_string(),
                shape: FieldsShape::Unnamed,
                fields: vec![EventField {
                    name: None,
                    ty: path("Vec"),
                    indexed: false,
                }],
                anonymous: true,
            },
        ],
    );
    assert_eq!(
        EventError::NameTooLong.message(&item),
        "Event name too long: Token"
    );
    assert_eq!(
        EventError::NotAnEnum.message(&item),
        "Event can only be derived for enums"
    );
    assert_eq!(
        EventError::TooManyTopics { variant: 0 }.message(&item),
        "Event 'Mint' has more than 4 fields"
    );
    assert_eq!(
        parse(&item).unwrap_err().message(&item),
        "Unsupported type for to: Unsupported type for event parameter"
    );
    let error = EventError::Variant {
        variant: 1,
        error: abi_for_variant("Token", &variant("Pair", vec![], false))
            .err()
            .unwrap_or(VariantError::UnsupportedType {
                field: 0,
                error: TypeError::VecRequiresTypeArgument,
            }),
    };
    assert_eq!(
        error.message(&item),
        "Unsupported type for param_0: Vec requires a type argument"
    );
    assert_eq!(
        EventError::Variant {
            variant: 0,
            error: VariantError::TooManyIndexed {
                field: 3,
                anonymous: false
            }
        }
        .message(&item),
        "Event 'Mint' exceeds 3 indexed parameters for non-anonymous event"
    );
    assert_eq!(
        EventError::Variant {
            variant: 1,
            error: VariantError::TooManyIndexed {
                field: 4,
                anonymous: true
            }
        }
        .message(&item),
        "Event 'Pair' exceeds 4 indexed parameters even for anonymous event"
    );
    assert_eq!(
        EventError::TooManyTopics { variant: 9 }.message(&item),
        "Event '' has more than 4 fields"
    );
    assert_eq!(
        TypeError::InvalidTypePath.message(),
        "Invalid type path for event parameter"
    );
}
