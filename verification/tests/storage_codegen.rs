use zink::codegen::registry::{Registry, StorageKind};
use zink::codegen::storage::{
    choose_getter, trait_path, Attribute, AttributeArgs, Storage, StorageArtifact, StorageError,
    StorageType, StructDecl,
};

fn plain(path: &str) -> Attribute {
    Attribute {
        path: Some(path.to_string()),
        args: AttributeArgs::NotList,
    }
}

fn getter(name: &str) -> Attribute {
    Attribute {
        path: Some("getter".to_string()),
        args: AttributeArgs::List {
            first_ident: Some(name.to_string()),
        },
    }
}

fn decl(ident: &str, public: bool, attrs: Vec<Attribute>) -> StructDecl {
    StructDecl {
        ident: ident.to_string(),
        public,
        attrs,
    }
}

fn value(ty: &str) -> StorageType {
    StorageType::Value(ty.to_string())
}

#[test]
fn one_type_is_a_value() {
    assert_eq!(StorageType::from("i32"), Ok(value("i32")));
    assert_eq!(StorageType::from("  U256 "), Ok(value("U256")));
}

#[test]
fn two_types_are_a_mapping() {
    assert_eq!(
        StorageType::from("Address , U256"),
        Ok(StorageType::Mapping {
            key: "Address".to_string(),
            value: "U256".to_string()
        })
    );
}

#[test]
fn three_types_are_a_double_key_mapping() {
    assert_eq!(
        StorageType::from("Address,Address,U256"),
        Ok(StorageType::DoubleKeyMapping {
            key1: "Address".to_string(),
            key2: "Address".to_string(),
            value: "U256".to_string()
        })
    );
}

#[test]
fn four_types_are_refused() {
    assert_eq!(
        StorageType::from("a, b, c, d"),
        Err(StorageError::InvalidStorageAttributes)
    );
}

#[test]
fn the_default_shape_is_invalid() {
    assert_eq!(StorageType::default(), StorageType::Invalid);
}

#[test]
fn getter_attributes_are_taken_out() {
    let target = decl(
        "Counter",
        false,
        vec![
            plain("doc"),
            getter("count"),
            plain("allow"),
        ],
    );
    let storage = Storage::from_parts(StorageKind::Persistent, value("i32"), target).unwrap();
    assert_eq!(storage.kind, StorageKind::Persistent);
    assert_eq!(storage.ty, value("i32"));
    assert_eq!(storage.getter, Some("count".to_string()));
    assert_eq!(storage.kept, vec![0, 2]);
    assert_eq!(
        storage.target,
        decl(
            "Counter",
            false,
            vec![
                plain("doc"),
                plain("allow")
            ]
        )
    );
}

#[test]
fn the_last_getter_attribute_counts() {
    let target = decl("Counter", true, vec![getter("first"), getter("second")]);
    let storage = Storage::from_parts(StorageKind::Transient, value("i32"), target).unwrap();
    assert_eq!(storage.getter, Some("second".to_string()));
    assert!(storage.target.attrs.is_empty());
    assert!(storage.kept.is_empty());
}

#[test]
fn a_getter_without_arguments_is_refused() {
    let target = decl("Counter", true, vec![plain("getter")]);
    assert_eq!(
        Storage::from_parts(StorageKind::Persistent, value("i32"), target),
        Err(StorageError::InvalidGetterArguments)
    );
}

#[test]
fn a_getter_without_a_name_is_refused() {
    let attr = Attribute {
        path: Some("getter".to_string()),
        args: AttributeArgs::List { first_ident: None },
    };
    let target = decl("Counter", true, vec![getter("fine"), attr, plain("getter")]);
    assert_eq!(
        Storage::from_parts(StorageKind::Persistent, value("i32"), target),
        Err(StorageError::InvalidGetterName)
    );
}

#[test]
fn a_longer_path_names_no_getter() {
    let attr = Attribute {
        path: None,
        args: AttributeArgs::NotList,
    };
    let target = decl("Counter", false, vec![attr.clone()]);
    let storage = Storage::from_parts(StorageKind::Persistent, value("i32"), target).unwrap();
    assert_eq!(storage.getter, None);
    assert_eq!(storage.target.attrs, vec![attr]);
    assert_eq!(storage.kept, vec![0]);
}

#[test]
fn the_getter_of_a_public_struct_defaults_to_its_snake_case_name() {
    let mut storage =
        Storage::from_parts(StorageKind::Persistent, value("i32"), decl("TotalSupply", true, vec![]))
            .unwrap();
    assert_eq!(storage.getter(), Some("total_supply".to_string()));
    assert_eq!(storage.getter, None);
}

#[test]
fn a_private_struct_has_no_getter_unless_it_names_one() {
    let mut storage =
        Storage::from_parts(StorageKind::Persistent, value("i32"), decl("TotalSupply", false, vec![]))
            .unwrap();
    assert_eq!(storage.getter(), None);

    let mut storage = Storage::from_parts(
        StorageKind::Persistent,
        value("i32"),
        decl("TotalSupply", false, vec![getter("supply")]),
    )
    .unwrap();
    assert_eq!(storage.getter(), Some("supply".to_string()));
    assert_eq!(storage.getter(), None);
}

#[test]
fn a_named_getter_comes_before_the_default() {
    assert_eq!(
        choose_getter(Some("named".to_string()), true, "snake".to_string()),
        Some("named".to_string())
    );
    assert_eq!(
        choose_getter(None, true, "snake".to_string()),
        Some("snake".to_string())
    );
    assert_eq!(choose_getter(None, false, "snake".to_string()), None);
}

#[test]
fn trait_paths() {
    let mapping = StorageType::Mapping {
        key: "a".to_string(),
        value: "b".to_string(),
    };
    let double = StorageType::DoubleKeyMapping {
        key1: "a".to_string(),
        key2: "b".to_string(),
        value: "c".to_string(),
    };
    assert_eq!(
        trait_path(StorageKind::Persistent, &value("a")),
        "zink::storage::Storage"
    );
    assert_eq!(
        trait_path(StorageKind::Transient, &value("a")),
        "zink::storage::TransientStorage"
    );
    assert_eq!(
        trait_path(StorageKind::Persistent, &mapping),
        "zink::storage::Mapping"
    );
    assert_eq!(
        trait_path(StorageKind::Transient, &mapping),
        "zink::transient_storage::TransientMapping"
    );
    assert_eq!(
        trait_path(StorageKind::Persistent, &double),
        "zink::storage::DoubleKeyMapping"
    );
    assert_eq!(
        trait_path(StorageKind::Transient, &double),
        "zink::transient_storage::DoubleKeyTransientMapping"
    );
}

#[test]
fn a_value_expands_with_its_key() {
    let mut registry = Registry::new();
    let first = Storage::parse(&mut registry, value("i32"), decl("Counter", true, vec![])).unwrap();
    assert_eq!(
        first,
        StorageArtifact {
            target: decl("Counter", true, vec![]),
            trait_path: "zink::storage::Storage".to_string(),
            storage_slot: 0,
            storage_key: Some([0u8; 32]),
            ty: value("i32"),
            getter: Some("counter".to_string()),
            kept: vec![],
        }
    );
    let second =
        Storage::parse(&mut registry, value("U256"), decl("Supply", false, vec![])).unwrap();
    let mut key = [0u8; 32];
    key[31] = 1;
    assert_eq!(second.storage_slot, 1);
    assert_eq!(second.storage_key, Some(key));
    assert_eq!(second.getter, None);
}

#[test]
fn a_mapping_expands_without_a_key() {
    let mut registry = Registry::new();
    let ty = StorageType::from("Address, U256").unwrap();
    let artifact = Storage::parse(
        &mut registry,
        ty.clone(),
        decl("Balances", true, vec![getter("balance_of")]),
    )
    .unwrap();
    assert_eq!(
        artifact,
        StorageArtifact {
            target: decl("Balances", true, vec![]),
            trait_path: "zink::storage::Mapping".to_string(),
            storage_slot: 0,
            storage_key: None,
            ty,
            getter: Some("balance_of".to_string()),
            kept: vec![],
        }
    );
}

#[test]
fn a_double_key_mapping_expands_without_a_key() {
    let mut registry = Registry::new();
    let ty = StorageType::from("Address, Address, U256").unwrap();
    let attrs = vec![getter("allowance"), plain("doc"), plain("allow")];
    let artifact =
        Storage::parse_transient(&mut registry, ty.clone(), decl("Allowances", false, attrs))
            .unwrap();
    assert_eq!(
        artifact,
        StorageArtifact {
            target: decl("Allowances", false, vec![plain("doc"), plain("allow")]),
            trait_path: "zink::transient_storage::DoubleKeyTransientMapping".to_string(),
            storage_slot: 0,
            storage_key: None,
            ty,
            getter: Some("allowance".to_string()),
            kept: vec![1, 2],
        }
    );
}

#[test]
fn declaring_a_name_twice_fails() {
    let mut registry = Registry::new();
    assert!(Storage::parse(&mut registry, value("i32"), decl("Counter", true, vec![])).is_ok());
    assert_eq!(
        Storage::parse(&mut registry, value("u8"), decl("Counter", false, vec![])),
        Err(StorageError::DuplicateName)
    );
    assert_eq!(
        Storage::parse_transient(&mut registry, value("u8"), decl("Counter", false, vec![]))
            .unwrap()
            .storage_slot,
        0
    );
    assert_eq!(
        Storage::parse_transient(&mut registry, value("u8"), decl("Counter", false, vec![])),
        Err(StorageError::DuplicateName)
    );
    assert_eq!(
        Storage::parse(&mut registry, value("u8"), decl("Owner", false, vec![]))
            .unwrap()
            .storage_slot,
        1
    );
}

#[test]
fn a_declaration_without_a_shape_takes_no_slot() {
    let mut registry = Registry::new();
    assert_eq!(
        Storage::parse(&mut registry, StorageType::Invalid, decl("Counter", true, vec![])),
        Err(StorageError::InvalidStorageType)
    );
    assert_eq!(
        Storage::parse(&mut registry, value("i32"), decl("Counter", true, vec![]))
            .unwrap()
            .storage_slot,
        0
    );
}

#[test]
fn a_refused_getter_takes_no_slot() {
    let mut registry = Registry::new();
    assert_eq!(
        Storage::parse(
            &mut registry,
            value("i32"),
            decl("Counter", true, vec![plain("getter")])
        ),
        Err(StorageError::InvalidGetterArguments)
    );
    assert_eq!(
        Storage::parse(&mut registry, value("i32"), decl("Counter", true, vec![]))
            .unwrap()
            .storage_slot,
        0
    );
}

#[test]
fn the_shapes_expand_by_hand() {
    let mut registry = Registry::new();
    let mut storage =
        Storage::from_parts(StorageKind::Persistent, StorageType::Invalid, decl("A", true, vec![]))
            .unwrap();
    let artifact = storage
        .expand_value(&mut registry, "u8".to_string())
        .unwrap();
    assert_eq!(artifact.ty, value("u8"));
    assert_eq!(artifact.getter, Some("a".to_string()));
    assert_eq!(storage.get_storage_slot(&mut registry, "B"), Ok(1));
    assert_eq!(
        storage.get_storage_slot(&mut registry, "B"),
        Err(StorageError::DuplicateName)
    );
    storage.target.ident = "C".to_string();
    let artifact = storage
        .expand_mapping(&mut registry, "u8".to_string(), "u16".to_string())
        .unwrap();
    assert_eq!(artifact.storage_slot, 2);
    assert_eq!(artifact.trait_path, "zink::storage::Mapping");
    storage.target.ident = "D".to_string();
    let artifact = storage
        .expand_dk_mapping(&mut registry, "u8".to_string(), "u16".to_string(), "u32".to_string())
        .unwrap();
    assert_eq!(artifact.storage_slot, 3);
    assert_eq!(artifact.trait_path, "zink::storage::DoubleKeyMapping");
    assert_eq!(storage.expand(&mut registry), Err(StorageError::InvalidStorageType));
}

#[test]
fn refusals_are_reported_with_the_name() {
    let persistent = StorageKind::Persistent;
    assert_eq!(
        StorageError::InvalidStorageAttributes.message(persistent, "Counter"),
        "Invalid storage attributes"
    );
    assert_eq!(
        StorageError::InvalidGetterArguments.message(persistent, "Counter"),
        "Invalid getter arguments"
    );
    assert_eq!(
        StorageError::InvalidGetterName.message(persistent, "Counter"),
        "Invalid getter function name"
    );
    assert_eq!(
        StorageError::InvalidStorageType.message(persistent, "Counter"),
        "Invalid storage type"
    );
    assert_eq!(
        StorageError::DuplicateName.message(persistent, "Counter"),
        "Storage Counter has already been declared"
    );
    assert_eq!(
        StorageError::DuplicateName.message(StorageKind::Transient, "Counter"),
        "Transient storage Counter has already been declared"
    );
    assert_eq!(
        StorageError::SlotsExhausted.message(persistent, "Counter"),
        "No storage slot is left for Counter"
    );
}
