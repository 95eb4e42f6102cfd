use zink::abi::codec::{
    call_data, decode_address, decode_u256, encode_address, encode_u256, CallArgument, DecodeError,
};
use zink::abi::codegen::{
    abi_path, binding_from_parts, generate_bindings, generate_function_implementation,
    generate_function_signature, import, import_target, is_view, selector, selector_from_digest,
    selector_signature, signature_from_names, AbiFunction, AbiParameter, BindingError,
    ContractBinding, Decoder, Dispatch, Encoder, EthereumAbi, FunctionBinding, FunctionParam,
    FunctionSignature, ImportError, ImportTarget, MacroArgument, ReturnType,
};
use zink::abi::types::{map_type_to_rust_and_encode, NativeType};
use zink::keccak256;
use zink::primitives::{Address, U256};

fn param(name: &str, ty: &str) -> AbiParameter {
    AbiParameter {
        name: name.to_string(),
        param_type: ty.to_string(),
    }
}

fn function(name: &str, inputs: Vec<AbiParameter>, outputs: Vec<AbiParameter>, mutability: &str) -> AbiFunction {
    AbiFunction {
        name: name.to_string(),
        inputs,
        outputs,
        state_mutability: mutability.to_string(),
        constant: None,
        fn_type: "function".to_string(),
    }
}

fn sequence(inner: NativeType) -> NativeType {
    NativeType::Sequence(Box::new(inner))
}

#[test]
fn the_table_of_native_types() {
    assert_eq!(map_type_to_rust_and_encode("uint256"), NativeType::Word256);
    assert_eq!(map_type_to_rust_and_encode("int256"), NativeType::Word256);
    assert_eq!(map_type_to_rust_and_encode("uint8"), NativeType::U8);
    assert_eq!(map_type_to_rust_and_encode("int8"), NativeType::I8);
    assert_eq!(map_type_to_rust_and_encode("uint16"), NativeType::U16);
    assert_eq!(map_type_to_rust_and_encode("int16"), NativeType::I16);
    assert_eq!(map_type_to_rust_and_encode("uint32"), NativeType::U32);
    assert_eq!(map_type_to_rust_and_encode("int32"), NativeType::I32);
    assert_eq!(map_type_to_rust_and_encode("uint64"), NativeType::U64);
    assert_eq!(map_type_to_rust_and_encode("int64"), NativeType::I64);
    assert_eq!(map_type_to_rust_and_encode("uint128"), NativeType::U128);
    assert_eq!(map_type_to_rust_and_encode("int128"), NativeType::I128);
    assert_eq!(map_type_to_rust_and_encode("bool"), NativeType::Bool);
    assert_eq!(map_type_to_rust_and_encode("address"), NativeType::Address);
    assert_eq!(map_type_to_rust_and_encode("string"), NativeType::Text);
    assert_eq!(map_type_to_rust_and_encode("bytes"), NativeType::Bytes);
}

#[test]
fn arrays_are_sequences() {
    assert_eq!(
        map_type_to_rust_and_encode("uint256[]"),
        sequence(NativeType::Word256)
    );
    assert_eq!(
        map_type_to_rust_and_encode("address[10]"),
        sequence(NativeType::Address)
    );
    assert_eq!(
        map_type_to_rust_and_encode("uint8[3][]"),
        sequence(sequence(NativeType::U8))
    );
    assert_eq!(
        map_type_to_rust_and_encode("uint8[][3]"),
        sequence(sequence(NativeType::U8))
    );
    assert_eq!(
        map_type_to_rust_and_encode("uint256[][2]"),
        sequence(sequence(NativeType::Word256))
    );
    assert_eq!(
        map_type_to_rust_and_encode("uint256[2][]"),
        sequence(sequence(NativeType::Word256))
    );
    assert_eq!(
        map_type_to_rust_and_encode("int64[4][][2]"),
        sequence(sequence(sequence(NativeType::I64)))
    );
    assert_eq!(
        map_type_to_rust_and_encode("tuple[3]"),
        sequence(NativeType::Bytes)
    );
    assert_eq!(map_type_to_rust_and_encode("[]"), sequence(NativeType::Bytes));
}

#[test]
fn unknown_types_are_byte_buffers() {
    assert_eq!(map_type_to_rust_and_encode("uint24"), NativeType::Bytes);
    assert_eq!(map_type_to_rust_and_encode("tuple"), NativeType::Bytes);
    assert_eq!(map_type_to_rust_and_encode(""), NativeType::Bytes);
    assert_eq!(map_type_to_rust_and_encode("Uint256"), NativeType::Bytes);
    assert_eq!(map_type_to_rust_and_encode("a[b"), NativeType::Bytes);
    assert_eq!(map_type_to_rust_and_encode("]"), NativeType::Bytes);
}

#[test]
fn native_types_as_rust_writes_them() {
    assert_eq!(NativeType::Word256.rust_type(), "::zink::primitives::u256::U256");
    assert_eq!(NativeType::Address.rust_type(), "::zink::primitives::address::Address");
    assert_eq!(NativeType::U128.rust_type(), "u128");
    assert_eq!(NativeType::I8.rust_type(), "i8");
    assert_eq!(NativeType::I16.rust_type(), "i16");
    assert_eq!(NativeType::I32.rust_type(), "i32");
    assert_eq!(NativeType::I64.rust_type(), "i64");
    assert_eq!(NativeType::I128.rust_type(), "i128");
    assert_eq!(sequence(NativeType::I8).rust_type(), "Vec<i8>");
    assert_eq!(NativeType::Text.rust_type(), "String");
    assert_eq!(sequence(sequence(NativeType::Bool)).rust_type(), "Vec<Vec<bool>>");
    assert_eq!(sequence(NativeType::Bytes).clone().rust_type(), "Vec<Vec<u8>>");
}

#[test]
fn the_selector_of_transfer() {
    assert_eq!(
        selector("transfer(address,uint256)"),
        [0xa9, 0x05, 0x9c, 0xbb]
    );
    assert_eq!(
        selector("transfer(address,uint256)"),
        selector("transfer(address,uint256)")
    );
    assert_ne!(
        selector("Transfer(address,uint256)"),
        selector("transfer(address,uint256)")
    );
    assert_ne!(
        selector("transfer(address,uint256 )"),
        selector("transfer(address,uint256)")
    );
    assert_eq!(selector("balanceOf(address)"), [0x70, 0xa0, 0x82, 0x31]);
    assert_eq!(selector("decimals()"), [0x31, 0x3c, 0xe5, 0x67]);
}

#[test]
fn the_selector_is_the_start_of_the_digest() {
    let digest = keccak256(b"totalSupply()");
    assert_eq!(selector_from_digest(&digest), [0x18, 0x16, 0x0d, 0xdd]);
    let mut counting = [0u8; 32];
    for (i, byte) in counting.iter_mut().enumerate() {
        *byte = i as u8;
    }
    assert_eq!(selector_from_digest(&counting), [0, 1, 2, 3]);
}

#[test]
fn the_textual_signature_uses_the_interface_types() {
    let transfer = function(
        "transfer",
        vec![param("to", "address"), param("amount", "uint256")],
        vec![param("", "bool")],
        "nonpayable",
    );
    assert_eq!(selector_signature(&transfer), "transfer(address,uint256)");
    assert_eq!(selector_signature(&function("decimals", vec![], vec![], "view")), "decimals()");
    assert_eq!(
        selector_signature(&function("f", vec![param("", "uint8[]")], vec![], "")),
        "f(uint8[])"
    );
}

#[test]
fn the_header_of_a_binding() {
    let transfer_from = function(
        "transferFrom",
        vec![
            param("fromAccount", "address"),
            param("", "address"),
            param("", "uint256"),
        ],
        vec![param("", "bool")],
        "nonpayable",
    );
    assert_eq!(
        generate_function_signature(&transfer_from),
        FunctionSignature {
            fn_name: "transfer_from".to_string(),
            params: vec![
                FunctionParam {
                    name: "from_account".to_string(),
                    ty: NativeType::Address
                },
                FunctionParam {
                    name: "arg1".to_string(),
                    ty: NativeType::Address
                },
                FunctionParam {
                    name: "arg2".to_string(),
                    ty: NativeType::Word256
                },
            ],
            return_type: ReturnType::Single(NativeType::Bool),
        }
    );
}

#[test]
fn the_return_type_of_a_binding() {
    let none = function("f", vec![], vec![], "");
    assert_eq!(generate_function_signature(&none).return_type, ReturnType::Unit);
    let two = function(
        "f",
        vec![],
        vec![param("a", "uint8"), param("b", "string[]")],
        "",
    );
    assert_eq!(
        generate_function_signature(&two).return_type,
        ReturnType::Tuple(vec![NativeType::U8, sequence(NativeType::Text)])
    );
}

#[test]
fn names_are_given_to_the_header() {
    let f = function("f", vec![param("x", "bool"), param("", "bool")], vec![], "");
    let signature = signature_from_names(
        &f,
        "given".to_string(),
        vec!["first".to_string(), "second".to_string()],
    )
    .unwrap();
    assert_eq!(signature.fn_name, "given");
    assert_eq!(signature.params[0].name, "first");
    assert_eq!(signature.params[1].name, "arg1");
    assert_eq!(
        signature_from_names(&f, "given".to_string(), vec!["first".to_string()]),
        None
    );
}

#[test]
fn calls_are_read_only_by_mutability_or_flag() {
    let mut f = function("f", vec![], vec![], "view");
    assert!(is_view(&f));
    f.state_mutability = "pure".to_string();
    assert!(is_view(&f));
    f.state_mutability = "nonpayable".to_string();
    assert!(!is_view(&f));
    f.state_mutability = "payable".to_string();
    assert!(!is_view(&f));
    f.state_mutability = String::new();
    assert!(!is_view(&f));
    f.constant = Some(false);
    assert!(!is_view(&f));
    f.constant = Some(true);
    assert!(is_view(&f));
}

#[test]
fn the_binding_of_an_entry() {
    let balance_of = function(
        "balanceOf",
        vec![param("account", "address")],
        vec![param("", "uint256")],
        "view",
    );
    assert_eq!(
        generate_function_implementation(&balance_of),
        Ok(FunctionBinding {
            signature: FunctionSignature {
                fn_name: "balance_of".to_string(),
                params: vec![FunctionParam {
                    name: "account".to_string(),
                    ty: NativeType::Address
                }],
                return_type: ReturnType::Single(NativeType::Word256),
            },
            selector_signature: "balanceOf(address)".to_string(),
            selector: [0x70, 0xa0, 0x82, 0x31],
            dispatch: Dispatch::ReadOnly,
            encoders: vec![Encoder::Address],
            decoder: Decoder::Word256,
        })
    );
}

#[test]
fn encoders_follow_the_types_in_declared_order() {
    let f = function(
        "f",
        vec![
            param("", "uint256"),
            param("", "address"),
            param("", "int256"),
            param("", "uint8"),
            param("", "address[]"),
        ],
        vec![],
        "nonpayable",
    );
    let binding = generate_function_implementation(&f).unwrap();
    assert_eq!(
        binding.encoders,
        vec![
            Encoder::Word256,
            Encoder::Address,
            Encoder::Word256,
            Encoder::Generic,
            Encoder::Generic
        ]
    );
    assert_eq!(binding.dispatch, Dispatch::StateChanging);
    assert_eq!(binding.decoder, Decoder::Unit);
}

#[test]
fn decoders_by_output_type() {
    let decoder = |ty: &str| {
        generate_function_implementation(&function("f", vec![], vec![param("", ty)], ""))
            .map(|binding| binding.decoder)
    };
    assert_eq!(decoder("uint8"), Ok(Decoder::U8));
    assert_eq!(decoder("uint256"), Ok(Decoder::Word256));
    assert_eq!(decoder("int256"), Ok(Decoder::Word256));
    assert_eq!(decoder("bool"), Ok(Decoder::Bool));
    assert_eq!(decoder("string"), Ok(Decoder::Text));
    assert_eq!(decoder("address"), Ok(Decoder::Address));
    assert_eq!(decoder("uint16"), Err(BindingError::UnsupportedReturnType));
    assert_eq!(decoder("bytes"), Err(BindingError::UnsupportedReturnType));
    assert_eq!(decoder("uint256[]"), Err(BindingError::UnsupportedReturnType));
}

#[test]
fn several_outputs_have_no_binding() {
    let f = function(
        "f",
        vec![],
        vec![param("", "uint256"), param("", "uint256")],
        "view",
    );
    assert_eq!(
        generate_function_implementation(&f),
        Err(BindingError::MultipleReturnValues)
    );
    let signature = generate_function_signature(&f);
    assert_eq!(
        binding_from_parts(&f, signature, &[0u8; 32]),
        Err(BindingError::MultipleReturnValues)
    );
}

#[test]
fn a_binding_from_its_parts() {
    let f = function("f", vec![param("a", "address")], vec![], "pure");
    let signature = generate_function_signature(&f);
    let mut digest = [0u8; 32];
    digest[0] = 0xde;
    digest[3] = 0xad;
    digest[4] = 0xff;
    let binding = binding_from_parts(&f, signature.clone(), &digest).unwrap();
    assert_eq!(binding.selector, [0xde, 0, 0, 0xad]);
    assert_eq!(binding.signature, signature);
    assert_eq!(binding.selector_signature, "f(address)");
    assert_eq!(binding.dispatch, Dispatch::ReadOnly);
}

fn text(value: &str) -> MacroArgument {
    MacroArgument::Text(value.to_string())
}

#[test]
fn one_argument_names_the_description() {
    let args = vec![text("examples/ERC20.json")];
    assert_eq!(abi_path(&args), Ok("examples/ERC20.json".to_string()));
    assert_eq!(
        import_target(&args, &Some("ERC20".to_string())),
        Ok(ImportTarget {
            abi_path: "examples/ERC20.json".to_string(),
            contract_name: "ERC20".to_string(),
            struct_name: "ERC20".to_string(),
        })
    );
    assert_eq!(
        import_target(&args, &None),
        Ok(ImportTarget {
            abi_path: "examples/ERC20.json".to_string(),
            contract_name: "Contract".to_string(),
            struct_name: "Contract".to_string(),
        })
    );
}

#[test]
fn a_second_argument_names_the_contract() {
    let args = vec![text("examples/ERC20.json"), text("my_erc20")];
    assert_eq!(
        import_target(&args, &Some("ERC20".to_string())),
        Ok(ImportTarget {
            abi_path: "examples/ERC20.json".to_string(),
            contract_name: "my_erc20".to_string(),
            struct_name: "ERC20".to_string(),
        })
    );
}

#[test]
fn arguments_that_are_refused() {
    let stem = Some("ERC20".to_string());
    assert_eq!(abi_path(&vec![]), Err(ImportError::ArgumentCount));
    assert_eq!(import_target(&vec![], &stem), Err(ImportError::ArgumentCount));
    assert_eq!(
        import_target(&vec![text("a"), text("b"), text("c")], &stem),
        Err(ImportError::ArgumentCount)
    );
    assert_eq!(
        import_target(&vec![MacroArgument::Other], &stem),
        Err(ImportError::AbiPathNotText)
    );
    assert_eq!(
        import_target(&vec![MacroArgument::Other, MacroArgument::Other], &stem),
        Err(ImportError::AbiPathNotText)
    );
    assert_eq!(
        import_target(&vec![text("a"), MacroArgument::Other], &stem),
        Err(ImportError::ContractNameNotText)
    );
}

fn erc20() -> EthereumAbi {
    let mut event = function("Transfer", vec![param("from", "address")], vec![], "");
    event.fn_type = "event".to_string();
    let mut constructor = function("", vec![], vec![], "nonpayable");
    constructor.fn_type = "constructor".to_string();
    EthereumAbi {
        abi: vec![
            constructor,
            function("decimals", vec![], vec![param("", "uint8")], "view"),
            event,
            function(
                "transfer",
                vec![param("to", "address"), param("amount", "uint256")],
                vec![param("", "bool")],
                "nonpayable",
            ),
        ],
    }
}

#[test]
fn only_functions_get_bindings() {
    let bindings = generate_bindings(&erc20()).unwrap();
    assert_eq!(bindings.len(), 2);
    assert_eq!(bindings[0].signature.fn_name, "decimals");
    assert_eq!(bindings[0].selector, [0x31, 0x3c, 0xe5, 0x67]);
    assert_eq!(bindings[0].decoder, Decoder::U8);
    assert_eq!(bindings[1].signature.fn_name, "transfer");
    assert_eq!(bindings[1].selector, [0xa9, 0x05, 0x9c, 0xbb]);
    assert_eq!(bindings[1].dispatch, Dispatch::StateChanging);
    assert_eq!(generate_bindings(&EthereumAbi { abi: vec![] }), Ok(vec![]));
}

#[test]
fn the_first_entry_without_a_binding_fails_the_import() {
    let mut abi = erc20();
    abi.abi.push(function("bad", vec![], vec![param("", "bytes")], ""));
    abi.abi.push(function(
        "worse",
        vec![],
        vec![param("", "bool"), param("", "bool")],
        "",
    ));
    assert_eq!(
        generate_bindings(&abi),
        Err(ImportError::Function {
            index: 4,
            error: BindingError::UnsupportedReturnType
        })
    );
    let mut event = function("odd", vec![], vec![param("", "bytes")], "");
    event.fn_type = "event".to_string();
    assert_eq!(generate_bindings(&EthereumAbi { abi: vec![event] }), Ok(vec![]));
}

#[test]
fn an_import_binds_a_contract() {
    let args = vec![text("examples/ERC20.json"), text("my_erc20")];
    let stem = Some("ERC20".to_string());
    assert_eq!(
        import(&args, &stem, &erc20()),
        Ok(ContractBinding {
            target: import_target(&args, &stem).unwrap(),
            functions: generate_bindings(&erc20()).unwrap(),
        })
    );
    assert_eq!(
        import(&vec![], &stem, &erc20()),
        Err(ImportError::ArgumentCount)
    );
    let mut abi = erc20();
    abi.abi.insert(0, function("bad", vec![], vec![param("", "bytes")], ""));
    assert_eq!(
        import(&vec![MacroArgument::Other], &stem, &abi),
        Err(ImportError::AbiPathNotText)
    );
    assert_eq!(
        import(&args, &stem, &abi),
        Err(ImportError::Function {
            index: 0,
            error: BindingError::UnsupportedReturnType
        })
    );
}

#[test]
fn an_address_is_padded_on_the_left() {
    let mut address = [0u8; 20];
    for (i, byte) in address.iter_mut().enumerate() {
        *byte = i as u8 + 1;
    }
    let word = encode_address(&address);
    assert_eq!(word[..12], [0u8; 12]);
    assert_eq!(word[12..], address);
    assert_eq!(decode_address(&word), Ok(Address(address)));
    assert_eq!(decode_address(&word[1..]), Err(DecodeError::Length));
    assert_eq!(decode_address(&[]), Err(DecodeError::Length));
}

#[test]
fn a_word_survives_the_round_trip() {
    let word = U256::from(0x0102_0304_0506_0708u64).add(U256::max().div(U256::from(3)));
    let encoded = encode_u256(&word);
    assert_eq!(decode_u256(&encoded), Ok(word));
    assert_eq!(decode_u256(&encoded[..31]), Err(DecodeError::Length));
    let mut longer = encoded.to_vec();
    longer.push(0);
    assert_eq!(decode_u256(&longer), Err(DecodeError::Length));
}

#[test]
fn call_data_is_the_selector_and_the_arguments() {
    let selector = [0xa9, 0x05, 0x9c, 0xbb];
    let address = Address([0x11u8; 20]);
    let amount = U256::from(1000);
    let data = call_data(
        &selector,
        &vec![
            CallArgument::Address(address),
            CallArgument::Word(amount),
            CallArgument::Encoded(vec![1, 2, 3]),
        ],
    );
    assert_eq!(data.len(), 4 + 32 + 32 + 3);
    assert_eq!(data[..4], selector);
    assert_eq!(data[4..36], encode_address(address.as_bytes()));
    assert_eq!(data[36..68], encode_u256(&amount));
    assert_eq!(data[68..], [1, 2, 3]);
    assert_eq!(call_data(&selector, &vec![]), selector.to_vec());
}

#[test]
fn an_identity_call_gives_the_argument_back() {
    let identity = function(
        "identity",
        vec![param("value", "uint256")],
        vec![param("", "uint256")],
        "pure",
    );
    let binding = generate_function_implementation(&identity).unwrap();
    assert_eq!(binding.encoders, vec![Encoder::Word256]);
    assert_eq!(binding.decoder, Decoder::Word256);
    let value = U256::from(u64::MAX).mulmod(U256::from(u64::MAX), U256::max());
    let data = call_data(&binding.selector, &vec![CallArgument::Word(value)]);
    let returned = &data[4..];
    assert_eq!(decode_u256(returned), Ok(value));
}

#[test]
fn failures_of_an_import_are_reported() {
    assert_eq!(
        ImportError::ArgumentCount.message(),
        "import! macro expects one or two arguments: (abi_path) or (abi_path, contract_name)"
    );
    assert_eq!(
        ImportError::AbiPathNotText.message(),
        "First argument must be a string literal for ABI path"
    );
    assert_eq!(
        ImportError::ContractNameNotText.message(),
        "Second argument must be a string literal for contract name"
    );
    assert_eq!(
        ImportError::Function {
            index: 12,
            error: BindingError::UnsupportedReturnType
        }
        .message(),
        "ABI entry 12: Unsupported return type"
    );
    assert_eq!(
        BindingError::MultipleReturnValues.message(),
        "Multiple return values not yet supported"
    );
}
