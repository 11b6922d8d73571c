use ffi_bridge::abi::{abi_align_of, abi_size_of, AbiType, CallInterface};
use ffi_bridge::dylib::{
    decode_result, marshal_arg, ArgSlot, DynamicLibrary, LoadOutcome, ResolvedShape,
};
use ffi_bridge::errors::{ConfigError, InvokeError, LoadError};
use ffi_bridge::symbol::{ShapeDescription, SymbolShape};
use ffi_bridge::types::{token_type, FfiType, TypeDescription, TypeTag};
use ffi_bridge::value::{DynamicValue, ValueKind};

fn name(s: &str) -> TypeDescription {
    TypeDescription::Name(s.to_string())
}

#[test]
fn tokens_map_to_documented_descriptors() {
    let table: Vec<(&str, FfiType)> = vec![
        ("void", FfiType::Void),
        ("int8", FfiType::Int8),
        ("i8", FfiType::Int8),
        ("signed char", FfiType::Int8),
        ("int16", FfiType::Int16),
        ("i16", FfiType::Int16),
        ("short", FfiType::Int16),
        ("int32", FfiType::Int32),
        ("i32", FfiType::Int32),
        ("int", FfiType::Int32),
        ("int64", FfiType::Int64),
        ("i64", FfiType::Int64),
        ("long", FfiType::Int64),
        ("uint8", FfiType::UInt8),
        ("u8", FfiType::UInt8),
        ("char", FfiType::UInt8),
        ("unsigned char", FfiType::UInt8),
        ("uint16", FfiType::UInt16),
        ("u16", FfiType::UInt16),
        ("unsigned short int", FfiType::UInt16),
        ("uint32", FfiType::UInt32),
        ("u32", FfiType::UInt32),
        ("unsigned int", FfiType::UInt32),
        ("uint64", FfiType::UInt64),
        ("u64", FfiType::UInt64),
        ("unsigned long", FfiType::UInt64),
        ("float32", FfiType::Float32),
        ("f32", FfiType::Float32),
        ("float", FfiType::Float32),
        ("float64", FfiType::Float64),
        ("f64", FfiType::Float64),
        ("double", FfiType::Float64),
        ("string", FfiType::String),
        ("char*", FfiType::String),
        ("pointer", FfiType::Pointer),
        ("void*", FfiType::Pointer),
    ];
    for (tok, expected) in table {
        assert_eq!(token_type(tok), Some(expected), "token {tok}");
    }
    assert_eq!(token_type("VOID"), None);
    assert_eq!(token_type("uint128"), None);
    assert_eq!(token_type(""), None);
}

#[test]
fn parse_rejects_bad_descriptions() {
    assert_eq!(
        FfiType::parse(&name("banana")),
        Err(ConfigError::InvalidTypeDescriptor)
    );
    assert_eq!(
        FfiType::parse(&TypeDescription::Fields(vec![])),
        Err(ConfigError::InvalidTypeDescriptor)
    );
    // a struct field may not be void: it occupies no space
    assert_eq!(
        FfiType::parse(&TypeDescription::Fields(vec![name("void")])),
        Err(ConfigError::InvalidTypeDescriptor)
    );
    assert_eq!(
        FfiType::parse(&TypeDescription::Fields(vec![name("i32"), name("oops")])),
        Err(ConfigError::InvalidTypeDescriptor)
    );
}

#[test]
fn parse_builds_nested_structs() {
    let desc = TypeDescription::Fields(vec![
        name("u16"),
        TypeDescription::Fields(vec![name("i32"), name("i8")]),
    ]);
    let got = FfiType::parse(&desc).unwrap();
    assert_eq!(
        got,
        FfiType::Struct(vec![
            FfiType::UInt16,
            FfiType::Struct(vec![FfiType::Int32, FfiType::Int8]),
        ])
    );
}

#[test]
fn lowering_round_trip_is_canonical() {
    // every token's descriptor lowers, reads back, and lowers to the
    // same element again; text reads back as the opaque pointer
    for tok in ["i8", "u64", "float", "double", "pointer", "string", "void"] {
        let t = token_type(tok).unwrap();
        let a = t.into_type();
        let t2 = a.from_abi();
        let a2 = t2.into_type();
        assert_eq!(a, a2, "token {tok}");
        if t == FfiType::String {
            assert_eq!(t2, FfiType::Pointer);
        } else {
            assert_eq!(t2, t);
        }
    }
    assert_eq!(FfiType::Int32.into_type(), AbiType::SInt32);
    assert_eq!(FfiType::String.into_type(), AbiType::Pointer);
}

#[test]
fn shape_parse_requires_all_fields() {
    let ok = ShapeDescription {
        name: Some("add".to_string()),
        parameters: Some(vec![name("i32"), name("i32")]),
        result: Some(name("i32")),
    };
    let shape = SymbolShape::parse(&ok).unwrap();
    assert_eq!(shape.ident, "add");
    assert_eq!(shape.parameters, vec![FfiType::Int32, FfiType::Int32]);
    assert_eq!(shape.result, FfiType::Int32);

    let missing_name = ShapeDescription {
        name: None,
        parameters: Some(vec![]),
        result: Some(name("void")),
    };
    assert_eq!(
        SymbolShape::parse(&missing_name),
        Err(ConfigError::InvalidSymbolShape)
    );
    let missing_result = ShapeDescription {
        name: Some("f".to_string()),
        parameters: Some(vec![]),
        result: None,
    };
    assert_eq!(
        SymbolShape::parse(&missing_result),
        Err(ConfigError::InvalidSymbolShape)
    );
    // a void parameter is rejected; a void result is fine
    let void_param = ShapeDescription {
        name: Some("f".to_string()),
        parameters: Some(vec![name("void")]),
        result: Some(name("void")),
    };
    assert_eq!(
        SymbolShape::parse(&void_param),
        Err(ConfigError::InvalidSymbolShape)
    );
    let void_result = ShapeDescription {
        name: Some("f".to_string()),
        parameters: Some(vec![]),
        result: Some(name("void")),
    };
    assert!(SymbolShape::parse(&void_result).is_ok());
}

fn shape(ident: &str, params: Vec<FfiType>, result: FfiType) -> SymbolShape {
    SymbolShape {
        ident: ident.to_string(),
        parameters: params,
        result,
    }
}

#[test]
fn compile_lowers_parameters_and_result() {
    let s = shape("f", vec![FfiType::Int32, FfiType::String], FfiType::Float64);
    let c: CallInterface = s.into_cif();
    assert_eq!(c.parameters, vec![AbiType::SInt32, AbiType::Pointer]);
    assert_eq!(c.result, AbiType::Double);
}

#[test]
fn load_failure_produces_no_handle() {
    let r = DynamicLibrary::new(&"/no/such/module.so".to_string(), LoadOutcome::OpenFailed);
    assert_eq!(
        r,
        Err(LoadError::LibraryLoad {
            path: "/no/such/module.so".to_string()
        })
    );
}

#[test]
fn one_unresolvable_symbol_fails_the_whole_load() {
    let rs = vec![
        ResolvedShape {
            shape: shape("present", vec![], FfiType::Void),
            addr: Some(0x1000),
        },
        ResolvedShape {
            shape: shape("absent", vec![], FfiType::Void),
            addr: None,
        },
    ];
    let r = DynamicLibrary::new(&"lib.so".to_string(), LoadOutcome::Opened(rs));
    match r {
        Err(LoadError::SymbolNotFound { name }) => assert_eq!(name, "absent"),
        other => panic!("expected SymbolNotFound, got {other:?}"),
    }
}

#[test]
fn a_null_address_is_a_load_time_fault() {
    let rs = vec![ResolvedShape {
        shape: shape("nullish", vec![], FfiType::Void),
        addr: Some(0),
    }];
    let r = DynamicLibrary::new(&"lib.so".to_string(), LoadOutcome::Opened(rs));
    match r {
        Err(LoadError::SymbolNotFound { name }) => assert_eq!(name, "nullish"),
        other => panic!("expected SymbolNotFound, got {other:?}"),
    }
}

fn loaded(symbols: Vec<(SymbolShape, usize)>) -> DynamicLibrary {
    let rs = symbols
        .into_iter()
        .map(|(shape, addr)| ResolvedShape {
            shape,
            addr: Some(addr),
        })
        .collect();
    DynamicLibrary::new(&"lib.so".to_string(), LoadOutcome::Opened(rs)).unwrap()
}

#[test]
fn successful_load_registers_every_symbol() {
    let lib = loaded(vec![
        (shape("a", vec![], FfiType::Void), 0x10),
        (shape("b", vec![FfiType::Int32], FfiType::Int32), 0x20),
    ]);
    let a = lib.symbol(&"a".to_string()).unwrap();
    assert_eq!(a.addr, 0x10);
    let b = lib.symbol(&"b".to_string()).unwrap();
    assert_eq!(b.addr, 0x20);
    assert_eq!(b.interface.parameters, vec![AbiType::SInt32]);
    assert!(lib.symbol(&"c".to_string()).is_none());
}

#[test]
fn a_later_registration_of_an_identifier_wins() {
    let lib = loaded(vec![
        (shape("f", vec![], FfiType::Void), 0x10),
        (shape("f", vec![], FfiType::Int32), 0x20),
    ]);
    let f = lib.symbol(&"f".to_string()).unwrap();
    assert_eq!(f.addr, 0x20);
    assert_eq!(f.shape.result, FfiType::Int32);
    assert_eq!(lib.symbols.len(), 1);
}

#[test]
fn unknown_symbol_is_reported_by_name() {
    let lib = loaded(vec![(shape("f", vec![], FfiType::Void), 0x10)]);
    let r = lib.prepare_invoke(&"g".to_string(), &vec![]);
    assert_eq!(
        r,
        Err(InvokeError::UnknownSymbol {
            name: "g".to_string()
        })
    );
}

#[test]
fn wrong_arity_fails_before_any_call() {
    let lib = loaded(vec![(
        shape("f", vec![FfiType::Int32, FfiType::Int32], FfiType::Void),
        0x10,
    )]);
    let r = lib.prepare_invoke(&"f".to_string(), &vec![DynamicValue::Integer(1)]);
    assert_eq!(
        r,
        Err(InvokeError::ArityMismatch {
            expected: 2,
            actual: 1
        })
    );
    let r = lib.prepare_invoke(
        &"f".to_string(),
        &vec![
            DynamicValue::Integer(1),
            DynamicValue::Integer(2),
            DynamicValue::Integer(3),
        ],
    );
    assert_eq!(
        r,
        Err(InvokeError::ArityMismatch {
            expected: 2,
            actual: 3
        })
    );
}

#[test]
fn arguments_marshal_per_the_coercion_table() {
    let lib = loaded(vec![(
        shape(
            "f",
            vec![
                FfiType::Int64,
                FfiType::Float64,
                FfiType::String,
                FfiType::UInt8,
                FfiType::Pointer,
                FfiType::Pointer,
            ],
            FfiType::Void,
        ),
        0x10,
    )]);
    let bits = 2.5f64.to_bits();
    let slots = lib
        .prepare_invoke(
            &"f".to_string(),
            &vec![
                DynamicValue::Integer(-7),
                DynamicValue::Number(bits),
                DynamicValue::Text(b"hi".to_vec()),
                DynamicValue::Boolean(true),
                DynamicValue::Handle(0xBEEF),
                DynamicValue::Nil,
            ],
        )
        .unwrap();
    assert_eq!(
        slots,
        vec![
            ArgSlot::Integer(-7),
            ArgSlot::Number(bits),
            ArgSlot::Text(b"hi\0".to_vec()),
            ArgSlot::Boolean(true),
            ArgSlot::Address(0xBEEF),
            ArgSlot::Null,
        ]
    );
}

#[test]
fn text_where_a_struct_is_declared_is_a_type_mismatch() {
    let lib = loaded(vec![(
        shape(
            "f",
            vec![FfiType::Struct(vec![FfiType::Int32])],
            FfiType::Void,
        ),
        0x10,
    )]);
    let r = lib.prepare_invoke(
        &"f".to_string(),
        &vec![DynamicValue::Text(b"oops".to_vec())],
    );
    assert_eq!(
        r,
        Err(InvokeError::ArgumentTypeMismatch {
            index: 0,
            expected: TypeTag::Struct,
            actual: ValueKind::Text
        })
    );
}

#[test]
fn aggregate_and_callable_arguments_are_never_marshalable() {
    // whatever type is declared, a structured or callable value is
    // rejected as unsupported before tag validation
    let lib = loaded(vec![(shape("f", vec![FfiType::String], FfiType::Void), 0x10)]);
    let r = lib.prepare_invoke(&"f".to_string(), &vec![DynamicValue::Aggregate]);
    assert_eq!(r, Err(InvokeError::UnsupportedArgumentType { index: 0 }));
    let r = lib.prepare_invoke(&"f".to_string(), &vec![DynamicValue::Callable]);
    assert_eq!(r, Err(InvokeError::UnsupportedArgumentType { index: 0 }));
}

#[test]
fn aggregate_for_a_declared_struct_is_unsupported() {
    let lib = loaded(vec![(
        shape(
            "f",
            vec![FfiType::Struct(vec![FfiType::Int32])],
            FfiType::Void,
        ),
        0x10,
    )]);
    let r = lib.prepare_invoke(&"f".to_string(), &vec![DynamicValue::Aggregate]);
    assert_eq!(r, Err(InvokeError::UnsupportedArgumentType { index: 0 }));
}

#[test]
fn interior_nul_in_text_is_rejected() {
    let r = marshal_arg(3, &FfiType::String, &DynamicValue::Text(b"a\0b".to_vec()));
    assert_eq!(r, Err(InvokeError::InvalidTextArgument { index: 3 }));
}

#[test]
fn the_first_faulty_argument_is_reported() {
    let lib = loaded(vec![(
        shape("f", vec![FfiType::Int32, FfiType::Int32], FfiType::Void),
        0x10,
    )]);
    let r = lib.prepare_invoke(
        &"f".to_string(),
        &vec![DynamicValue::Nil, DynamicValue::Text(b"x".to_vec())],
    );
    assert_eq!(
        r,
        Err(InvokeError::ArgumentTypeMismatch {
            index: 0,
            expected: TypeTag::Int32,
            actual: ValueKind::Nil
        })
    );
}

#[test]
fn a_declared_struct_result_is_unsupported() {
    let lib = loaded(vec![(
        shape("f", vec![], FfiType::Struct(vec![FfiType::Int32])),
        0x10,
    )]);
    let r = lib.prepare_invoke(&"f".to_string(), &vec![]);
    assert_eq!(r, Err(InvokeError::UnsupportedResultType));
    let d = decode_result(&FfiType::Struct(vec![FfiType::Int32]), 0, None);
    assert_eq!(d, Err(InvokeError::UnsupportedResultType));
}

#[test]
fn negative_int32_results_sign_extend() {
    // the raw return word holds the 32-bit value -1 in its low bits
    let r = decode_result(&FfiType::Int32, 0xFFFF_FFFFu64, None).unwrap();
    assert_eq!(r, DynamicValue::Integer(-1));
    let r = decode_result(&FfiType::Int8, 0x80u64, None).unwrap();
    assert_eq!(r, DynamicValue::Integer(-128));
    let r = decode_result(&FfiType::Int16, 0xFFFEu64, None).unwrap();
    assert_eq!(r, DynamicValue::Integer(-2));
}

#[test]
fn byte_results_do_not_misread_the_sign() {
    let r = decode_result(&FfiType::UInt8, 255u64, None).unwrap();
    assert_eq!(r, DynamicValue::Integer(255));
    let r = decode_result(&FfiType::UInt16, 0xFFFFu64, None).unwrap();
    assert_eq!(r, DynamicValue::Integer(65535));
    let r = decode_result(&FfiType::UInt32, 0xFFFF_FFFFu64, None).unwrap();
    assert_eq!(r, DynamicValue::Integer(4294967295));
}

#[test]
fn scalar_results_decode_by_declared_type() {
    assert_eq!(
        decode_result(&FfiType::Void, 123, None).unwrap(),
        DynamicValue::Nil
    );
    assert_eq!(
        decode_result(&FfiType::Int64, (-5i64) as u64, None).unwrap(),
        DynamicValue::Integer(-5)
    );
    let bits = 6.25f64.to_bits();
    assert_eq!(
        decode_result(&FfiType::Float64, bits, None).unwrap(),
        DynamicValue::Number(bits)
    );
    assert_eq!(
        decode_result(&FfiType::Pointer, 0x1234, None).unwrap(),
        DynamicValue::Handle(0x1234)
    );
}

#[test]
fn string_results_become_owned_text() {
    let r = decode_result(&FfiType::String, 0, Some(b"hello".to_vec())).unwrap();
    assert_eq!(r, DynamicValue::Text(b"hello".to_vec()));
}

#[test]
fn struct_layout_follows_the_platform_rule() {
    // { u16, u64 }: the u64 sits at offset 8, total 16, alignment 8
    let t = FfiType::Struct(vec![FfiType::UInt16, FfiType::UInt64]).into_type();
    assert_eq!(abi_size_of(&t), Some(16));
    assert_eq!(abi_align_of(&t), 8);

    // nested: { i8, { i32, i8 } }: the inner struct is 8 bytes aligned
    // to 4, so it sits at offset 4; total 12
    let inner = FfiType::Struct(vec![FfiType::Int32, FfiType::Int8]);
    let outer = FfiType::Struct(vec![FfiType::Int8, inner]).into_type();
    assert_eq!(abi_size_of(&outer), Some(12));
    assert_eq!(abi_align_of(&outer), 4);

    // the flattened leaves { i8, i32, i8 } give the same total here
    let flat = FfiType::Struct(vec![FfiType::Int8, FfiType::Int32, FfiType::Int8]).into_type();
    assert_eq!(abi_size_of(&flat), Some(12));

    // a single-field struct takes its field's layout
    let one = FfiType::Struct(vec![FfiType::Float32]).into_type();
    assert_eq!(abi_size_of(&one), Some(4));
    assert_eq!(abi_align_of(&one), 4);
}
