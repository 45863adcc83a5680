use type_evaluation::environment::IrProgramTypes;
use type_evaluation::evaluation::check_types;
use type_evaluation::evaluation::evaluate_types;
use type_evaluation::evaluation::Step;
use type_evaluation::ids::ArrayTypeId;
use type_evaluation::ids::FunctionDeclarationId;
use type_evaluation::ids::Ssaid;
use type_evaluation::ids::StructTypeId;
use type_evaluation::ids::TypeId;
use type_evaluation::ir::Function;
use type_evaluation::ir::Instruction;
use type_evaluation::ir::IrProgram;
use type_evaluation::ir::StaticValueKind;
use type_evaluation::ir::TypeName;
use type_evaluation::table::IdTable;
use type_evaluation::types::LookupKind;
use type_evaluation::types::Type;
use type_evaluation::types::TypeError;

fn program(
    top_level: Vec<Instruction>,
    functions: Vec<Function>,
    type_names: Vec<TypeName>,
    struct_field_identifier: Vec<u64>,
    statics: Vec<(u64, StaticValueKind)>,
) -> IrProgram {
    let mut static_values: IdTable<StaticValueKind> = IdTable::new();
    for (value_id, kind) in statics {
        static_values.insert(value_id, kind);
    }
    IrProgram { top_level, functions, type_names, struct_field_identifier, static_values }
}

/// The common prelude: integer and string primitives declared under their
/// own names, as identities 1 and 2.
fn primitive_declarations() -> Vec<Instruction> {
    vec![
        Instruction::DeclareIntegerType { receiver: TypeId(1), type_name_id: 0 },
        Instruction::DeclareStringType { receiver: TypeId(2), type_name_id: 1 },
    ]
}

fn base_type_names() -> Vec<TypeName> {
    vec![TypeName::SignedInteger, TypeName::String, TypeName::Named(0)]
}

#[test]
fn scenario_a_struct_field_read_resolves_integer() {
    let mut top = primitive_declarations();
    top.push(Instruction::AnonymousValue(Ssaid(10)));
    top.push(Instruction::AnonymousValue(Ssaid(11)));
    top.push(Instruction::StructDeclaration {
        receiver: TypeId(3),
        field_name_ids: vec![0, 1],
        field_type_name_ids: vec![0, 0],
        type_name_id: 2,
    });
    top.push(Instruction::StructInit {
        struct_identifier: 2,
        receiver: Ssaid(12),
        field_values: vec![Ssaid(10), Ssaid(11)],
    });
    top.push(Instruction::ReadStructField { struct_value: Ssaid(12), field: 0, receiver: Ssaid(13) });
    let prog = program(
        top,
        vec![],
        base_type_names(),
        vec![1001, 1002],
        vec![(10, StaticValueKind::Integer), (11, StaticValueKind::Integer)],
    );
    let evaluated = evaluate_types(&prog).unwrap();
    let env = &evaluated.top_level_types;
    assert_eq!(env.lookup_variable_type(Ssaid(13)), Ok(Type::Integer(32)));
    assert_eq!(env.lookup_variable_type(Ssaid(10)), Ok(Type::Integer(32)));
    assert_eq!(env.lookup_variable_type(Ssaid(12)), Ok(Type::Struct(StructTypeId(0))));
}

#[test]
fn scenario_b_wrong_field_value_type_mismatch() {
    let mut top = primitive_declarations();
    top.push(Instruction::AnonymousValue(Ssaid(10)));
    top.push(Instruction::AnonymousValue(Ssaid(11)));
    top.push(Instruction::StructDeclaration {
        receiver: TypeId(3),
        field_name_ids: vec![0, 1],
        field_type_name_ids: vec![0, 0],
        type_name_id: 2,
    });
    top.push(Instruction::StructInit {
        struct_identifier: 2,
        receiver: Ssaid(12),
        field_values: vec![Ssaid(10), Ssaid(11)],
    });
    let prog = program(
        top,
        vec![],
        base_type_names(),
        vec![1001, 1002],
        // the first field value is a string literal, the field wants Integer
        vec![(10, StaticValueKind::String), (11, StaticValueKind::Integer)],
    );
    assert_eq!(evaluate_types(&prog).unwrap_err(), TypeError::TypeMismatch);
}

#[test]
fn scenario_c_array_lookup_resolves_integer() {
    let mut top = primitive_declarations();
    top.push(Instruction::AnonymousValue(Ssaid(10)));
    top.push(Instruction::AnonymousValue(Ssaid(11)));
    top.push(Instruction::AnonymousValue(Ssaid(12)));
    top.push(Instruction::InitArray {
        elements: vec![Ssaid(10), Ssaid(11), Ssaid(12)],
        receiver: Ssaid(20),
        type_id: TypeId(5),
    });
    top.push(Instruction::ArrayLookup { array: Ssaid(20), index: Ssaid(10), result: Ssaid(21) });
    let prog = program(
        top,
        vec![],
        base_type_names(),
        vec![],
        vec![
            (10, StaticValueKind::Integer),
            (11, StaticValueKind::Integer),
            (12, StaticValueKind::Integer),
        ],
    );
    let evaluated = evaluate_types(&prog).unwrap();
    let env = &evaluated.top_level_types;
    assert_eq!(env.lookup_variable_type(Ssaid(20)), Ok(Type::Array(ArrayTypeId(0))));
    assert_eq!(env.array_types[0].length, 3);
    assert_eq!(env.array_types[0].element_type, TypeId(1));
    assert_eq!(env.lookup_variable_type(Ssaid(21)), Ok(Type::Integer(32)));
}

#[test]
fn scenario_d_top_level_primitive_visible_in_seeded_function() {
    let top = primitive_declarations();
    let body = vec![Instruction::AnonymousValue(Ssaid(30))];
    let prog = program(
        top,
        vec![Function { id: FunctionDeclarationId(7), body }],
        base_type_names(),
        vec![],
        vec![(30, StaticValueKind::Integer)],
    );
    let evaluated = evaluate_types(&prog).unwrap();
    assert_eq!(evaluated.function_types.len(), 1);
    assert_eq!(evaluated.function_types[0].function_id, FunctionDeclarationId(7));
    let function_env = &evaluated.function_types[0].types;
    // the literal typed inside the function, against the top-level primitive
    assert_eq!(function_env.lookup_variable_type(Ssaid(30)), Ok(Type::Integer(32)));
    // the seeding is a copy: the top-level environment never saw value 30
    assert_eq!(
        evaluated.top_level_types.lookup_variable_type(Ssaid(30)),
        Err(TypeError::LookupFailure(LookupKind::UnmappedValue)),
    );
}

#[test]
fn nominal_distinctness_identical_shapes_do_not_mix() {
    // Inner1 and Inner2 are declared with exactly the same shape; Outer's
    // field wants Inner1, and a value of Inner2 must be rejected.
    let mut top = primitive_declarations();
    top.push(Instruction::AnonymousValue(Ssaid(10)));
    top.push(Instruction::StructDeclaration {
        receiver: TypeId(3),
        field_name_ids: vec![0],
        field_type_name_ids: vec![0],
        type_name_id: 2,
    });
    top.push(Instruction::StructDeclaration {
        receiver: TypeId(4),
        field_name_ids: vec![0],
        field_type_name_ids: vec![0],
        type_name_id: 3,
    });
    top.push(Instruction::StructDeclaration {
        receiver: TypeId(5),
        field_name_ids: vec![1],
        field_type_name_ids: vec![2],
        type_name_id: 4,
    });
    top.push(Instruction::StructInit {
        struct_identifier: 3,
        receiver: Ssaid(12),
        field_values: vec![Ssaid(10)],
    });
    top.push(Instruction::StructInit {
        struct_identifier: 4,
        receiver: Ssaid(13),
        field_values: vec![Ssaid(12)],
    });
    let type_names = vec![
        TypeName::SignedInteger,
        TypeName::String,
        TypeName::Named(0), // Inner1
        TypeName::Named(1), // Inner2
        TypeName::Named(2), // Outer, whose field is declared as Inner1
    ];
    let prog = program(
        top,
        vec![],
        type_names,
        vec![2001, 2002],
        vec![(10, StaticValueKind::Integer)],
    );
    assert_eq!(evaluate_types(&prog).unwrap_err(), TypeError::TypeMismatch);
}

#[test]
fn nominal_distinctness_two_declarations_two_identities() {
    let mut top = primitive_declarations();
    top.push(Instruction::AnonymousValue(Ssaid(10)));
    top.push(Instruction::StructDeclaration {
        receiver: TypeId(3),
        field_name_ids: vec![0],
        field_type_name_ids: vec![0],
        type_name_id: 2,
    });
    top.push(Instruction::StructDeclaration {
        receiver: TypeId(4),
        field_name_ids: vec![0],
        field_type_name_ids: vec![0],
        type_name_id: 3,
    });
    top.push(Instruction::StructInit {
        struct_identifier: 2,
        receiver: Ssaid(11),
        field_values: vec![Ssaid(10)],
    });
    top.push(Instruction::StructInit {
        struct_identifier: 3,
        receiver: Ssaid(12),
        field_values: vec![Ssaid(10)],
    });
    let type_names = vec![
        TypeName::SignedInteger,
        TypeName::String,
        TypeName::Named(0),
        TypeName::Named(1),
    ];
    let prog = program(
        top,
        vec![],
        type_names,
        vec![2001],
        vec![(10, StaticValueKind::Integer)],
    );
    let evaluated = evaluate_types(&prog).unwrap();
    let env = &evaluated.top_level_types;
    let first = env.lookup_variable_type(Ssaid(11)).unwrap();
    let second = env.lookup_variable_type(Ssaid(12)).unwrap();
    assert_eq!(first, Type::Struct(StructTypeId(0)));
    assert_eq!(second, Type::Struct(StructTypeId(1)));
    assert_ne!(first, second);
    // the two interned descriptors are equal in shape: only the identity differs
    assert_eq!(env.struct_types[0].field_ids, env.struct_types[1].field_ids);
    assert_eq!(env.struct_types[0].field_types, env.struct_types[1].field_types);
}

#[test]
fn field_resolution_ignores_global_table_order() {
    // Declared order: ident 200 : Integer, ident 300 : Integer,
    // ident 100 : String — while the global table is [100, 200, 300].
    let mut top = primitive_declarations();
    top.push(Instruction::AnonymousValue(Ssaid(10)));
    top.push(Instruction::AnonymousValue(Ssaid(11)));
    top.push(Instruction::AnonymousValue(Ssaid(12)));
    top.push(Instruction::StructDeclaration {
        receiver: TypeId(3),
        field_name_ids: vec![1, 2, 0],
        field_type_name_ids: vec![0, 0, 1],
        type_name_id: 2,
    });
    top.push(Instruction::StructInit {
        struct_identifier: 2,
        receiver: Ssaid(13),
        field_values: vec![Ssaid(10), Ssaid(11), Ssaid(12)],
    });
    // slot 2 of the global table references ident 300: declared field 1
    top.push(Instruction::ReadStructField { struct_value: Ssaid(13), field: 2, receiver: Ssaid(14) });
    let prog = program(
        top,
        vec![],
        base_type_names(),
        vec![100, 200, 300],
        vec![
            (10, StaticValueKind::Integer),
            (11, StaticValueKind::Integer),
            (12, StaticValueKind::String),
        ],
    );
    let evaluated = evaluate_types(&prog).unwrap();
    let env = &evaluated.top_level_types;
    assert_eq!(env.calculate_struct_field_position(Ssaid(13), 2, &prog), Ok(1));
    assert_eq!(env.calculate_struct_field_position(Ssaid(13), 0, &prog), Ok(2));
    assert_eq!(env.lookup_variable_type(Ssaid(14)), Ok(Type::Integer(32)));
}

#[test]
fn array_typing_takes_only_first_element_type() {
    // Documented current behavior: a mixed [int, string] array succeeds
    // as an integer array — the tail is not checked.
    let mut top = primitive_declarations();
    top.push(Instruction::AnonymousValue(Ssaid(10)));
    top.push(Instruction::AnonymousValue(Ssaid(11)));
    top.push(Instruction::InitArray {
        elements: vec![Ssaid(10), Ssaid(11)],
        receiver: Ssaid(20),
        type_id: TypeId(5),
    });
    top.push(Instruction::ArrayLookup { array: Ssaid(20), index: Ssaid(10), result: Ssaid(21) });
    let prog = program(
        top,
        vec![],
        base_type_names(),
        vec![],
        vec![(10, StaticValueKind::Integer), (11, StaticValueKind::String)],
    );
    let evaluated = evaluate_types(&prog).unwrap();
    let env = &evaluated.top_level_types;
    assert_eq!(env.array_types[0].length, 2);
    assert_eq!(env.lookup_variable_type(Ssaid(21)), Ok(Type::Integer(32)));
}

#[test]
fn assign_propagates_type_of_typed_source() {
    let mut top = primitive_declarations();
    top.push(Instruction::AnonymousValue(Ssaid(10)));
    top.push(Instruction::Assign { result: Ssaid(14), source: Ssaid(10) });
    let prog = program(
        top,
        vec![],
        base_type_names(),
        vec![],
        vec![(10, StaticValueKind::Integer)],
    );
    let evaluated = evaluate_types(&prog).unwrap();
    assert_eq!(
        evaluated.top_level_types.lookup_variable_type(Ssaid(14)),
        Ok(Type::Integer(32)),
    );
}

#[test]
fn assign_from_untyped_source_leaves_result_untyped() {
    let mut top = primitive_declarations();
    top.push(Instruction::Assign { result: Ssaid(15), source: Ssaid(99) });
    let prog = program(top, vec![], base_type_names(), vec![], vec![]);
    let evaluated = evaluate_types(&prog).unwrap();
    assert_eq!(
        evaluated.top_level_types.lookup_variable_type(Ssaid(15)),
        Err(TypeError::LookupFailure(LookupKind::UnmappedValue)),
    );
}

#[test]
fn untyped_instructions_are_ignored() {
    let top = vec![Instruction::Other, Instruction::Other];
    let prog = program(top, vec![], vec![], vec![], vec![]);
    let evaluated = evaluate_types(&prog).unwrap();
    assert_eq!(
        evaluated.top_level_types.lookup_variable_type(Ssaid(0)),
        Err(TypeError::LookupFailure(LookupKind::UnmappedValue)),
    );
}

#[test]
fn first_failing_function_aborts_orchestration() {
    let top = primitive_declarations();
    let failing = Function {
        id: FunctionDeclarationId(1),
        // an anonymous value with no entry in the constant pool
        body: vec![Instruction::AnonymousValue(Ssaid(40))],
    };
    let never_reached = Function {
        id: FunctionDeclarationId(2),
        body: vec![Instruction::AnonymousValue(Ssaid(41))],
    };
    let prog = program(
        top,
        vec![failing, never_reached],
        base_type_names(),
        vec![],
        vec![(41, StaticValueKind::Integer)],
    );
    assert_eq!(
        evaluate_types(&prog).unwrap_err(),
        TypeError::LookupFailure(LookupKind::UnknownLiteral),
    );
}

#[test]
fn literal_before_primitive_declaration_fails() {
    let top = vec![Instruction::AnonymousValue(Ssaid(10))];
    let prog = program(
        top,
        vec![],
        base_type_names(),
        vec![],
        vec![(10, StaticValueKind::Integer)],
    );
    assert_eq!(
        evaluate_types(&prog).unwrap_err(),
        TypeError::LookupFailure(LookupKind::UndeclaredType),
    );
}

#[test]
fn other_literal_kinds_stay_untyped() {
    let mut top = primitive_declarations();
    top.push(Instruction::AnonymousValue(Ssaid(10)));
    let prog = program(
        top,
        vec![],
        base_type_names(),
        vec![],
        vec![(10, StaticValueKind::Other)],
    );
    let evaluated = evaluate_types(&prog).unwrap();
    assert_eq!(
        evaluated.top_level_types.lookup_variable_type(Ssaid(10)),
        Err(TypeError::LookupFailure(LookupKind::UnmappedValue)),
    );
}

#[test]
fn declaration_with_unknown_type_name_reference_fails() {
    let top = vec![Instruction::DeclareIntegerType { receiver: TypeId(1), type_name_id: 99 }];
    let prog = program(top, vec![], base_type_names(), vec![], vec![]);
    assert_eq!(
        evaluate_types(&prog).unwrap_err(),
        TypeError::LookupFailure(LookupKind::UnknownTypeName),
    );
}

#[test]
fn struct_declaration_with_undeclared_field_type_fails() {
    // no primitives declared: the field's type name resolves to nothing
    let top = vec![Instruction::StructDeclaration {
        receiver: TypeId(3),
        field_name_ids: vec![0],
        field_type_name_ids: vec![0],
        type_name_id: 2,
    }];
    let prog = program(top, vec![], base_type_names(), vec![1001], vec![]);
    assert_eq!(
        evaluate_types(&prog).unwrap_err(),
        TypeError::LookupFailure(LookupKind::UndeclaredType),
    );
}

#[test]
fn struct_init_of_undeclared_struct_fails() {
    let mut top = primitive_declarations();
    top.push(Instruction::StructInit {
        struct_identifier: 2,
        receiver: Ssaid(12),
        field_values: vec![],
    });
    let prog = program(top, vec![], base_type_names(), vec![], vec![]);
    assert_eq!(
        evaluate_types(&prog).unwrap_err(),
        TypeError::LookupFailure(LookupKind::UndeclaredType),
    );
}

#[test]
fn struct_init_with_unmapped_field_value_fails() {
    let mut top = primitive_declarations();
    top.push(Instruction::StructDeclaration {
        receiver: TypeId(3),
        field_name_ids: vec![0],
        field_type_name_ids: vec![0],
        type_name_id: 2,
    });
    top.push(Instruction::StructInit {
        struct_identifier: 2,
        receiver: Ssaid(12),
        field_values: vec![Ssaid(77)],
    });
    let prog = program(top, vec![], base_type_names(), vec![1001], vec![]);
    assert_eq!(
        evaluate_types(&prog).unwrap_err(),
        TypeError::LookupFailure(LookupKind::UnmappedValue),
    );
}

#[test]
fn empty_array_initializer_fails() {
    let top = vec![Instruction::InitArray {
        elements: vec![],
        receiver: Ssaid(20),
        type_id: TypeId(5),
    }];
    let prog = program(top, vec![], base_type_names(), vec![], vec![]);
    assert_eq!(
        evaluate_types(&prog).unwrap_err(),
        TypeError::LookupFailure(LookupKind::EmptyArrayInit),
    );
}

#[test]
fn array_lookup_on_non_array_fails() {
    let mut top = primitive_declarations();
    top.push(Instruction::AnonymousValue(Ssaid(10)));
    top.push(Instruction::ArrayLookup { array: Ssaid(10), index: Ssaid(10), result: Ssaid(21) });
    let prog = program(
        top,
        vec![],
        base_type_names(),
        vec![],
        vec![(10, StaticValueKind::Integer)],
    );
    assert_eq!(evaluate_types(&prog).unwrap_err(), TypeError::TypeMismatch);
}

#[test]
fn field_position_on_non_struct_is_type_mismatch() {
    let mut env = IrProgramTypes::new();
    env.variable_types.insert(5, TypeId(1));
    env.comp_time_types.insert(1, Type::Integer(32));
    let prog = program(vec![], vec![], vec![], vec![1001], vec![]);
    assert_eq!(
        env.calculate_struct_field_position(Ssaid(5), 0, &prog),
        Err(TypeError::TypeMismatch),
    );
}

#[test]
fn field_position_with_missing_descriptor_fails() {
    let mut env = IrProgramTypes::new();
    env.variable_types.insert(5, TypeId(1));
    env.comp_time_types.insert(1, Type::Struct(StructTypeId(3)));
    let prog = program(vec![], vec![], vec![], vec![1001], vec![]);
    assert_eq!(
        env.calculate_struct_field_position(Ssaid(5), 0, &prog),
        Err(TypeError::LookupFailure(LookupKind::UnknownDescriptor)),
    );
}

#[test]
fn field_position_with_out_of_bounds_reference_fails() {
    let mut top = primitive_declarations();
    top.push(Instruction::AnonymousValue(Ssaid(10)));
    top.push(Instruction::StructDeclaration {
        receiver: TypeId(3),
        field_name_ids: vec![0],
        field_type_name_ids: vec![0],
        type_name_id: 2,
    });
    top.push(Instruction::StructInit {
        struct_identifier: 2,
        receiver: Ssaid(12),
        field_values: vec![Ssaid(10)],
    });
    let prog = program(
        top,
        vec![],
        base_type_names(),
        vec![1001, 9999],
        vec![(10, StaticValueKind::Integer)],
    );
    let evaluated = evaluate_types(&prog).unwrap();
    let env = &evaluated.top_level_types;
    assert_eq!(
        env.calculate_struct_field_position(Ssaid(12), 50, &prog),
        Err(TypeError::LookupFailure(LookupKind::FieldReferenceOutOfBounds)),
    );
    // slot 1 references identifier 9999, which no declared field carries
    assert_eq!(
        env.calculate_struct_field_position(Ssaid(12), 1, &prog),
        Err(TypeError::MissingField),
    );
}

#[test]
fn lookup_failures_name_the_missing_hop() {
    let mut env = IrProgramTypes::new();
    assert_eq!(
        env.lookup_variable_type(Ssaid(5)),
        Err(TypeError::LookupFailure(LookupKind::UnmappedValue)),
    );
    env.variable_types.insert(5, TypeId(9));
    assert_eq!(
        env.lookup_variable_type(Ssaid(5)),
        Err(TypeError::LookupFailure(LookupKind::UnresolvedTypeIdentity)),
    );
    env.comp_time_types.insert(9, Type::String);
    assert_eq!(env.lookup_variable_type(Ssaid(5)), Ok(Type::String));
}

#[test]
fn check_types_reports_exhaustion_and_next_offset() {
    let block = vec![Instruction::Other];
    let prog = program(vec![], vec![], vec![], vec![], vec![]);
    let mut env = IrProgramTypes::new();
    assert_eq!(check_types(0, &block, &prog, &mut env), Ok(Step::NextOffset(1)));
    assert_eq!(check_types(1, &block, &prog, &mut env), Ok(Step::BlockExhausted));
}

#[test]
fn deep_copy_is_independent() {
    let mut env = IrProgramTypes::new();
    env.variable_types.insert(5, TypeId(1));
    env.comp_time_types.insert(1, Type::Integer(32));
    let copied = env.deep_copy();
    env.variable_types.insert(6, TypeId(1));
    env.comp_time_types.insert(1, Type::String);
    assert_eq!(copied.lookup_variable_type(Ssaid(5)), Ok(Type::Integer(32)));
    assert_eq!(
        copied.lookup_variable_type(Ssaid(6)),
        Err(TypeError::LookupFailure(LookupKind::UnmappedValue)),
    );
    assert_eq!(env.lookup_variable_type(Ssaid(5)), Ok(Type::String));
}

#[test]
fn redeclaration_of_a_name_overwrites() {
    let mut top = vec![
        Instruction::DeclareIntegerType { receiver: TypeId(1), type_name_id: 0 },
        Instruction::DeclareStringType { receiver: TypeId(2), type_name_id: 0 },
    ];
    top.push(Instruction::AnonymousValue(Ssaid(10)));
    let prog = program(
        top,
        vec![],
        vec![TypeName::String],
        vec![],
        vec![(10, StaticValueKind::String)],
    );
    // the name now resolves to the string declaration: last write wins
    let evaluated = evaluate_types(&prog).unwrap();
    assert_eq!(
        evaluated.top_level_types.lookup_variable_type(Ssaid(10)),
        Ok(Type::String),
    );
}
