use vstd::prelude::*;
use crate::environment::copy_usizes;
use crate::environment::empty_env;
use crate::environment::spec_field_position;
use crate::environment::spec_lookup;
use crate::environment::EnvView;
use crate::environment::IrProgramTypes;
use crate::ids::ArrayTypeId;
use crate::ids::FunctionDeclarationId;
use crate::ids::Ssaid;
use crate::ids::StructTypeId;
use crate::ids::TypeId;
use crate::ir::Function;
use crate::ir::Instruction;
use crate::ir::IrProgram;
use crate::ir::StaticValueKind;
use crate::ir::TypeName;
use crate::types::ArrayType;
use crate::types::LookupKind;
use crate::types::StructType;
use crate::types::StructTypeView;
use crate::types::Type;
use crate::types::TypeError;

verus! {

/// What the transfer function reports for one visit: either the offset of
/// the next instruction to visit, or that the block has no instruction at
/// the visited offset.  The two cases are explicit so that a legitimate
/// next offset can never collide with the "done" signal.
#[derive(Clone, Copy, PartialEq, Eq, Structural, Debug)]
pub enum Step {
    NextOffset(usize),
    BlockExhausted,
}

/// Declaring a primitive type: binds the receiver as a fresh type identity
/// resolving to `resolved`, and registers the syntactic name, overwriting
/// any earlier registration of the same name.
pub open spec fn spec_declare_primitive(
    env: EnvView,
    receiver: TypeId,
    type_name_id: usize,
    resolved: Type,
    prog: IrProgram,
) -> Result<EnvView, TypeError> {
    if type_name_id >= prog.type_names@.len() {
        Err(TypeError::LookupFailure(LookupKind::UnknownTypeName))
    } else {
        Ok(
            EnvView {
                comp_time_types: env.comp_time_types.insert(receiver.0, resolved),
                type_name_ids: env.type_name_ids.insert(
                    prog.type_names@[type_name_id as int],
                    receiver,
                ),
                ..env
            },
        )
    }
}

/// Typing an anonymous literal: the literal's static kind picks the
/// primitive name whose currently registered identity the value receives.
/// Kinds other than integer and string stay untyped, without failure.
pub open spec fn spec_anonymous_value(env: EnvView, value_id: Ssaid, prog: IrProgram) -> Result<
    EnvView,
    TypeError,
> {
    if !prog.static_values@.contains_key(value_id.0) {
        Err(TypeError::LookupFailure(LookupKind::UnknownLiteral))
    } else {
        match prog.static_values@[value_id.0] {
            StaticValueKind::String => {
                if !env.type_name_ids.contains_key(TypeName::String) {
                    Err(TypeError::LookupFailure(LookupKind::UndeclaredType))
                } else {
                    Ok(
                        EnvView {
                            variable_types: env.variable_types.insert(
                                value_id.0,
                                env.type_name_ids[TypeName::String],
                            ),
                            ..env
                        },
                    )
                }
            },
            StaticValueKind::Integer => {
                if !env.type_name_ids.contains_key(TypeName::SignedInteger) {
                    Err(TypeError::LookupFailure(LookupKind::UndeclaredType))
                } else {
                    Ok(
                        EnvView {
                            variable_types: env.variable_types.insert(
                                value_id.0,
                                env.type_name_ids[TypeName::SignedInteger],
                            ),
                            ..env
                        },
                    )
                }
            },
            StaticValueKind::Other => Ok(env),
        }
    }
}

/// Resolution of each declared field's syntactic type name, in declaration
/// order, to the identity currently registered under it.  The first name
/// that is unknown to the program or undeclared in the scope fails.
pub open spec fn spec_resolve_field_types(
    field_type_name_ids: Seq<usize>,
    type_names: Seq<TypeName>,
    name_table: Map<TypeName, TypeId>,
) -> Result<Seq<TypeId>, TypeError>
    decreases field_type_name_ids.len(),
{
    if field_type_name_ids.len() == 0 {
        Ok(Seq::empty())
    } else if field_type_name_ids[0] >= type_names.len() {
        Err(TypeError::LookupFailure(LookupKind::UnknownTypeName))
    } else if !name_table.contains_key(type_names[field_type_name_ids[0] as int]) {
        Err(TypeError::LookupFailure(LookupKind::UndeclaredType))
    } else {
        match spec_resolve_field_types(field_type_name_ids.drop_first(), type_names, name_table) {
            Ok(rest) => Ok(
                seq![name_table[type_names[field_type_name_ids[0] as int]]] + rest,
            ),
            Err(e) => Err(e),
        }
    }
}

/// Declaring a struct type: interns a descriptor holding the field
/// identifiers and, positionally aligned, the resolved field type
/// identities; binds the receiver to the new struct shape; registers the
/// struct's name.
pub open spec fn spec_struct_declaration(
    env: EnvView,
    receiver: TypeId,
    field_name_ids: Seq<usize>,
    field_type_name_ids: Seq<usize>,
    type_name_id: usize,
    prog: IrProgram,
) -> Result<EnvView, TypeError> {
    match spec_resolve_field_types(field_type_name_ids, prog.type_names@, env.type_name_ids) {
        Err(e) => Err(e),
        Ok(field_types) => {
            if type_name_id >= prog.type_names@.len() {
                Err(TypeError::LookupFailure(LookupKind::UnknownTypeName))
            } else {
                Ok(
                    EnvView {
                        struct_types: env.struct_types.push(
                            StructTypeView { field_ids: field_name_ids, field_types },
                        ),
                        comp_time_types: env.comp_time_types.insert(
                            receiver.0,
                            Type::Struct(StructTypeId(env.struct_types.len() as usize)),
                        ),
                        type_name_ids: env.type_name_ids.insert(
                            prog.type_names@[type_name_id as int],
                            receiver,
                        ),
                        ..env
                    },
                )
            }
        },
    }
}

/// The pairwise nominal check of a struct construction: expected field type
/// identities against the supplied values' identities, in declaration
/// order, up to the shorter of the two lists.  `None` means no violation.
pub open spec fn spec_check_field_values(
    expected: Seq<TypeId>,
    values: Seq<Ssaid>,
    variable_types: Map<u64, TypeId>,
) -> Option<TypeError>
    decreases expected.len(),
{
    if expected.len() == 0 || values.len() == 0 {
        None
    } else if !variable_types.contains_key(values[0].0) {
        Some(TypeError::LookupFailure(LookupKind::UnmappedValue))
    } else if variable_types[values[0].0] != expected[0] {
        Some(TypeError::TypeMismatch)
    } else {
        spec_check_field_values(expected.drop_first(), values.drop_first(), variable_types)
    }
}

/// Constructing a struct value: the receiver takes the named type's
/// identity, and every supplied field value must carry exactly the declared
/// field's type identity — nominal equality, not shape equality.
pub open spec fn spec_struct_init(
    env: EnvView,
    struct_identifier: usize,
    receiver: Ssaid,
    field_values: Seq<Ssaid>,
    prog: IrProgram,
) -> Result<EnvView, TypeError> {
    if struct_identifier >= prog.type_names@.len() {
        Err(TypeError::LookupFailure(LookupKind::UnknownTypeName))
    } else if !env.type_name_ids.contains_key(prog.type_names@[struct_identifier as int]) {
        Err(TypeError::LookupFailure(LookupKind::UndeclaredType))
    } else {
        let type_id = env.type_name_ids[prog.type_names@[struct_identifier as int]];
        let bound = EnvView {
            variable_types: env.variable_types.insert(receiver.0, type_id),
            ..env
        };
        if !env.comp_time_types.contains_key(type_id.0) {
            Err(TypeError::LookupFailure(LookupKind::UnresolvedTypeIdentity))
        } else {
            match env.comp_time_types[type_id.0] {
                Type::Struct(struct_type_id) => {
                    if struct_type_id.0 >= env.struct_types.len() {
                        Err(TypeError::LookupFailure(LookupKind::UnknownDescriptor))
                    } else {
                        match spec_check_field_values(
                            env.struct_types[struct_type_id.0 as int].field_types,
                            field_values,
                            bound.variable_types,
                        ) {
                            Some(e) => Err(e),
                            None => Ok(bound),
                        }
                    }
                },
                _ => Err(TypeError::TypeMismatch),
            }
        }
    }
}

/// Reading a struct field: the receiver takes the declared type identity of
/// the field at the resolved position.
pub open spec fn spec_read_struct_field(
    env: EnvView,
    struct_value: Ssaid,
    field: usize,
    receiver: Ssaid,
    prog: IrProgram,
) -> Result<EnvView, TypeError> {
    match spec_field_position(env, struct_value, field, prog) {
        Err(e) => Err(e),
        Ok(position) => match spec_lookup(env, struct_value) {
            Ok(Type::Struct(struct_type_id)) => {
                if struct_type_id.0 >= env.struct_types.len() {
                    Err(TypeError::LookupFailure(LookupKind::UnknownDescriptor))
                } else if position >= env.struct_types[struct_type_id.0 as int].field_types.len() {
                    Err(TypeError::LookupFailure(LookupKind::MissingFieldType))
                } else {
                    Ok(
                        EnvView {
                            variable_types: env.variable_types.insert(
                                receiver.0,
                                env.struct_types[struct_type_id.0 as int].field_types[
                                    position as int
                                ],
                            ),
                            ..env
                        },
                    )
                }
            },
            _ => Err(TypeError::TypeMismatch),
        },
    }
}

/// Initializing an array: the element type is taken solely from the first
/// element's already-known identity — the remaining elements are not
/// checked against it.  The minted identity resolves to the new array
/// shape, and the receiver takes that identity.
pub open spec fn spec_init_array(
    env: EnvView,
    elements: Seq<Ssaid>,
    receiver: Ssaid,
    type_id: TypeId,
) -> Result<EnvView, TypeError> {
    if elements.len() == 0 {
        Err(TypeError::LookupFailure(LookupKind::EmptyArrayInit))
    } else if !env.variable_types.contains_key(elements[0].0) {
        Err(TypeError::LookupFailure(LookupKind::UnmappedValue))
    } else {
        Ok(
            EnvView {
                array_types: env.array_types.push(
                    ArrayType {
                        length: elements.len() as usize,
                        element_type: env.variable_types[elements[0].0],
                    },
                ),
                comp_time_types: env.comp_time_types.insert(
                    type_id.0,
                    Type::Array(ArrayTypeId(env.array_types.len() as usize)),
                ),
                variable_types: env.variable_types.insert(receiver.0, type_id),
                ..env
            },
        )
    }
}

/// A pure copy: a typed source hands its identity to the result, an
/// untyped source leaves the result untyped — no failure either way.
pub open spec fn spec_assign(env: EnvView, result: Ssaid, source: Ssaid) -> Result<
    EnvView,
    TypeError,
> {
    if env.variable_types.contains_key(source.0) {
        Ok(
            EnvView {
                variable_types: env.variable_types.insert(
                    result.0,
                    env.variable_types[source.0],
                ),
                ..env
            },
        )
    } else {
        Ok(env)
    }
}

/// Indexing an array: the value must resolve to an array shape, and the
/// result takes the descriptor's element type identity.
pub open spec fn spec_array_lookup(env: EnvView, array: Ssaid, result: Ssaid) -> Result<
    EnvView,
    TypeError,
> {
    match spec_lookup(env, array) {
        Ok(Type::Array(array_type_id)) => {
            if array_type_id.0 >= env.array_types.len() {
                Err(TypeError::LookupFailure(LookupKind::UnknownDescriptor))
            } else {
                Ok(
                    EnvView {
                        variable_types: env.variable_types.insert(
                            result.0,
                            env.array_types[array_type_id.0 as int].element_type,
                        ),
                        ..env
                    },
                )
            }
        },
        _ => Err(TypeError::TypeMismatch),
    }
}

/// The per-instruction type-transfer relation: how one instruction carries
/// the environment forward, or fails the scope.
pub open spec fn step_spec(env: EnvView, instruction: Instruction, prog: IrProgram) -> Result<
    EnvView,
    TypeError,
> {
    match instruction {
        Instruction::DeclareIntegerType { receiver, type_name_id } => spec_declare_primitive(
            env,
            receiver,
            type_name_id,
            Type::Integer(32),
            prog,
        ),
        Instruction::DeclareStringType { receiver, type_name_id } => spec_declare_primitive(
            env,
            receiver,
            type_name_id,
            Type::String,
            prog,
        ),
        Instruction::AnonymousValue(value_id) => spec_anonymous_value(env, value_id, prog),
        Instruction::StructDeclaration {
            receiver,
            field_name_ids,
            field_type_name_ids,
            type_name_id,
        } => spec_struct_declaration(
            env,
            receiver,
            field_name_ids@,
            field_type_name_ids@,
            type_name_id,
            prog,
        ),
        Instruction::StructInit { struct_identifier, receiver, field_values } => spec_struct_init(
            env,
            struct_identifier,
            receiver,
            field_values@,
            prog,
        ),
        Instruction::ReadStructField { struct_value, field, receiver } => spec_read_struct_field(
            env,
            struct_value,
            field,
            receiver,
            prog,
        ),
        Instruction::InitArray { elements, receiver, type_id } => spec_init_array(
            env,
            elements@,
            receiver,
            type_id,
        ),
        Instruction::Assign { result, source } => spec_assign(env, result, source),
        Instruction::ArrayLookup { array, index: _, result } => spec_array_lookup(
            env,
            array,
            result,
        ),
        Instruction::Other => Ok(env),
    }
}

/// One unfolding of [`spec_resolve_field_types`] at position `i`.
proof fn lemma_resolve_field_types_step(
    field_type_name_ids: Seq<usize>,
    type_names: Seq<TypeName>,
    name_table: Map<TypeName, TypeId>,
    i: int,
)
    requires
        0 <= i < field_type_name_ids.len(),
    ensures
        spec_resolve_field_types(field_type_name_ids.skip(i), type_names, name_table) == (
        if field_type_name_ids[i] >= type_names.len() {
            Err::<Seq<TypeId>, TypeError>(TypeError::LookupFailure(LookupKind::UnknownTypeName))
        } else if !name_table.contains_key(type_names[field_type_name_ids[i] as int]) {
            Err::<Seq<TypeId>, TypeError>(TypeError::LookupFailure(LookupKind::UndeclaredType))
        } else {
            match spec_resolve_field_types(field_type_name_ids.skip(i + 1), type_names, name_table) {
                Ok(rest) => Ok::<Seq<TypeId>, TypeError>(
                    seq![name_table[type_names[field_type_name_ids[i] as int]]] + rest,
                ),
                Err(e) => Err::<Seq<TypeId>, TypeError>(e),
            }
        }),
{
    assert(field_type_name_ids.skip(i)[0] == field_type_name_ids[i]);
    assert(field_type_name_ids.skip(i).drop_first() =~= field_type_name_ids.skip(i + 1));
}

/// One unfolding of [`spec_check_field_values`] at position `i`.
proof fn lemma_check_field_values_step(
    expected: Seq<TypeId>,
    values: Seq<Ssaid>,
    variable_types: Map<u64, TypeId>,
    i: int,
)
    requires
        0 <= i < expected.len(),
        0 <= i < values.len(),
    ensures
        spec_check_field_values(expected.skip(i), values.skip(i), variable_types) == (
        if !variable_types.contains_key(values[i].0) {
            Some(TypeError::LookupFailure(LookupKind::UnmappedValue))
        } else if variable_types[values[i].0] != expected[i] {
            Some(TypeError::TypeMismatch)
        } else {
            spec_check_field_values(expected.skip(i + 1), values.skip(i + 1), variable_types)
        }),
{
    assert(expected.skip(i)[0] == expected[i]);
    assert(values.skip(i)[0] == values[i]);
    assert(expected.skip(i).drop_first() =~= expected.skip(i + 1));
    assert(values.skip(i).drop_first() =~= values.skip(i + 1));
}

/// The type-transfer function, invoked once per instruction in the literal
/// order instructions occur within the block.  On success the environment
/// has moved one instruction forward; on failure the whole enclosing scope
/// is abandoned and no claim is made about the partial environment.
pub fn check_types(
    instruction_counter: usize,
    block: &Vec<Instruction>,
    ir_program: &IrProgram,
    types: &mut IrProgramTypes,
) -> (r: Result<Step, TypeError>)
    ensures
        match r {
            Ok(Step::BlockExhausted) => instruction_counter >= block@.len() && final(types)@
                == old(types)@,
            Ok(Step::NextOffset(next)) => instruction_counter < block@.len() && next
                == instruction_counter + 1 && step_spec(
                old(types)@,
                block@[instruction_counter as int],
                *ir_program,
            ) == Ok::<EnvView, TypeError>(final(types)@),
            Err(e) => instruction_counter < block@.len() && step_spec(
                old(types)@,
                block@[instruction_counter as int],
                *ir_program,
            ) == Err::<EnvView, TypeError>(e),
        },
{
    if instruction_counter >= block.len() {
        return Ok(Step::BlockExhausted);
    }
    let ghost env0 = types@;
    let instruction = &block[instruction_counter];
    match instruction {
        Instruction::DeclareIntegerType { receiver, type_name_id } => {
            if *type_name_id >= ir_program.type_names.len() {
                return Err(TypeError::LookupFailure(LookupKind::UnknownTypeName));
            }
            let declared_name = ir_program.type_names[*type_name_id];
            types.comp_time_types.insert(receiver.0, Type::Integer(32));
            types.type_name_ids.insert(declared_name, *receiver);
        },
        Instruction::DeclareStringType { receiver, type_name_id } => {
            if *type_name_id >= ir_program.type_names.len() {
                return Err(TypeError::LookupFailure(LookupKind::UnknownTypeName));
            }
            let declared_name = ir_program.type_names[*type_name_id];
            types.comp_time_types.insert(receiver.0, Type::String);
            types.type_name_ids.insert(declared_name, *receiver);
        },
        Instruction::AnonymousValue(value_id) => {
            let kind = match ir_program.static_values.get(value_id.0) {
                None => {
                    return Err(TypeError::LookupFailure(LookupKind::UnknownLiteral));
                },
                Some(kind) => kind,
            };
            match kind {
                StaticValueKind::String => {
                    let type_id = match types.type_name_ids.get(TypeName::String) {
                        None => {
                            return Err(TypeError::LookupFailure(LookupKind::UndeclaredType));
                        },
                        Some(type_id) => type_id,
                    };
                    types.variable_types.insert(value_id.0, type_id);
                },
                StaticValueKind::Integer => {
                    let type_id = match types.type_name_ids.get(TypeName::SignedInteger) {
                        None => {
                            return Err(TypeError::LookupFailure(LookupKind::UndeclaredType));
                        },
                        Some(type_id) => type_id,
                    };
                    types.variable_types.insert(value_id.0, type_id);
                },
                StaticValueKind::Other => {},
            }
        },
        Instruction::StructDeclaration {
            receiver,
            field_name_ids,
            field_type_name_ids,
            type_name_id,
        } => {
            let ghost name_ids = field_type_name_ids@;
            let ghost type_names = ir_program.type_names@;
            let mut field_types: Vec<TypeId> = Vec::new();
            let mut i: usize = 0;
            proof {
                assert(name_ids.skip(0) =~= name_ids);
            }
            while i < field_type_name_ids.len()
                invariant
                    i <= name_ids.len(),
                    name_ids == field_type_name_ids@,
                    type_names == ir_program.type_names@,
                    types@ == env0,
                    env0 == old(types)@,
                    instruction_counter < block@.len(),
                    step_spec(env0, block@[instruction_counter as int], *ir_program)
                        == spec_struct_declaration(
                        env0,
                        *receiver,
                        field_name_ids@,
                        name_ids,
                        *type_name_id,
                        *ir_program,
                    ),
                    spec_resolve_field_types(name_ids, type_names, env0.type_name_ids) == (
                    match spec_resolve_field_types(
                        name_ids.skip(i as int),
                        type_names,
                        env0.type_name_ids,
                    ) {
                        Ok(rest) => Ok::<Seq<TypeId>, TypeError>(field_types@ + rest),
                        Err(e) => Err::<Seq<TypeId>, TypeError>(e),
                    }),
                decreases name_ids.len() - i,
            {
                proof {
                    lemma_resolve_field_types_step(name_ids, type_names, env0.type_name_ids, i as int);
                }
                let name_id = field_type_name_ids[i];
                if name_id >= ir_program.type_names.len() {
                    return Err(TypeError::LookupFailure(LookupKind::UnknownTypeName));
                }
                let type_identifier = ir_program.type_names[name_id];
                let field_type_id = match types.type_name_ids.get(type_identifier) {
                    None => {
                        return Err(TypeError::LookupFailure(LookupKind::UndeclaredType));
                    },
                    Some(field_type_id) => field_type_id,
                };
                let ghost resolved_prefix = field_types@;
                field_types.push(field_type_id);
                proof {
                    match spec_resolve_field_types(
                        name_ids.skip(i + 1),
                        type_names,
                        env0.type_name_ids,
                    ) {
                        Ok(rest) => {
                            assert(resolved_prefix + (seq![field_type_id] + rest) =~= field_types@
                                + rest);
                        },
                        Err(_) => {},
                    }
                }
                i = i + 1;
            }
            proof {
                assert(name_ids.skip(i as int) =~= Seq::<usize>::empty());
                assert(field_types@ + Seq::<TypeId>::empty() =~= field_types@);
            }
            if *type_name_id >= ir_program.type_names.len() {
                return Err(TypeError::LookupFailure(LookupKind::UnknownTypeName));
            }
            let declared_name = ir_program.type_names[*type_name_id];
            let struct_type = StructType {
                field_ids: copy_usizes(field_name_ids),
                field_types,
            };
            let handle_index = types.struct_types.len();
            types.struct_types.push(struct_type);
            types.comp_time_types.insert(receiver.0, Type::Struct(StructTypeId(handle_index)));
            types.type_name_ids.insert(declared_name, *receiver);
            proof {
                assert(types@.struct_types =~~= env0.struct_types.push(
                    StructTypeView {
                        field_ids: field_name_ids@,
                        field_types: spec_resolve_field_types(
                            name_ids,
                            type_names,
                            env0.type_name_ids,
                        )->Ok_0,
                    },
                ));
            }
        },
        Instruction::StructInit { struct_identifier, receiver, field_values } => {
            if *struct_identifier >= ir_program.type_names.len() {
                return Err(TypeError::LookupFailure(LookupKind::UnknownTypeName));
            }
            let struct_type_name = ir_program.type_names[*struct_identifier];
            let type_id = match types.type_name_ids.get(struct_type_name) {
                None => {
                    return Err(TypeError::LookupFailure(LookupKind::UndeclaredType));
                },
                Some(type_id) => type_id,
            };
            types.variable_types.insert(receiver.0, type_id);
            let ghost bound = types@;
            let resolved = match types.comp_time_types.get(type_id.0) {
                None => {
                    return Err(TypeError::LookupFailure(LookupKind::UnresolvedTypeIdentity));
                },
                Some(resolved) => resolved,
            };
            let struct_type_id = match resolved {
                Type::Struct(struct_type_id) => struct_type_id,
                _ => {
                    return Err(TypeError::TypeMismatch);
                },
            };
            if struct_type_id.0 >= types.struct_types.len() {
                return Err(TypeError::LookupFailure(LookupKind::UnknownDescriptor));
            }
            let ghost expected = env0.struct_types[struct_type_id.0 as int].field_types;
            let ghost values = field_values@;
            let expected_count = types.struct_types[struct_type_id.0].field_types.len();
            let pair_count = if expected_count < field_values.len() {
                expected_count
            } else {
                field_values.len()
            };
            let mut i: usize = 0;
            proof {
                assert(expected.skip(0) =~= expected);
                assert(values.skip(0) =~= values);
            }
            while i < pair_count
                invariant
                    i <= pair_count,
                    pair_count <= expected.len(),
                    pair_count <= values.len(),
                    pair_count == expected.len() || pair_count == values.len(),
                    types@ == bound,
                    env0 == old(types)@,
                    instruction_counter < block@.len(),
                    values == field_values@,
                    expected == types.struct_types@[struct_type_id.0 as int]@.field_types,
                    struct_type_id.0 < types.struct_types@.len(),
                    step_spec(env0, block@[instruction_counter as int], *ir_program) == (
                    match spec_check_field_values(expected, values, bound.variable_types) {
                        Some(e) => Err::<EnvView, TypeError>(e),
                        None => Ok::<EnvView, TypeError>(bound),
                    }),
                    spec_check_field_values(expected, values, bound.variable_types)
                        == spec_check_field_values(
                        expected.skip(i as int),
                        values.skip(i as int),
                        bound.variable_types,
                    ),
                decreases pair_count - i,
            {
                proof {
                    lemma_check_field_values_step(expected, values, bound.variable_types, i as int);
                }
                let expected_field_type = types.struct_types[struct_type_id.0].field_types[i];
                let field_value = field_values[i];
                let value_type_id = match types.variable_types.get(field_value.0) {
                    None => {
                        return Err(TypeError::LookupFailure(LookupKind::UnmappedValue));
                    },
                    Some(value_type_id) => value_type_id,
                };
                if value_type_id != expected_field_type {
                    return Err(TypeError::TypeMismatch);
                }
                i = i + 1;
            }
            proof {
                if i < expected.len() {
                    assert(values.skip(i as int) =~= Seq::<Ssaid>::empty());
                } else {
                    assert(expected.skip(i as int) =~= Seq::<TypeId>::empty());
                }
            }
        },
        Instruction::ReadStructField { struct_value, field, receiver } => {
            let position = match types.calculate_struct_field_position(
                *struct_value,
                *field,
                ir_program,
            ) {
                Err(e) => {
                    return Err(e);
                },
                Ok(position) => position,
            };
            let struct_type_id = match types.lookup_variable_type(*struct_value) {
                Ok(Type::Struct(struct_type_id)) => struct_type_id,
                _ => {
                    return Err(TypeError::TypeMismatch);
                },
            };
            if struct_type_id.0 >= types.struct_types.len() {
                return Err(TypeError::LookupFailure(LookupKind::UnknownDescriptor));
            }
            if position >= types.struct_types[struct_type_id.0].field_types.len() {
                return Err(TypeError::LookupFailure(LookupKind::MissingFieldType));
            }
            let field_type_id = types.struct_types[struct_type_id.0].field_types[position];
            types.variable_types.insert(receiver.0, field_type_id);
        },
        Instruction::InitArray { elements, receiver, type_id } => {
            if elements.len() == 0 {
                return Err(TypeError::LookupFailure(LookupKind::EmptyArrayInit));
            }
            let first_element = elements[0];
            let element_type = match types.variable_types.get(first_element.0) {
                None => {
                    return Err(TypeError::LookupFailure(LookupKind::UnmappedValue));
                },
                Some(element_type) => element_type,
            };
            let handle_index = types.array_types.len();
            types.array_types.push(ArrayType { length: elements.len(), element_type });
            types.comp_time_types.insert(type_id.0, Type::Array(ArrayTypeId(handle_index)));
            types.variable_types.insert(receiver.0, *type_id);
        },
        Instruction::Assign { result, source } => {
            match types.variable_types.get(source.0) {
                Some(source_type) => {
                    types.variable_types.insert(result.0, source_type);
                },
                None => {},
            }
        },
        Instruction::ArrayLookup { array, index: _, result } => {
            let array_type_id = match types.lookup_variable_type(*array) {
                Ok(Type::Array(array_type_id)) => array_type_id,
                _ => {
                    return Err(TypeError::TypeMismatch);
                },
            };
            if array_type_id.0 >= types.array_types.len() {
                return Err(TypeError::LookupFailure(LookupKind::UnknownDescriptor));
            }
            let element_type = types.array_types[array_type_id.0].element_type;
            types.variable_types.insert(result.0, element_type);
        },
        Instruction::Other => {},
    }
    Ok(Step::NextOffset(instruction_counter + 1))
}

/// The transfer relation extended over a whole instruction sequence: the
/// environment after visiting every instruction in order, or the first
/// failure.
pub open spec fn run_steps(env: EnvView, instructions: Seq<Instruction>, prog: IrProgram) -> Result<
    EnvView,
    TypeError,
>
    decreases instructions.len(),
{
    if instructions.len() == 0 {
        Ok(env)
    } else {
        match step_spec(env, instructions[0], prog) {
            Ok(next) => run_steps(next, instructions.drop_first(), prog),
            Err(e) => Err(e),
        }
    }
}

/// One unfolding of [`run_steps`] at position `i`.
proof fn lemma_run_steps_step(
    env: EnvView,
    instructions: Seq<Instruction>,
    prog: IrProgram,
    i: int,
)
    requires
        0 <= i < instructions.len(),
    ensures
        run_steps(env, instructions.skip(i), prog) == (match step_spec(
            env,
            instructions[i],
            prog,
        ) {
            Ok(next) => run_steps(next, instructions.skip(i + 1), prog),
            Err(e) => Err::<EnvView, TypeError>(e),
        }),
{
    assert(instructions.skip(i)[0] == instructions[i]);
    assert(instructions.skip(i).drop_first() =~= instructions.skip(i + 1));
}

/// Drives the transfer function over one scope's instruction sequence,
/// threading one mutable environment across the whole traversal; every
/// instruction is visited exactly once, in source order.
pub fn evaluate_block(
    block: &Vec<Instruction>,
    ir_program: &IrProgram,
    types: &mut IrProgramTypes,
) -> (r: Result<(), TypeError>)
    ensures
        match r {
            Ok(_) => run_steps(old(types)@, block@, *ir_program) == Ok::<EnvView, TypeError>(
                final(types)@,
            ),
            Err(e) => run_steps(old(types)@, block@, *ir_program) == Err::<EnvView, TypeError>(e),
        },
{
    let ghost env_start = types@;
    let mut instruction_counter: usize = 0;
    proof {
        assert(block@.skip(0) =~= block@);
    }
    loop
        invariant
            instruction_counter <= block@.len(),
            run_steps(env_start, block@, *ir_program) == run_steps(
                types@,
                block@.skip(instruction_counter as int),
                *ir_program,
            ),
            env_start == old(types)@,
        decreases block@.len() - instruction_counter,
    {
        let ghost env_before = types@;
        proof {
            if instruction_counter < block@.len() {
                lemma_run_steps_step(
                    env_before,
                    block@,
                    *ir_program,
                    instruction_counter as int,
                );
            }
        }
        match check_types(instruction_counter, block, ir_program, types) {
            Ok(Step::BlockExhausted) => {
                proof {
                    assert(block@.skip(instruction_counter as int) =~= Seq::<
                        Instruction,
                    >::empty());
                }
                return Ok(());
            },
            Ok(Step::NextOffset(next)) => {
                instruction_counter = next;
            },
            Err(e) => {
                return Err(e);
            },
        }
    }
}

/// One function's finished environment, keyed by its declaration
/// identifier.
#[derive(Debug)]
pub struct FunctionTypes {
    pub function_id: FunctionDeclarationId,
    pub types: IrProgramTypes,
}

/// The outcome of evaluating a whole program: the standalone top-level
/// environment, plus one finished environment per function, in the order
/// the program lists the functions.
#[derive(Debug)]
pub struct EvaluatedTypes {
    pub top_level_types: IrProgramTypes,
    pub function_types: Vec<FunctionTypes>,
}

/// The mathematical content of the per-function results.
pub open spec fn function_types_view(function_types: Seq<FunctionTypes>) -> Seq<
    (FunctionDeclarationId, EnvView),
> {
    function_types.map_values(|ft: FunctionTypes| (ft.function_id, ft.types@))
}

/// Evaluation of every function scope, each seeded from an independent
/// copy of the finished top-level environment; the first failing scope
/// aborts the whole orchestration.
pub open spec fn spec_evaluate_functions(
    top: EnvView,
    functions: Seq<Function>,
    prog: IrProgram,
) -> Result<Seq<(FunctionDeclarationId, EnvView)>, TypeError>
    decreases functions.len(),
{
    if functions.len() == 0 {
        Ok(Seq::empty())
    } else {
        match run_steps(top, functions[0].body@, prog) {
            Err(e) => Err(e),
            Ok(function_env) => match spec_evaluate_functions(
                top,
                functions.drop_first(),
                prog,
            ) {
                Ok(rest) => Ok(seq![(functions[0].id, function_env)] + rest),
                Err(e) => Err(e),
            },
        }
    }
}

/// One unfolding of [`spec_evaluate_functions`] at position `i`.
proof fn lemma_evaluate_functions_step(
    top: EnvView,
    functions: Seq<Function>,
    prog: IrProgram,
    i: int,
)
    requires
        0 <= i < functions.len(),
    ensures
        spec_evaluate_functions(top, functions.skip(i), prog) == (match run_steps(
            top,
            functions[i].body@,
            prog,
        ) {
            Err(e) => Err::<Seq<(FunctionDeclarationId, EnvView)>, TypeError>(e),
            Ok(function_env) => match spec_evaluate_functions(top, functions.skip(i + 1), prog) {
                Ok(rest) => Ok(seq![(functions[i].id, function_env)] + rest),
                Err(e) => Err(e),
            },
        }),
{
    assert(functions.skip(i)[0] == functions[i]);
    assert(functions.skip(i).drop_first() =~= functions.skip(i + 1));
}

/// Evaluation of a whole program: the top-level scope first, from an empty
/// environment; then every function scope, each from an independent copy
/// of the finished top-level environment.
pub open spec fn spec_evaluate_types(prog: IrProgram) -> Result<
    (EnvView, Seq<(FunctionDeclarationId, EnvView)>),
    TypeError,
> {
    match run_steps(empty_env(), prog.top_level@, prog) {
        Err(e) => Err(e),
        Ok(top) => match spec_evaluate_functions(top, prog.functions@, prog) {
            Err(e) => Err(e),
            Ok(function_envs) => Ok((top, function_envs)),
        },
    }
}

/// Computes the top-level environment, then evaluates each function scope
/// seeded from a deep copy of it.  The first error encountered — during
/// the top-level pass or any function's pass — aborts the whole run;
/// functions not yet reached are never analyzed.
pub fn evaluate_types(ir_program: &IrProgram) -> (r: Result<EvaluatedTypes, TypeError>)
    ensures
        match r {
            Ok(evaluated) => spec_evaluate_types(*ir_program) == Ok::<
                (EnvView, Seq<(FunctionDeclarationId, EnvView)>),
                TypeError,
            >((evaluated.top_level_types@, function_types_view(evaluated.function_types@))),
            Err(e) => spec_evaluate_types(*ir_program) == Err::<
                (EnvView, Seq<(FunctionDeclarationId, EnvView)>),
                TypeError,
            >(e),
        },
{
    let mut top_level_types = IrProgramTypes::new();
    match evaluate_block(&ir_program.top_level, ir_program, &mut top_level_types) {
        Err(e) => {
            return Err(e);
        },
        Ok(_) => {},
    }
    let mut function_types: Vec<FunctionTypes> = Vec::new();
    let mut i: usize = 0;
    proof {
        assert(ir_program.functions@.skip(0) =~= ir_program.functions@);
        assert(function_types_view(function_types@) + spec_evaluate_functions(
            top_level_types@,
            ir_program.functions@,
            *ir_program,
        )->Ok_0 =~= spec_evaluate_functions(
            top_level_types@,
            ir_program.functions@,
            *ir_program,
        )->Ok_0);
    }
    while i < ir_program.functions.len()
        invariant
            i <= ir_program.functions@.len(),
            run_steps(empty_env(), ir_program.top_level@, *ir_program) == Ok::<
                EnvView,
                TypeError,
            >(top_level_types@),
            spec_evaluate_functions(top_level_types@, ir_program.functions@, *ir_program) == (
            match spec_evaluate_functions(
                top_level_types@,
                ir_program.functions@.skip(i as int),
                *ir_program,
            ) {
                Ok(rest) => Ok::<Seq<(FunctionDeclarationId, EnvView)>, TypeError>(
                    function_types_view(function_types@) + rest,
                ),
                Err(e) => Err::<Seq<(FunctionDeclarationId, EnvView)>, TypeError>(e),
            }),
        decreases ir_program.functions@.len() - i,
    {
        proof {
            lemma_evaluate_functions_step(
                top_level_types@,
                ir_program.functions@,
                *ir_program,
                i as int,
            );
        }
        let function = &ir_program.functions[i];
        let mut seeded = top_level_types.deep_copy();
        match evaluate_block(&function.body, ir_program, &mut seeded) {
            Err(e) => {
                return Err(e);
            },
            Ok(_) => {},
        }
        let ghost before = function_types_view(function_types@);
        let ghost seeded_env = seeded@;
        function_types.push(FunctionTypes { function_id: function.id, types: seeded });
        proof {
            assert(function_types_view(function_types@) =~~= before.push(
                (ir_program.functions@[i as int].id, seeded_env),
            ));
            assert(before + (seq![(ir_program.functions@[i as int].id, seeded_env)]
                + spec_evaluate_functions(
                top_level_types@,
                ir_program.functions@.skip(i + 1),
                *ir_program,
            )->Ok_0) =~~= function_types_view(function_types@) + spec_evaluate_functions(
                top_level_types@,
                ir_program.functions@.skip(i + 1),
                *ir_program,
            )->Ok_0);
        }
        i = i + 1;
    }
    proof {
        assert(ir_program.functions@.skip(i as int) =~= Seq::<Function>::empty());
        assert(function_types_view(function_types@) + Seq::<
            (FunctionDeclarationId, EnvView),
        >::empty() =~= function_types_view(function_types@));
    }
    Ok(EvaluatedTypes { top_level_types, function_types })
}

} // verus!
