use vstd::prelude::*;
use crate::environment::spec_field_scan;
use crate::environment::spec_field_position;
use crate::environment::spec_lookup;
use crate::environment::EnvView;
use crate::evaluation::run_steps;
use crate::evaluation::spec_assign;
use crate::evaluation::spec_evaluate_functions;
use crate::evaluation::spec_evaluate_types;
use crate::evaluation::spec_resolve_field_types;
use crate::evaluation::spec_struct_declaration;
use crate::evaluation::spec_struct_init;
use crate::evaluation::step_spec;
use crate::ids::Ssaid;
use crate::ids::TypeId;
use crate::ir::Instruction;
use crate::ir::IrProgram;
use crate::ir::TypeName;
use crate::types::Type;
use crate::types::TypeError;

verus! {

/// Whether a resolved shape's descriptor handle points into its store.
pub open spec fn resolved_in_range(env: EnvView, resolved: Type) -> bool {
    match resolved {
        Type::Struct(struct_type_id) => struct_type_id.0 < env.struct_types.len(),
        Type::Array(array_type_id) => array_type_id.0 < env.array_types.len(),
        _ => true,
    }
}

/// Well-formedness of an environment: every type identity recorded
/// anywhere — for a value, under a name, in a struct field, or as an array
/// element type — resolves through `comp_time_types`, and every resolved
/// struct or array shape has its descriptor in the store.
pub open spec fn env_wf(env: EnvView) -> bool {
    &&& (forall|v: u64| #[trigger]
        env.variable_types.contains_key(v) ==> env.comp_time_types.contains_key(
            env.variable_types[v].0,
        ))
    &&& (forall|n: TypeName| #[trigger]
        env.type_name_ids.contains_key(n) ==> env.comp_time_types.contains_key(
            env.type_name_ids[n].0,
        ))
    &&& (forall|i: int, j: int|
        0 <= i < env.struct_types.len() && 0 <= j < env.struct_types[i].field_types.len()
            ==> env.comp_time_types.contains_key(
            (#[trigger] env.struct_types[i].field_types[j]).0,
        ))
    &&& (forall|i: int|
        0 <= i < env.array_types.len() ==> env.comp_time_types.contains_key(
            (#[trigger] env.array_types[i]).element_type.0,
        ))
    &&& (forall|t: u64| #[trigger]
        env.comp_time_types.contains_key(t) ==> resolved_in_range(env, env.comp_time_types[t]))
}

/// Every value that has a recorded type identity resolves all the way to a
/// concrete type.
pub open spec fn all_values_resolve(env: EnvView) -> bool {
    forall|value_id: Ssaid| #[trigger]
        env.variable_types.contains_key(value_id.0) ==> (spec_lookup(env, value_id) matches Ok(_))
}

proof fn lemma_wf_values_resolve(env: EnvView)
    requires
        env_wf(env),
    ensures
        all_values_resolve(env),
{
}

/// Every field type identity a successful resolution returns was read off
/// the name table, so it resolves wherever every named identity does.
proof fn lemma_resolve_field_types_resolved(
    field_type_name_ids: Seq<usize>,
    type_names: Seq<TypeName>,
    name_table: Map<TypeName, TypeId>,
    comp_time_types: Map<u64, Type>,
)
    requires
        forall|n: TypeName| #[trigger]
            name_table.contains_key(n) ==> comp_time_types.contains_key(name_table[n].0),
    ensures
        spec_resolve_field_types(field_type_name_ids, type_names, name_table) matches Ok(
            field_types,
        ) ==> forall|k: int|
            0 <= k < field_types.len() ==> comp_time_types.contains_key(
                (#[trigger] field_types[k]).0,
            ),
    decreases field_type_name_ids.len(),
{
    if field_type_name_ids.len() == 0 {
    } else if field_type_name_ids[0] >= type_names.len() {
    } else if !name_table.contains_key(type_names[field_type_name_ids[0] as int]) {
    } else {
        lemma_resolve_field_types_resolved(
            field_type_name_ids.drop_first(),
            type_names,
            name_table,
            comp_time_types,
        );
        match spec_resolve_field_types(field_type_name_ids.drop_first(), type_names, name_table) {
            Ok(rest) => {
                let field_types = spec_resolve_field_types(
                    field_type_name_ids,
                    type_names,
                    name_table,
                )->Ok_0;
                assert forall|k: int| 0 <= k < field_types.len() implies comp_time_types
                    .contains_key((#[trigger] field_types[k]).0) by {
                    if k > 0 {
                        assert(field_types[k] == rest[k - 1]);
                    }
                }
            },
            Err(_) => {},
        }
    }
}

/// One transfer step out of a well-formed environment yields a well-formed
/// environment: the accumulated state never records an identity that the
/// rest of the state cannot resolve.
pub proof fn lemma_step_preserves_wf(env: EnvView, instruction: Instruction, prog: IrProgram)
    requires
        env_wf(env),
    ensures
        step_spec(env, instruction, prog) matches Ok(next) ==> env_wf(next),
{
    match instruction {
        Instruction::StructDeclaration { field_type_name_ids, .. } => {
            lemma_resolve_field_types_resolved(
                field_type_name_ids@,
                prog.type_names@,
                env.type_name_ids,
                env.comp_time_types,
            );
            match step_spec(env, instruction, prog) {
                Ok(next) => {
                    assert forall|i: int, j: int|
                        0 <= i < next.struct_types.len() && 0 <= j
                            < next.struct_types[i].field_types.len() implies next.comp_time_types
                        .contains_key((#[trigger] next.struct_types[i].field_types[j]).0) by {
                        if i < env.struct_types.len() {
                            assert(next.struct_types[i] == env.struct_types[i]);
                        }
                    }
                },
                Err(_) => {},
            }
        },
        _ => {},
    }
}

/// Running a whole instruction sequence preserves well-formedness.
pub proof fn lemma_run_steps_preserves_wf(env: EnvView, instructions: Seq<Instruction>, prog: IrProgram)
    requires
        env_wf(env),
    ensures
        run_steps(env, instructions, prog) matches Ok(next) ==> env_wf(next),
    decreases instructions.len(),
{
    if instructions.len() > 0 {
        lemma_step_preserves_wf(env, instructions[0], prog);
        match step_spec(env, instructions[0], prog) {
            Ok(next) => {
                lemma_run_steps_preserves_wf(next, instructions.drop_first(), prog);
            },
            Err(_) => {},
        }
    }
}

/// A successful orchestration hands back exactly one finished environment
/// per function, each the result of running that function's body from the
/// finished top-level environment.
pub proof fn lemma_evaluate_functions_results(
    top: EnvView,
    functions: Seq<crate::ir::Function>,
    prog: IrProgram,
)
    requires
        spec_evaluate_functions(top, functions, prog) matches Ok(_),
    ensures
        spec_evaluate_functions(top, functions, prog)->Ok_0.len() == functions.len(),
        forall|k: int|
            0 <= k < functions.len() ==> (run_steps(top, (#[trigger] functions[k]).body@, prog)
                matches Ok(_)),
        forall|k: int|
            0 <= k < functions.len() ==> #[trigger] spec_evaluate_functions(
                top,
                functions,
                prog,
            )->Ok_0[k] == (functions[k].id, run_steps(top, functions[k].body@, prog)->Ok_0),
    decreases functions.len(),
{
    if functions.len() > 0 {
        lemma_evaluate_functions_results(top, functions.drop_first(), prog);
        let results = spec_evaluate_functions(top, functions, prog)->Ok_0;
        let rest = spec_evaluate_functions(top, functions.drop_first(), prog)->Ok_0;
        assert forall|k: int| 0 <= k < functions.len() implies (run_steps(
            top,
            (#[trigger] functions[k]).body@,
            prog,
        ) matches Ok(_)) by {
            if k > 0 {
                assert(functions.drop_first()[k - 1] == functions[k]);
            }
        }
        assert forall|k: int| 0 <= k < functions.len() implies #[trigger] results[k] == (
            functions[k].id,
            run_steps(top, functions[k].body@, prog)->Ok_0,
        ) by {
            if k > 0 {
                assert(results[k] == rest[k - 1]);
                assert(functions.drop_first()[k - 1] == functions[k]);
            }
        }
    }
}

/// For a well-typed program — one the evaluation accepts — every value
/// that received a type resolves to a concrete type, in the top-level
/// environment and in every function's environment.
pub proof fn lemma_well_typed_program_resolves(prog: IrProgram)
    requires
        spec_evaluate_types(prog) matches Ok(_),
    ensures
        env_wf(spec_evaluate_types(prog)->Ok_0.0),
        all_values_resolve(spec_evaluate_types(prog)->Ok_0.0),
        forall|k: int|
            0 <= k < spec_evaluate_types(prog)->Ok_0.1.len() ==> env_wf(
                (#[trigger] spec_evaluate_types(prog)->Ok_0.1[k]).1,
            ) && all_values_resolve(spec_evaluate_types(prog)->Ok_0.1[k].1),
{
    let top = run_steps(crate::environment::empty_env(), prog.top_level@, prog)->Ok_0;
    lemma_run_steps_preserves_wf(crate::environment::empty_env(), prog.top_level@, prog);
    lemma_wf_values_resolve(top);
    lemma_evaluate_functions_results(top, prog.functions@, prog);
    let results = spec_evaluate_functions(top, prog.functions@, prog)->Ok_0;
    assert forall|k: int| 0 <= k < results.len() implies env_wf((#[trigger] results[k]).1)
        && all_values_resolve(results[k].1) by {
        lemma_run_steps_preserves_wf(top, prog.functions@[k].body@, prog);
        lemma_wf_values_resolve(results[k].1);
    }
}

/// Type identity is nominal, not structural: constructing a struct whose
/// first field value carries a different identity than the declared field
/// type fails with `TypeMismatch`, even when the two identities resolve to
/// exactly the same shape.
pub proof fn lemma_struct_init_is_nominal(
    env: EnvView,
    struct_identifier: usize,
    receiver: Ssaid,
    field_values: Seq<Ssaid>,
    prog: IrProgram,
)
    requires
        struct_identifier < prog.type_names@.len(),
        env.type_name_ids.contains_key(prog.type_names@[struct_identifier as int]),
        env.comp_time_types.contains_key(
            env.type_name_ids[prog.type_names@[struct_identifier as int]].0,
        ),
        env.comp_time_types[env.type_name_ids[prog.type_names@[struct_identifier as int]].0]
            matches Type::Struct(struct_type_id) && struct_type_id.0 < env.struct_types.len()
            && env.struct_types[struct_type_id.0 as int].field_types.len() > 0,
        field_values.len() > 0,
        field_values[0].0 != receiver.0,
        env.variable_types.contains_key(field_values[0].0),
        // the supplied value's identity differs from the declared one ...
        env.variable_types[field_values[0].0] != declared_first_field_type(
            env,
            struct_identifier,
            prog,
        ),
        // ... even though both identities resolve to the very same shape
        env.comp_time_types.contains_key(env.variable_types[field_values[0].0].0),
        env.comp_time_types.contains_key(declared_first_field_type(env, struct_identifier, prog).0),
        env.comp_time_types[env.variable_types[field_values[0].0].0]
            == env.comp_time_types[declared_first_field_type(env, struct_identifier, prog).0],
    ensures
        spec_struct_init(env, struct_identifier, receiver, field_values, prog) == Err::<
            EnvView,
            TypeError,
        >(TypeError::TypeMismatch),
{
}

/// Registering a name that no declared field references leaves the
/// resolution of the field types untouched.
proof fn lemma_resolve_field_types_insert_irrelevant(
    field_type_name_ids: Seq<usize>,
    type_names: Seq<TypeName>,
    name_table: Map<TypeName, TypeId>,
    registered: TypeName,
    identity: TypeId,
)
    requires
        forall|i: int|
            0 <= i < field_type_name_ids.len() ==> !((#[trigger] field_type_name_ids[i])
                < type_names.len() && type_names[field_type_name_ids[i] as int] == registered),
    ensures
        spec_resolve_field_types(
            field_type_name_ids,
            type_names,
            name_table.insert(registered, identity),
        ) == spec_resolve_field_types(field_type_name_ids, type_names, name_table),
    decreases field_type_name_ids.len(),
{
    if field_type_name_ids.len() > 0 {
        assert forall|i: int| 0 <= i < field_type_name_ids.drop_first().len() implies !((
        #[trigger] field_type_name_ids.drop_first()[i]) < type_names.len()
            && type_names[field_type_name_ids.drop_first()[i] as int] == registered) by {
            assert(field_type_name_ids.drop_first()[i] == field_type_name_ids[i + 1]);
        }
        lemma_resolve_field_types_insert_irrelevant(
            field_type_name_ids.drop_first(),
            type_names,
            name_table,
            registered,
            identity,
        );
    }
}

/// Two struct declarations of exactly the same shape — the same field
/// identifiers and the same field type names — mint two distinct type
/// identities resolving to two distinct descriptor handles, while the two
/// interned descriptors are equal: identity is nominal, never structural.
pub proof fn lemma_struct_declarations_distinct(
    env: EnvView,
    receiver1: TypeId,
    receiver2: TypeId,
    field_name_ids: Seq<usize>,
    field_type_name_ids: Seq<usize>,
    type_name_id1: usize,
    type_name_id2: usize,
    prog: IrProgram,
)
    requires
        env.struct_types.len() < usize::MAX,
        receiver1.0 != receiver2.0,
        // the declared fields do not reference the first struct's own name
        forall|i: int|
            0 <= i < field_type_name_ids.len() ==> !((#[trigger] field_type_name_ids[i])
                < prog.type_names@.len() && type_name_id1 < prog.type_names@.len()
                && prog.type_names@[field_type_name_ids[i] as int]
                == prog.type_names@[type_name_id1 as int]),
        spec_struct_declaration(
            env,
            receiver1,
            field_name_ids,
            field_type_name_ids,
            type_name_id1,
            prog,
        ) matches Ok(_),
        spec_struct_declaration(
            spec_struct_declaration(
                env,
                receiver1,
                field_name_ids,
                field_type_name_ids,
                type_name_id1,
                prog,
            )->Ok_0,
            receiver2,
            field_name_ids,
            field_type_name_ids,
            type_name_id2,
            prog,
        ) matches Ok(_),
    ensures
        ({
            let after_both = spec_struct_declaration(
                spec_struct_declaration(
                    env,
                    receiver1,
                    field_name_ids,
                    field_type_name_ids,
                    type_name_id1,
                    prog,
                )->Ok_0,
                receiver2,
                field_name_ids,
                field_type_name_ids,
                type_name_id2,
                prog,
            )->Ok_0;
            let handle1 = env.struct_types.len() as usize;
            let handle2 = (env.struct_types.len() + 1) as usize;
            &&& after_both.comp_time_types.contains_key(receiver1.0)
            &&& after_both.comp_time_types.contains_key(receiver2.0)
            &&& after_both.comp_time_types[receiver1.0] == Type::Struct(
                crate::ids::StructTypeId(handle1),
            )
            &&& after_both.comp_time_types[receiver2.0] == Type::Struct(
                crate::ids::StructTypeId(handle2),
            )
            &&& after_both.comp_time_types[receiver1.0] != after_both.comp_time_types[receiver2.0]
            &&& after_both.struct_types[handle1 as int] == after_both.struct_types[handle2 as int]
        }),
{
    let mid = spec_struct_declaration(
        env,
        receiver1,
        field_name_ids,
        field_type_name_ids,
        type_name_id1,
        prog,
    )->Ok_0;
    lemma_resolve_field_types_insert_irrelevant(
        field_type_name_ids,
        prog.type_names@,
        env.type_name_ids,
        prog.type_names@[type_name_id1 as int],
        receiver1,
    );
    assert(mid.type_name_ids == env.type_name_ids.insert(
        prog.type_names@[type_name_id1 as int],
        receiver1,
    ));
}

/// The declared type identity of the first field of the struct type
/// registered under the name that `struct_identifier` references.
pub open spec fn declared_first_field_type(
    env: EnvView,
    struct_identifier: usize,
    prog: IrProgram,
) -> TypeId {
    env.struct_types[
        env.comp_time_types[
            env.type_name_ids[prog.type_names@[struct_identifier as int]].0
        ]->Struct_0.0 as int
    ].field_types[0]
}

/// The field scan finds the declared position: when every declared field
/// reference is in bounds and the referenced identifiers are pairwise
/// distinct, scanning for the identifier of declared field `k` yields
/// exactly position `k` — wherever those identifiers sit in the global
/// table.
pub proof fn lemma_field_scan_finds_declared_position(
    field_ids: Seq<usize>,
    table: Seq<u64>,
    k: int,
)
    requires
        field_ids.len() <= usize::MAX,
        0 <= k < field_ids.len(),
        forall|i: int| 0 <= i < field_ids.len() ==> (#[trigger] field_ids[i]) < table.len(),
        forall|i: int, j: int|
            0 <= i < j < field_ids.len() ==> table[(#[trigger] field_ids[i]) as int] != table[(
            #[trigger] field_ids[j]) as int],
    ensures
        spec_field_scan(field_ids, table, table[field_ids[k] as int]) == Ok::<usize, TypeError>(
            k as usize,
        ),
    decreases k,
{
    assert(field_ids[0] < table.len());
    if k == 0 {
        assert(spec_field_scan(field_ids, table, table[field_ids[0] as int]) == Ok::<
            usize,
            TypeError,
        >(0usize));
    } else {
        assert(table[field_ids[0] as int] != table[field_ids[k] as int]);
        assert forall|i: int| 0 <= i < field_ids.drop_first().len() implies (
        #[trigger] field_ids.drop_first()[i]) < table.len() by {
            assert(field_ids.drop_first()[i] == field_ids[i + 1]);
        }
        assert forall|i: int, j: int| 0 <= i < j < field_ids.drop_first().len() implies table[(
        #[trigger] field_ids.drop_first()[i]) as int] != table[(#[trigger] field_ids.drop_first()[
            j
        ]) as int] by {
            assert(field_ids.drop_first()[i] == field_ids[i + 1]);
            assert(field_ids.drop_first()[j] == field_ids[j + 1]);
        }
        assert(field_ids.drop_first()[k - 1] == field_ids[k]);
        lemma_field_scan_finds_declared_position(field_ids.drop_first(), table, k - 1);
        assert(spec_field_scan(field_ids.drop_first(), table, table[field_ids[k] as int]) == Ok::<
            usize,
            TypeError,
        >((k - 1) as usize));
    }
}

/// Field resolution is independent of the physical ordering of the global
/// field-identifier table: when the struct value resolves to a struct
/// whose declared field references are in bounds and name pairwise
/// distinct identifiers, resolving a reference to the identifier of
/// declared field `k` yields position `k`.
pub proof fn lemma_field_position_order_independent(
    env: EnvView,
    struct_ssaid: Ssaid,
    field_id_index: usize,
    prog: IrProgram,
    k: int,
)
    requires
        spec_lookup(env, struct_ssaid) matches Ok(resolved) && resolved matches Type::Struct(
            struct_type_id,
        ) && struct_type_id.0 < env.struct_types.len(),
        field_id_index < prog.struct_field_identifier@.len(),
        struct_field_ids(env, struct_ssaid).len() <= usize::MAX,
        0 <= k < struct_field_ids(env, struct_ssaid).len(),
        forall|i: int|
            0 <= i < struct_field_ids(env, struct_ssaid).len() ==> (#[trigger] struct_field_ids(
                env,
                struct_ssaid,
            )[i]) < prog.struct_field_identifier@.len(),
        forall|i: int, j: int|
            0 <= i < j < struct_field_ids(env, struct_ssaid).len()
                ==> prog.struct_field_identifier@[(#[trigger] struct_field_ids(
                env,
                struct_ssaid,
            )[i]) as int] != prog.struct_field_identifier@[(#[trigger] struct_field_ids(
                env,
                struct_ssaid,
            )[j]) as int],
        prog.struct_field_identifier@[field_id_index as int]
            == prog.struct_field_identifier@[struct_field_ids(env, struct_ssaid)[k] as int],
    ensures
        spec_field_position(env, struct_ssaid, field_id_index, prog) == Ok::<usize, TypeError>(
            k as usize,
        ),
{
    lemma_field_scan_finds_declared_position(
        struct_field_ids(env, struct_ssaid),
        prog.struct_field_identifier@,
        k,
    );
}

/// The declared field-identifier references of the struct that a value
/// resolves to.
pub open spec fn struct_field_ids(env: EnvView, struct_ssaid: Ssaid) -> Seq<usize> {
    env.struct_types[spec_lookup(env, struct_ssaid)->Ok_0->Struct_0.0 as int].field_ids
}

/// Copy propagation: `Assign` never fails; a typed source hands its
/// identity — and with it its resolved type — to the result, and an
/// untyped source leaves the environment, and so the result's typing,
/// exactly as it was.
pub proof fn lemma_assign_propagates(env: EnvView, result: Ssaid, source: Ssaid)
    ensures
        spec_assign(env, result, source) matches Ok(_),
        env.variable_types.contains_key(source.0) ==> {
            let next = spec_assign(env, result, source)->Ok_0;
            &&& next.variable_types.contains_key(result.0)
            &&& next.variable_types[result.0] == env.variable_types[source.0]
            &&& spec_lookup(next, result) == spec_lookup(env, source)
        },
        !env.variable_types.contains_key(source.0) ==> spec_assign(env, result, source) == Ok::<
            EnvView,
            TypeError,
        >(env),
{
}

/// Whether an instruction (re)declares a type under the given syntactic
/// name in this scope.
pub open spec fn declares_name(instruction: Instruction, name: TypeName, prog: IrProgram) -> bool {
    match instruction {
        Instruction::DeclareIntegerType { type_name_id, .. } => type_name_id
            < prog.type_names@.len() && prog.type_names@[type_name_id as int] == name,
        Instruction::DeclareStringType { type_name_id, .. } => type_name_id
            < prog.type_names@.len() && prog.type_names@[type_name_id as int] == name,
        Instruction::StructDeclaration { type_name_id, .. } => type_name_id
            < prog.type_names@.len() && prog.type_names@[type_name_id as int] == name,
        _ => false,
    }
}

/// Whether an instruction binds a resolved type to the given identity.
pub open spec fn binds_identity(instruction: Instruction, type_id: TypeId) -> bool {
    match instruction {
        Instruction::DeclareIntegerType { receiver, .. } => receiver == type_id,
        Instruction::DeclareStringType { receiver, .. } => receiver == type_id,
        Instruction::StructDeclaration { receiver, .. } => receiver == type_id,
        Instruction::InitArray { type_id: minted, .. } => minted == type_id,
        _ => false,
    }
}

/// One step that neither redeclares the name nor rebinds the identity
/// keeps the name's registration and its resolved type word for word.
proof fn lemma_step_preserves_binding(
    env: EnvView,
    instruction: Instruction,
    prog: IrProgram,
    name: TypeName,
)
    requires
        env.type_name_ids.contains_key(name),
        env.comp_time_types.contains_key(env.type_name_ids[name].0),
        !declares_name(instruction, name, prog),
        !binds_identity(instruction, env.type_name_ids[name]),
    ensures
        step_spec(env, instruction, prog) matches Ok(next) ==> {
            &&& next.type_name_ids.contains_key(name)
            &&& next.type_name_ids[name] == env.type_name_ids[name]
            &&& next.comp_time_types.contains_key(env.type_name_ids[name].0)
            &&& next.comp_time_types[env.type_name_ids[name].0]
                == env.comp_time_types[env.type_name_ids[name].0]
        },
{
}

/// A whole run that never redeclares the name nor rebinds its identity
/// keeps the binding untouched.
pub proof fn lemma_run_steps_preserves_binding(
    env: EnvView,
    instructions: Seq<Instruction>,
    prog: IrProgram,
    name: TypeName,
)
    requires
        env.type_name_ids.contains_key(name),
        env.comp_time_types.contains_key(env.type_name_ids[name].0),
        forall|i: int|
            0 <= i < instructions.len() ==> !declares_name(
                #[trigger] instructions[i],
                name,
                prog,
            ) && !binds_identity(instructions[i], env.type_name_ids[name]),
    ensures
        run_steps(env, instructions, prog) matches Ok(next) ==> {
            &&& next.type_name_ids.contains_key(name)
            &&& next.type_name_ids[name] == env.type_name_ids[name]
            &&& next.comp_time_types.contains_key(env.type_name_ids[name].0)
            &&& next.comp_time_types[env.type_name_ids[name].0]
                == env.comp_time_types[env.type_name_ids[name].0]
        },
    decreases instructions.len(),
{
    if instructions.len() > 0 {
        lemma_step_preserves_binding(env, instructions[0], prog, name);
        match step_spec(env, instructions[0], prog) {
            Ok(next) => {
                assert(forall|i: int|
                    0 <= i < instructions.drop_first().len() ==> #[trigger] instructions.drop_first()[i]
                        == instructions[i + 1]);
                lemma_run_steps_preserves_binding(next, instructions.drop_first(), prog, name);
            },
            Err(_) => {},
        }
    }
}

/// Seeding: a type declared at top level under a name that a function's
/// body neither redeclares nor rebinds is resolvable, unmodified, from
/// inside that function's seeded environment, without redeclaration.
pub proof fn lemma_seeded_binding_preserved(prog: IrProgram, k: int, name: TypeName)
    requires
        spec_evaluate_types(prog) matches Ok(_),
        0 <= k < prog.functions@.len(),
        spec_evaluate_types(prog)->Ok_0.0.type_name_ids.contains_key(name),
        forall|i: int|
            0 <= i < prog.functions@[k].body@.len() ==> !declares_name(
                #[trigger] prog.functions@[k].body@[i],
                name,
                prog,
            ) && !binds_identity(
                prog.functions@[k].body@[i],
                spec_evaluate_types(prog)->Ok_0.0.type_name_ids[name],
            ),
    ensures
        spec_evaluate_types(prog)->Ok_0.1.len() == prog.functions@.len(),
        ({
            let top = spec_evaluate_types(prog)->Ok_0.0;
            let function_env = spec_evaluate_types(prog)->Ok_0.1[k].1;
            &&& function_env.type_name_ids.contains_key(name)
            &&& function_env.type_name_ids[name] == top.type_name_ids[name]
            &&& function_env.comp_time_types.contains_key(top.type_name_ids[name].0)
            &&& function_env.comp_time_types[top.type_name_ids[name].0]
                == top.comp_time_types[top.type_name_ids[name].0]
        }),
{
    let top = run_steps(crate::environment::empty_env(), prog.top_level@, prog)->Ok_0;
    lemma_run_steps_preserves_wf(crate::environment::empty_env(), prog.top_level@, prog);
    lemma_evaluate_functions_results(top, prog.functions@, prog);
    lemma_run_steps_preserves_binding(top, prog.functions@[k].body@, prog, name);
}

} // verus!

