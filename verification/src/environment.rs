use vstd::prelude::*;
use crate::ids::Ssaid;
use crate::ids::TypeId;
use crate::ir::IrProgram;
use crate::ir::TypeName;
use crate::table::IdTable;
use crate::table::NameTable;
use crate::types::ArrayType;
use crate::types::LookupKind;
use crate::types::StructType;
use crate::types::StructTypeView;
use crate::types::Type;
use crate::types::TypeError;

verus! {

/// The mathematical content of one type environment: what the accumulated
/// state denotes, independent of how it is stored.
#[verifier::ext_equal]
pub struct EnvView {
    /// SSA value identifier to the type identity of the value.
    pub variable_types: Map<u64, TypeId>,
    /// Type identity to the concrete resolved type bound to it.
    pub comp_time_types: Map<u64, Type>,
    /// Syntactic type name to the identity most recently declared under it.
    pub type_name_ids: Map<TypeName, TypeId>,
    /// The append-only store of struct descriptors, addressed by handle.
    pub struct_types: Seq<StructTypeView>,
    /// The append-only store of array descriptors, addressed by handle.
    pub array_types: Seq<ArrayType>,
}

/// The environment in which every table starts empty.
pub open spec fn empty_env() -> EnvView {
    EnvView {
        variable_types: Map::empty(),
        comp_time_types: Map::empty(),
        type_name_ids: Map::empty(),
        struct_types: Seq::empty(),
        array_types: Seq::empty(),
    }
}

/// Two-hop resolution of an SSA value to its concrete type: value to type
/// identity, then type identity to resolved type.
pub open spec fn spec_lookup(env: EnvView, variable_id: Ssaid) -> Result<Type, TypeError> {
    if !env.variable_types.contains_key(variable_id.0) {
        Err(TypeError::LookupFailure(LookupKind::UnmappedValue))
    } else if !env.comp_time_types.contains_key(env.variable_types[variable_id.0].0) {
        Err(TypeError::LookupFailure(LookupKind::UnresolvedTypeIdentity))
    } else {
        Ok(env.comp_time_types[env.variable_types[variable_id.0].0])
    }
}

/// The scan of a struct descriptor's field-identifier list for the first
/// position whose global identifier equals `target`.  An out-of-bounds
/// reference into the global table fails before any later match is seen.
pub open spec fn spec_field_scan(field_ids: Seq<usize>, table: Seq<u64>, target: u64) -> Result<
    usize,
    TypeError,
>
    decreases field_ids.len(),
{
    if field_ids.len() == 0 {
        Err(TypeError::MissingField)
    } else if field_ids[0] >= table.len() {
        Err(TypeError::LookupFailure(LookupKind::FieldReferenceOutOfBounds))
    } else if table[field_ids[0] as int] == target {
        Ok(0usize)
    } else {
        match spec_field_scan(field_ids.drop_first(), table, target) {
            Ok(p) => Ok((p + 1) as usize),
            Err(e) => Err(e),
        }
    }
}

/// One unfolding of [`spec_field_scan`] at position `i` of the full list.
proof fn lemma_field_scan_step(field_ids: Seq<usize>, table: Seq<u64>, target: u64, i: int)
    requires
        0 <= i < field_ids.len(),
    ensures
        spec_field_scan(field_ids.skip(i), table, target) == (if field_ids[i] >= table.len() {
            Err::<usize, TypeError>(TypeError::LookupFailure(LookupKind::FieldReferenceOutOfBounds))
        } else if table[field_ids[i] as int] == target {
            Ok::<usize, TypeError>(0usize)
        } else {
            match spec_field_scan(field_ids.skip(i + 1), table, target) {
                Ok(p) => Ok::<usize, TypeError>((p + 1) as usize),
                Err(e) => Err::<usize, TypeError>(e),
            }
        }),
{
    assert(field_ids.skip(i)[0] == field_ids[i]);
    assert(field_ids.skip(i).drop_first() =~= field_ids.skip(i + 1));
}

/// A successful scan returns a position inside the field list.
proof fn lemma_field_scan_ok_bound(field_ids: Seq<usize>, table: Seq<u64>, target: u64)
    ensures
        spec_field_scan(field_ids, table, target) matches Ok(p) ==> p < field_ids.len(),
    decreases field_ids.len(),
{
    if field_ids.len() > 0 {
        lemma_field_scan_ok_bound(field_ids.drop_first(), table, target);
    }
}

/// Resolution of an indirect field reference to a struct-local position:
/// the struct value must resolve to a struct shape, its descriptor and the
/// field reference must be present, and the referenced identifier must be
/// among the struct's declared fields.
pub open spec fn spec_field_position(
    env: EnvView,
    struct_ssaid: Ssaid,
    field_id_index: usize,
    prog: IrProgram,
) -> Result<usize, TypeError> {
    match spec_lookup(env, struct_ssaid) {
        Ok(Type::Struct(struct_type_id)) => {
            if struct_type_id.0 >= env.struct_types.len() {
                Err(TypeError::LookupFailure(LookupKind::UnknownDescriptor))
            } else if field_id_index >= prog.struct_field_identifier@.len() {
                Err(TypeError::LookupFailure(LookupKind::FieldReferenceOutOfBounds))
            } else {
                spec_field_scan(
                    env.struct_types[struct_type_id.0 as int].field_ids,
                    prog.struct_field_identifier@,
                    prog.struct_field_identifier@[field_id_index as int],
                )
            }
        },
        _ => Err(TypeError::TypeMismatch),
    }
}

/// The accumulated type-resolution state of one analysis scope: the
/// top-level program body, or one function body.
#[derive(Debug)]
pub struct IrProgramTypes {
    /// SSA value identifier to the type identity of the value.
    pub variable_types: IdTable<TypeId>,
    /// Type identity to the concrete resolved type bound to it.
    pub comp_time_types: IdTable<Type>,
    /// Syntactic type name to the identity most recently declared under it.
    pub type_name_ids: NameTable,
    /// The append-only store of struct descriptors.
    pub struct_types: Vec<StructType>,
    /// The append-only store of array descriptors.
    pub array_types: Vec<ArrayType>,
}

impl View for IrProgramTypes {
    type V = EnvView;

    open spec fn view(&self) -> EnvView {
        EnvView {
            variable_types: self.variable_types@,
            comp_time_types: self.comp_time_types@,
            type_name_ids: self.type_name_ids@,
            struct_types: self.struct_types@.map_values(|st: StructType| st@),
            array_types: self.array_types@,
        }
    }
}

fn copy_struct_types(v: &Vec<StructType>) -> (r: Vec<StructType>)
    ensures
        r@.map_values(|st: StructType| st@) == v@.map_values(|st: StructType| st@),
{
    let mut out: Vec<StructType> = Vec::new();
    let mut i: usize = 0;
    while i < v.len()
        invariant
            i <= v.len(),
            out@.len() == i,
            forall|j: int| 0 <= j < i ==> #[trigger] out@[j]@ == v@[j]@,
        decreases v.len() - i,
    {
        let entry = &v[i];
        out.push(StructType { field_ids: copy_usizes(&entry.field_ids), field_types: copy_type_ids(&entry.field_types) });
        i = i + 1;
    }
    proof {
        assert(out@.map_values(|st: StructType| st@) =~= v@.map_values(|st: StructType| st@));
    }
    out
}

pub(crate) fn copy_usizes(v: &Vec<usize>) -> (r: Vec<usize>)
    ensures
        r@ == v@,
{
    let mut out: Vec<usize> = Vec::new();
    let mut i: usize = 0;
    while i < v.len()
        invariant
            i <= v.len(),
            out@ == v@.take(i as int),
        decreases v.len() - i,
    {
        out.push(v[i]);
        proof {
            assert(out@ =~= v@.take(i + 1));
        }
        i = i + 1;
    }
    proof {
        assert(out@ =~= v@);
    }
    out
}

fn copy_type_ids(v: &Vec<TypeId>) -> (r: Vec<TypeId>)
    ensures
        r@ == v@,
{
    let mut out: Vec<TypeId> = Vec::new();
    let mut i: usize = 0;
    while i < v.len()
        invariant
            i <= v.len(),
            out@ == v@.take(i as int),
        decreases v.len() - i,
    {
        out.push(v[i]);
        proof {
            assert(out@ =~= v@.take(i + 1));
        }
        i = i + 1;
    }
    proof {
        assert(out@ =~= v@);
    }
    out
}

fn copy_array_types(v: &Vec<ArrayType>) -> (r: Vec<ArrayType>)
    ensures
        r@ == v@,
{
    let mut out: Vec<ArrayType> = Vec::new();
    let mut i: usize = 0;
    while i < v.len()
        invariant
            i <= v.len(),
            out@ == v@.take(i as int),
        decreases v.len() - i,
    {
        out.push(v[i]);
        proof {
            assert(out@ =~= v@.take(i + 1));
        }
        i = i + 1;
    }
    proof {
        assert(out@ =~= v@);
    }
    out
}

impl IrProgramTypes {
    /// A fresh, empty environment: nothing declared, nothing typed.
    pub fn new() -> (r: Self)
        ensures
            r@ == empty_env(),
    {
        let r = IrProgramTypes {
            variable_types: IdTable::new(),
            comp_time_types: IdTable::new(),
            type_name_ids: NameTable::new(),
            struct_types: Vec::new(),
            array_types: Vec::new(),
        };
        proof {
            assert(r@ =~= empty_env());
        }
        r
    }

    /// An independent deep copy, for seeding one scope's environment from
    /// another: later changes to either side stay invisible to the other.
    pub fn deep_copy(&self) -> (r: Self)
        ensures
            r@ == self@,
    {
        let r = IrProgramTypes {
            variable_types: self.variable_types.duplicate(),
            comp_time_types: self.comp_time_types.duplicate(),
            type_name_ids: self.type_name_ids.duplicate(),
            struct_types: copy_struct_types(&self.struct_types),
            array_types: copy_array_types(&self.array_types),
        };
        proof {
            assert(r@ =~= self@);
        }
        r
    }

    /// Two-hop resolution of an SSA value to its concrete resolved type.
    pub fn lookup_variable_type(&self, variable_id: Ssaid) -> (r: Result<Type, TypeError>)
        ensures
            r == spec_lookup(self@, variable_id),
    {
        match self.variable_types.get(variable_id.0) {
            None => Err(TypeError::LookupFailure(LookupKind::UnmappedValue)),
            Some(type_id) => match self.comp_time_types.get(type_id.0) {
                None => Err(TypeError::LookupFailure(LookupKind::UnresolvedTypeIdentity)),
                Some(resolved) => Ok(resolved),
            },
        }
    }

    /// Translates an indirect field reference — a slot in the global
    /// field-identifier table — into the position of that field in the
    /// declared order of the struct that `struct_ssaid` resolves to.
    pub fn calculate_struct_field_position(
        &self,
        struct_ssaid: Ssaid,
        field_id_index: usize,
        ir_program: &IrProgram,
    ) -> (r: Result<usize, TypeError>)
        ensures
            r == spec_field_position(self@, struct_ssaid, field_id_index, *ir_program),
    {
        let struct_type_id = match self.lookup_variable_type(struct_ssaid) {
            Ok(Type::Struct(struct_type_id)) => struct_type_id,
            _ => {
                return Err(TypeError::TypeMismatch);
            },
        };
        if struct_type_id.0 >= self.struct_types.len() {
            return Err(TypeError::LookupFailure(LookupKind::UnknownDescriptor));
        }
        if field_id_index >= ir_program.struct_field_identifier.len() {
            return Err(TypeError::LookupFailure(LookupKind::FieldReferenceOutOfBounds));
        }
        let actual_type = &self.struct_types[struct_type_id.0];
        let target = ir_program.struct_field_identifier[field_id_index];
        proof {
            assert(self@.struct_types[struct_type_id.0 as int] == actual_type@);
        }
        let ghost field_ids: Seq<usize> = actual_type.field_ids@;
        let ghost table: Seq<u64> = ir_program.struct_field_identifier@;
        proof {
            assert(field_ids.skip(0) =~= field_ids);
            lemma_field_scan_ok_bound(field_ids, table, target);
        }
        let mut i: usize = 0;
        while i < actual_type.field_ids.len()
            invariant
                i <= field_ids.len(),
                field_ids == actual_type.field_ids@,
                table == ir_program.struct_field_identifier@,
                spec_field_position(self@, struct_ssaid, field_id_index, *ir_program)
                    == spec_field_scan(field_ids, table, target),
                spec_field_scan(field_ids, table, target) == (match spec_field_scan(
                    field_ids.skip(i as int),
                    table,
                    target,
                ) {
                    Ok(p) => Ok::<usize, TypeError>((p + i) as usize),
                    Err(e) => Err::<usize, TypeError>(e),
                }),
            decreases field_ids.len() - i,
        {
            proof {
                lemma_field_scan_step(field_ids, table, target, i as int);
                lemma_field_scan_ok_bound(field_ids.skip(i + 1), table, target);
            }
            let struct_field_id_index = actual_type.field_ids[i];
            if struct_field_id_index >= ir_program.struct_field_identifier.len() {
                return Err(TypeError::LookupFailure(LookupKind::FieldReferenceOutOfBounds));
            }
            if ir_program.struct_field_identifier[struct_field_id_index] == target {
                return Ok(i);
            }
            i = i + 1;
        }
        proof {
            assert(field_ids.skip(i as int) =~= Seq::<usize>::empty());
        }
        Err(TypeError::MissingField)
    }
}

} // verus!
