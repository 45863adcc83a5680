use vstd::prelude::*;
use crate::ids::ArrayTypeId;
use crate::ids::StructTypeId;
use crate::ids::TypeId;

verus! {

/// A resolved, concrete type shape bound to a type identity.
#[derive(Clone, Copy, PartialEq, Eq, Structural, Debug)]
pub enum Type {
    /// A signed integer of the given bit width.
    Integer(u32),
    /// The primitive string type.
    String,
    /// A struct shape, held in the environment's struct descriptor store.
    Struct(StructTypeId),
    /// An array shape, held in the environment's array descriptor store.
    Array(ArrayTypeId),
}

/// Struct descriptor: an ordered list of field identifiers (indices into the
/// program's global field-identifier table) paired positionally with an
/// ordered list of field type identities.
#[derive(Clone, Debug)]
pub struct StructType {
    pub field_ids: Vec<usize>,
    pub field_types: Vec<TypeId>,
}

/// The mathematical shape of a [`StructType`].
#[verifier::ext_equal]
pub struct StructTypeView {
    pub field_ids: Seq<usize>,
    pub field_types: Seq<TypeId>,
}

impl View for StructType {
    type V = StructTypeView;

    open spec fn view(&self) -> StructTypeView {
        StructTypeView { field_ids: self.field_ids@, field_types: self.field_types@ }
    }
}

/// Array descriptor: one element type identity plus a fixed element count.
#[derive(Clone, Copy, PartialEq, Eq, Structural, Debug)]
pub struct ArrayType {
    pub length: usize,
    pub element_type: TypeId,
}

/// The reason a lookup into the accumulated state (or into one of the
/// program's tables) found nothing.
#[derive(Clone, Copy, PartialEq, Eq, Structural, Debug)]
pub enum LookupKind {
    /// An SSA value has no recorded type identity.
    UnmappedValue,
    /// A type identity has no resolved type recorded for it.
    UnresolvedTypeIdentity,
    /// A type-name reference lies outside the program's type-name table.
    UnknownTypeName,
    /// A syntactic type name has not been declared in this scope.
    UndeclaredType,
    /// A struct or array handle has no descriptor in its store.
    UnknownDescriptor,
    /// A field reference lies outside the global field-identifier table.
    FieldReferenceOutOfBounds,
    /// A struct descriptor has no type identity at a field's position.
    MissingFieldType,
    /// An anonymous value has no entry in the static literal pool.
    UnknownLiteral,
    /// An array initializer carries no elements to take a type from.
    EmptyArrayInit,
}

/// The typed failures of the pass.  Analysis of a scope stops at the first
/// one; no partial environment is salvaged.
#[derive(Clone, Copy, PartialEq, Eq, Structural, Debug)]
pub enum TypeError {
    /// A referenced value, type identity, or descriptor handle is absent.
    LookupFailure(LookupKind),
    /// A declared type identity differs from a provided one.
    TypeMismatch,
    /// A requested field identifier is not among a struct's declared fields.
    MissingField,
}

} // verus!
