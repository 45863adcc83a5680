use vstd::prelude::*;
use crate::ids::Ssaid;
use crate::ids::TypeId;
use crate::ids::FunctionDeclarationId;
use crate::table::IdTable;

verus! {

/// A syntactic type name, as it appears in a type annotation.  Whether a
/// matching type is in scope is decided by the name-resolution table, not
/// here.  Non-primitive names are interned symbols.
#[derive(Clone, Copy, PartialEq, Eq, Structural, Debug)]
pub enum TypeName {
    SignedInteger,
    String,
    Named(u64),
}

/// The static kind of a literal value in the program's constant pool.  Only
/// the kind matters to this pass; the payloads stay with the IR.
#[derive(Clone, Copy, PartialEq, Eq, Structural, Debug)]
pub enum StaticValueKind {
    Integer,
    String,
    Other,
}

/// One IR instruction, restricted to what this pass reads.  Every other
/// instruction of the full IR is represented by [`Instruction::Other`] and
/// carries no type information.
#[derive(Clone, Debug)]
pub enum Instruction {
    /// Declares a primitive integer type under a name.  The receiver becomes
    /// a fresh type identity; `type_name_id` indexes the type-name table.
    DeclareIntegerType { receiver: TypeId, type_name_id: usize },
    /// Declares the primitive string type under a name.
    DeclareStringType { receiver: TypeId, type_name_id: usize },
    /// An anonymous literal value, to be typed from the constant pool.
    AnonymousValue(Ssaid),
    /// Declares a struct type: field identifiers (indices into the global
    /// field-identifier table) and, positionally aligned, the syntactic
    /// names of the field types (indices into the type-name table).
    StructDeclaration {
        receiver: TypeId,
        field_name_ids: Vec<usize>,
        field_type_name_ids: Vec<usize>,
        type_name_id: usize,
    },
    /// Constructs a value of the struct type named by `struct_identifier`
    /// (an index into the type-name table) from the given field values.
    StructInit { struct_identifier: usize, receiver: Ssaid, field_values: Vec<Ssaid> },
    /// Reads one field of a struct value; `field` indexes the global
    /// field-identifier table.
    ReadStructField { struct_value: Ssaid, field: usize, receiver: Ssaid },
    /// Initializes an array from element values, minting `type_id` as the
    /// identity of the new array type.
    InitArray { elements: Vec<Ssaid>, receiver: Ssaid, type_id: TypeId },
    /// A pure copy of one value into another.
    Assign { result: Ssaid, source: Ssaid },
    /// Reads one element of an array value.
    ArrayLookup { array: Ssaid, index: Ssaid, result: Ssaid },
    /// Any instruction that carries no type information for this pass.
    Other,
}

/// One function of the program: its declaration identifier and the
/// instructions of its body, in source order.
#[derive(Clone, Debug)]
pub struct Function {
    pub id: FunctionDeclarationId,
    pub body: Vec<Instruction>,
}

/// The externally built IR program, as far as this pass reads it: the
/// top-level instructions, the function bodies, and the shared tables.
pub struct IrProgram {
    /// The instructions of the top-level scope, in source order.
    pub top_level: Vec<Instruction>,
    /// The functions of the program, in the order the IR construction
    /// hands them over: ascending by declaration identifier.
    pub functions: Vec<Function>,
    /// Table from type-name reference to syntactic type name.
    pub type_names: Vec<TypeName>,
    /// Global table from field-reference index to field identifier.
    pub struct_field_identifier: Vec<u64>,
    /// Pool of static literal kinds, keyed by SSA value identifier.
    pub static_values: IdTable<StaticValueKind>,
}

} // verus!
