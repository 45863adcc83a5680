use vstd::prelude::*;

verus! {

/// Identifier of one SSA value: a value produced by exactly one defining
/// instruction.  Minted by the surrounding IR construction; consumed here
/// only as a map key.
#[derive(Clone, Copy, PartialEq, Eq, Structural, Debug)]
pub struct Ssaid(pub u64);

/// A nominal type identity: the handle of the declaration instruction that
/// introduced a type.  Two declarations always mint two distinct identities,
/// even when the declared shapes coincide.
#[derive(Clone, Copy, PartialEq, Eq, Structural, Debug)]
pub struct TypeId(pub u64);

/// Handle of an interned struct descriptor in an environment's store.
#[derive(Clone, Copy, PartialEq, Eq, Structural, Debug)]
pub struct StructTypeId(pub usize);

/// Handle of an interned array descriptor in an environment's store.
#[derive(Clone, Copy, PartialEq, Eq, Structural, Debug)]
pub struct ArrayTypeId(pub usize);

/// Identifier of one function declaration of the program.
#[derive(Clone, Copy, PartialEq, Eq, Structural, Debug)]
pub struct FunctionDeclarationId(pub u64);

} // verus!
