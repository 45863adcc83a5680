//! A type-checking / type-inference pass over a program in SSA form.
//!
//! The pass walks every instruction of a scope in order, accumulating a
//! [`environment::IrProgramTypes`] that maps each SSA value to a nominal type
//! identity and each identity to a concrete resolved shape.  A program whose
//! composite-type usage (struct construction, field reads, array indexing) is
//! inconsistent with its declarations is rejected with a typed error.

pub mod ids;
pub mod types;
pub mod table;
pub mod ir;
pub mod environment;
pub mod evaluation;
pub mod laws;
