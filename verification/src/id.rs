use vstd::prelude::*;

verus! {

// Each table of the compiler hands out ids of its own strongly-typed family,
// so that an index into one table can never be mistaken for an index into
// another. Every id is a dense index: the table that owns it assigns ids in
// insertion order, starting at zero.

/// Index into the function tables.
#[derive(Clone, Copy, Debug, PartialEq, Eq, Structural, Hash)]
pub struct FunctionId(pub usize);

/// Index into the function-signature interning table.
#[derive(Clone, Copy, Debug, PartialEq, Eq, Structural, Hash)]
pub struct FunctionSignatureId(pub usize);

/// Index into the type interning table.
#[derive(Clone, Copy, Debug, PartialEq, Eq, Structural, Hash)]
pub struct TypeId(pub usize);

/// Index into the module table.
#[derive(Clone, Copy, Debug, PartialEq, Eq, Structural, Hash)]
pub struct ModuleId(pub usize);

/// Index into the struct table.
#[derive(Clone, Copy, Debug, PartialEq, Eq, Structural, Hash)]
pub struct StructId(pub usize);

/// Index into the block table of the intermediate representation.
#[derive(Clone, Copy, Debug, PartialEq, Eq, Structural, Hash)]
pub struct BlockId(pub usize);

} // verus!
