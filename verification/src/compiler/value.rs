use vstd::prelude::*;

use crate::compiler::ty::Type;
use crate::id::FunctionId;
use crate::ir::register::Register;
use crate::ir::stack::StackSlot;

verus! {

/// A compile-time value: the type of an expression paired with where its
/// result currently lives. Only the lowering stage uses values; they are not
/// part of the emitted intermediate representation.
#[derive(Clone, Copy, Debug)]
pub struct Value {
    pub ty: Type,
    pub kind: ValueKind,
}

impl Value {
    pub fn new(ty: Type, kind: ValueKind) -> (r: Self)
        ensures
            r == (Value { ty, kind }),
    {
        Value { ty, kind }
    }
}

/// Where the result of an expression is materialized: in a register, in an
/// addressable stack slot, or not at all yet (a named function).
#[derive(Clone, Copy, Debug)]
pub enum ValueKind {
    Register(Register),
    Stack(StackSlot),
    Function(FunctionId),
}

} // verus!
