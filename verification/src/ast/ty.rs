use vstd::prelude::*;

use crate::ast::path::Path;

verus! {

/// A primitive integer type as written in the source.
#[derive(Clone, Copy, Debug, PartialEq, Eq, Structural)]
pub enum IntegerType {
    I8,
    U8,
    I16,
    U16,
    I32,
    U32,
    I64,
    U64,
}

/// A reference type, `&T`.
#[derive(Debug)]
pub struct ReferenceType {
    pub ty: Box<Type>,
}

/// A type as written in the source.
#[derive(Debug)]
pub enum Type {
    Void,
    Boolean,
    Integer(IntegerType),
    Path(Path),
    Reference(ReferenceType),
}

/// A `: T` type annotation.
#[derive(Debug)]
pub struct TypeDeclaration {
    pub ty: Type,
}

} // verus!
