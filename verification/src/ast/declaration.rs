use vstd::prelude::*;

use crate::ast::block::Block;
use crate::ast::punctuated::Punctuated;
use crate::ast::token::{Comma, Ident};
use crate::ast::ty::{Type, TypeDeclaration};

verus! {

/// The `-> T` return-type clause of a function declaration.
#[derive(Debug)]
pub struct ReturnType {
    pub ty: Type,
}

/// One `name: T` argument of a function declaration.
#[derive(Debug)]
pub struct FunctionArgument {
    pub ident: Ident,
    pub ty: TypeDeclaration,
}

/// A `fn name(args) [-> T] { ... }` declaration.
#[derive(Debug)]
pub struct FunctionDeclaration {
    pub ident: Ident,
    pub args: Punctuated<FunctionArgument, Comma>,
    pub return_type: Option<ReturnType>,
    pub block: Block,
}

/// A top-level declaration.
#[derive(Debug)]
pub enum Declaration {
    Function(FunctionDeclaration),
}

} // verus!
