use vstd::prelude::*;

use crate::ast::expression::Expression;
use crate::ast::token::Ident;
use crate::ast::ty::TypeDeclaration;

verus! {

/// The `= e` initializer of a `let` statement.
#[derive(Debug)]
pub struct LetStatementValue {
    pub expression: Expression,
}

/// A `let name[: T][= e];` statement.
#[derive(Debug)]
pub struct LetStatement {
    pub ident: Ident,
    pub ty: Option<TypeDeclaration>,
    pub value: Option<LetStatementValue>,
}

/// An expression used as a statement, `e;`.
#[derive(Debug)]
pub struct ExpressionStatement {
    pub expression: Expression,
}

/// A statement of the language.
#[derive(Debug)]
pub enum Statement {
    Noop,
    Expression(ExpressionStatement),
    Let(LetStatement),
}

} // verus!
