use vstd::prelude::*;

use crate::ast::path::Path;
use crate::ast::punctuated::Punctuated;
use crate::ast::token::{Colon, IntegerLiteral, StringLiteral};

verus! {

/// A literal expression.
#[derive(Debug)]
pub enum LiteralExpression {
    String(StringLiteral),
    Integer(IntegerLiteral),
}

/// A parenthesized expression, `(e)`.
#[derive(Debug)]
pub struct ParenExpression {
    pub expression: Box<Expression>,
}

/// A call expression, `f(a, b)`.
#[derive(Debug)]
pub struct CallExpression {
    pub function: Box<Expression>,
    pub arguments: Punctuated<Expression, Colon>,
}

/// A prefix operator.
#[derive(Clone, Copy, Debug, PartialEq, Eq, Structural)]
pub enum UnaryOperator {
    Reference,
    Dereference,
    Negate,
}

/// A prefix-operator expression, such as `&e` or `*e`.
#[derive(Debug)]
pub struct UnaryExpression {
    pub operator: UnaryOperator,
    pub expression: Box<Expression>,
}

/// An infix operator.
#[derive(Clone, Copy, Debug, PartialEq, Eq, Structural)]
pub enum BinaryOperator {
    Add,
    Sub,
    Mul,
    Div,
    LogicalAnd,
    LogicalOr,
    BinaryAnd,
    BinaryOr,
    BitShiftRight,
    BitShiftLeft,
}

impl BinaryOperator {
    /// The binding strength of the operator; a larger value binds tighter.
    pub open spec fn spec_precedence(&self) -> u32 {
        match *self {
            BinaryOperator::Mul | BinaryOperator::Div => 12u32,
            BinaryOperator::Add | BinaryOperator::Sub => 11u32,
            BinaryOperator::BitShiftLeft | BinaryOperator::BitShiftRight => 10u32,
            BinaryOperator::LogicalAnd => 4u32,
            BinaryOperator::LogicalOr => 3u32,
            _ => 0u32,
        }
    }

    pub fn precedence(&self) -> (r: u32)
        ensures
            r == self.spec_precedence(),
    {
        match self {
            BinaryOperator::Mul | BinaryOperator::Div => 12,
            BinaryOperator::Add | BinaryOperator::Sub => 11,
            BinaryOperator::BitShiftLeft | BinaryOperator::BitShiftRight => 10,
            BinaryOperator::LogicalAnd => 4,
            BinaryOperator::LogicalOr => 3,
            _ => 0,
        }
    }
}

/// An infix-operator expression, `lhs op rhs`.
#[derive(Debug)]
pub struct BinaryExpression {
    pub lhs: Box<Expression>,
    pub operator: BinaryOperator,
    pub rhs: Box<Expression>,
}

/// A `return e` expression.
#[derive(Debug)]
pub struct ReturnExpression {
    pub expression: Box<Expression>,
}

/// An expression of the language.
#[derive(Debug)]
pub enum Expression {
    Paren(ParenExpression),
    Literal(LiteralExpression),
    Path(Path),
    Call(CallExpression),
    Unary(UnaryExpression),
    Binary(BinaryExpression),
    Return(ReturnExpression),
}

} // verus!
