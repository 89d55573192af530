//! The syntax tree handed to the compiler by the (external) parsing stage.

pub mod block;
pub mod declaration;
pub mod expression;
pub mod path;
pub mod program;
pub mod punctuated;
pub mod statement;
pub mod token;
pub mod ty;

pub use block::Block;
pub use declaration::{Declaration, FunctionArgument, FunctionDeclaration, ReturnType};
pub use expression::{
    BinaryExpression, BinaryOperator, CallExpression, Expression, LiteralExpression,
    ParenExpression, ReturnExpression, UnaryExpression, UnaryOperator,
};
pub use path::{Path, PathSegment};
pub use program::Program;
pub use punctuated::Punctuated;
pub use statement::{ExpressionStatement, LetStatement, LetStatementValue, Statement};
pub use token::{
    Colon, ColonColon, Comma, Ident, Integer, IntegerKind, IntegerLiteral, Keyword, StringLiteral,
    Symbol, Token,
};
pub use ty::{IntegerType, ReferenceType, Type, TypeDeclaration};
