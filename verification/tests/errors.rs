use fernc::ast::block::Block;
use fernc::ast::declaration::{Declaration, FunctionDeclaration, ReturnType};
use fernc::ast::expression::{
    BinaryExpression, BinaryOperator, CallExpression, Expression, LiteralExpression,
    ReturnExpression, UnaryExpression, UnaryOperator,
};
use fernc::ast::path::{Path, PathSegment};
use fernc::ast::program::Program;
use fernc::ast::punctuated::Punctuated;
use fernc::ast::statement::{ExpressionStatement, LetStatement, LetStatementValue, Statement};
use fernc::ast::token::{Ident, Integer, IntegerKind, IntegerLiteral, StringLiteral};
use fernc::ast::ty::{IntegerType, Type, TypeDeclaration};
use fernc::error::{Error, ErrorHint, ErrorKind};
use fernc::ir::program::Program as IrProgram;
use fernc::span::Span;

fn ident(name: &str) -> Ident {
    Ident::new(name.to_string(), Span::null())
}

fn int_lit(value: i64) -> Expression {
    Expression::Literal(LiteralExpression::Integer(IntegerLiteral::new(
        Integer::new(value, IntegerKind::Decimal),
        Span::null(),
    )))
}

fn name_expr(name: &str) -> Expression {
    let mut path = Path::empty();
    path.push_ident(ident(name));
    Expression::Path(path)
}

fn expr_stmt(value: Expression) -> Statement {
    Statement::Expression(ExpressionStatement { expression: value })
}

fn one_function(statements: Vec<Statement>, return_type: Option<Type>) -> Program {
    Program {
        declarations: vec![Declaration::Function(FunctionDeclaration {
            ident: ident("f"),
            args: Punctuated::new(),
            return_type: return_type.map(|ty| ReturnType { ty }),
            block: Block { statements },
        })],
    }
}

fn compile_kind(statements: Vec<Statement>, return_type: Option<Type>) -> ErrorKind {
    fernc::compiler::compile_program(one_function(statements, return_type)).unwrap_err().kind()
}

#[test]
fn unknown_name_is_an_undefined_path() {
    assert_eq!(compile_kind(vec![expr_stmt(name_expr("nothing"))], None), ErrorKind::UndefinedPath);
}

#[test]
fn super_from_the_root_is_an_invalid_path() {
    let mut path = Path::empty();
    path.push_segment(PathSegment::Super);
    path.push_ident(ident("x"));
    assert_eq!(
        compile_kind(vec![expr_stmt(Expression::Path(path))], None),
        ErrorKind::InvalidPath,
    );
}

#[test]
fn annotation_mismatch_is_a_type_mismatch() {
    let binding = Statement::Let(LetStatement {
        ident: ident("x"),
        ty: Some(TypeDeclaration { ty: Type::Integer(IntegerType::U32) }),
        value: Some(LetStatementValue { expression: int_lit(1) }),
    });
    assert_eq!(compile_kind(vec![binding], None), ErrorKind::TypeMismatch);
}

#[test]
fn binding_without_value_needs_an_annotation() {
    let binding = Statement::Let(LetStatement { ident: ident("x"), ty: None, value: None });
    assert_eq!(compile_kind(vec![binding], None), ErrorKind::TypeMismatch);
}

#[test]
fn wrong_return_type_is_a_type_mismatch() {
    let ret = expr_stmt(Expression::Return(ReturnExpression { expression: Box::new(int_lit(1)) }));
    assert_eq!(
        compile_kind(vec![ret], Some(Type::Integer(IntegerType::U32))),
        ErrorKind::TypeMismatch,
    );
}

#[test]
fn calling_a_number_is_not_callable() {
    let call = Expression::Call(CallExpression {
        function: Box::new(int_lit(1)),
        arguments: Punctuated::new(),
    });
    assert_eq!(compile_kind(vec![expr_stmt(call)], None), ErrorKind::NotCallable);
}

#[test]
fn referencing_a_constant_is_an_invalid_reference() {
    let reference = Expression::Unary(UnaryExpression {
        operator: UnaryOperator::Reference,
        expression: Box::new(int_lit(1)),
    });
    assert_eq!(compile_kind(vec![expr_stmt(reference)], None), ErrorKind::InvalidReference);
}

#[test]
fn dereferencing_a_number_is_an_invalid_dereference() {
    let dereference = Expression::Unary(UnaryExpression {
        operator: UnaryOperator::Dereference,
        expression: Box::new(int_lit(1)),
    });
    assert_eq!(compile_kind(vec![expr_stmt(dereference)], None), ErrorKind::InvalidDereference);
}

#[test]
fn string_literals_are_unsupported() {
    let string = Expression::Literal(LiteralExpression::String(StringLiteral::new(
        "hello".to_string(),
        Span::null(),
    )));
    assert_eq!(compile_kind(vec![expr_stmt(string)], None), ErrorKind::UnsupportedConstruct);
}

#[test]
fn negation_is_unsupported() {
    let negate = Expression::Unary(UnaryExpression {
        operator: UnaryOperator::Negate,
        expression: Box::new(int_lit(1)),
    });
    assert_eq!(compile_kind(vec![expr_stmt(negate)], None), ErrorKind::UnsupportedConstruct);
}

#[test]
fn subtraction_is_unsupported() {
    let subtract = Expression::Binary(BinaryExpression {
        lhs: Box::new(int_lit(1)),
        operator: BinaryOperator::Sub,
        rhs: Box::new(int_lit(1)),
    });
    assert_eq!(compile_kind(vec![expr_stmt(subtract)], None), ErrorKind::UnsupportedConstruct);
}

#[test]
fn nominal_types_are_unsupported() {
    let mut nominal = Path::empty();
    nominal.push_ident(ident("Widget"));
    let binding = Statement::Let(LetStatement {
        ident: ident("x"),
        ty: Some(TypeDeclaration { ty: Type::Path(nominal) }),
        value: None,
    });
    assert_eq!(compile_kind(vec![binding], None), ErrorKind::UnsupportedConstruct);
}

#[test]
fn nominal_argument_types_are_unsupported() {
    let mut nominal = Path::empty();
    nominal.push_ident(ident("Widget"));
    let mut args = Punctuated::new();
    args.push(
        fernc::ast::declaration::FunctionArgument {
            ident: ident("w"),
            ty: TypeDeclaration { ty: Type::Path(nominal) },
        },
        fernc::ast::token::Comma,
    );
    let program = Program {
        declarations: vec![Declaration::Function(FunctionDeclaration {
            ident: ident("f"),
            args,
            return_type: None,
            block: Block { statements: vec![] },
        })],
    };
    let error = fernc::compiler::compile_program(program).unwrap_err();
    assert_eq!(error.kind(), ErrorKind::UnsupportedConstruct);
}

#[test]
fn adding_mismatched_operands_is_a_type_mismatch() {
    let program = Program {
        declarations: vec![Declaration::Function(FunctionDeclaration {
            ident: ident("f"),
            args: Punctuated::new(),
            return_type: None,
            block: Block {
                statements: vec![
                    Statement::Let(LetStatement {
                        ident: ident("y"),
                        ty: Some(TypeDeclaration { ty: Type::Integer(IntegerType::I64) }),
                        value: None,
                    }),
                    expr_stmt(Expression::Binary(BinaryExpression {
                        lhs: Box::new(int_lit(1)),
                        operator: BinaryOperator::Add,
                        rhs: Box::new(name_expr("y")),
                    })),
                ],
            },
        })],
    };
    let error: Error = fernc::compiler::compile_program(program).unwrap_err();
    assert_eq!(error.kind(), ErrorKind::TypeMismatch);
}

#[test]
fn errors_carry_their_message_span_and_hints() {
    let error = Error::spanned(
        ErrorKind::Syntax,
        "something went wrong".to_string(),
        Span::new(fernc::source::SourceId::null(), 3, 4),
    )
    .with_hint("look here".to_string(), Span::null());
    assert_eq!(error.kind(), ErrorKind::Syntax);
    assert_eq!(error.message().as_str(), "something went wrong");
    assert_eq!(error.span().unwrap().index(), 3);
    assert_eq!(error.hints().len(), 1);
    assert_eq!(error.hints()[0].message().as_str(), "look here");
    let hint = ErrorHint::new("note".to_string(), Span::null());
    assert_eq!(hint.message().as_str(), "note");
    assert_eq!(hint.span(), Span::null());
}

#[test]
fn empty_program_compiles_to_an_empty_ir() {
    let program: IrProgram =
        fernc::compiler::compile_program(Program { declarations: vec![] }).unwrap();
    assert!(program.functions.len() == 0);
}
