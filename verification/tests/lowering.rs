use fernc::ast::block::Block;
use fernc::ast::declaration::{Declaration, FunctionArgument, FunctionDeclaration, ReturnType};
use fernc::ast::expression::{
    BinaryExpression, BinaryOperator, CallExpression, Expression, LiteralExpression,
    ReturnExpression, UnaryExpression, UnaryOperator,
};
use fernc::ast::path::Path;
use fernc::ast::program::Program;
use fernc::ast::punctuated::Punctuated;
use fernc::ast::statement::{
    ExpressionStatement, LetStatement, LetStatementValue, Statement,
};
use fernc::ast::token::{Colon, Comma, Ident, Integer, IntegerKind, IntegerLiteral};
use fernc::ast::ty::{IntegerType, ReferenceType, Type, TypeDeclaration};
use fernc::error::{Error, ErrorKind};
use fernc::id::{BlockId, FunctionId};
use fernc::ir::instruction::Instruction;
use fernc::ir::memory::MemoryType;
use fernc::ir::program::Program as IrProgram;
use fernc::span::Span;

fn ident(name: &str) -> Ident {
    Ident::new(name.to_string(), Span::null())
}

fn int_lit(value: i64) -> Expression {
    Expression::Literal(LiteralExpression::Integer(IntegerLiteral::new(
        Integer::new(value, IntegerKind::Decimal),
        Span::null(),
    )))
}

fn name_expr(name: &str) -> Expression {
    let mut path = Path::empty();
    path.push_ident(ident(name));
    Expression::Path(path)
}

fn call_expr(callee: Expression, arguments: Vec<Expression>) -> Expression {
    let mut punctuated = Punctuated::new();
    for argument in arguments {
        punctuated.push(argument, Colon);
    }
    Expression::Call(CallExpression { function: Box::new(callee), arguments: punctuated })
}

fn return_stmt(value: Expression) -> Statement {
    Statement::Expression(ExpressionStatement {
        expression: Expression::Return(ReturnExpression { expression: Box::new(value) }),
    })
}

fn expr_stmt(value: Expression) -> Statement {
    Statement::Expression(ExpressionStatement { expression: value })
}

fn let_stmt(name: &str, ty: Option<Type>, value: Option<Expression>) -> Statement {
    Statement::Let(LetStatement {
        ident: ident(name),
        ty: ty.map(|ty| TypeDeclaration { ty }),
        value: value.map(|expression| LetStatementValue { expression }),
    })
}

fn function(
    name: &str,
    arguments: Vec<(&str, Type)>,
    return_type: Option<Type>,
    statements: Vec<Statement>,
) -> Declaration {
    let mut args = Punctuated::new();
    for (argument, ty) in arguments {
        args.push(FunctionArgument { ident: ident(argument), ty: TypeDeclaration { ty } }, Comma);
    }
    Declaration::Function(FunctionDeclaration {
        ident: ident(name),
        args,
        return_type: return_type.map(|ty| ReturnType { ty }),
        block: Block { statements },
    })
}

fn compile(declarations: Vec<Declaration>) -> Result<IrProgram, Error> {
    fernc::compiler::compile_program(Program { declarations })
}

fn i32_type() -> Type {
    Type::Integer(IntegerType::I32)
}

#[test]
fn shadowing_resolves_to_the_second_binding() {
    let program = compile(vec![function(
        "f",
        vec![],
        Some(i32_type()),
        vec![
            let_stmt("x", Some(i32_type()), Some(int_lit(1))),
            let_stmt("x", Some(i32_type()), Some(int_lit(2))),
            return_stmt(name_expr("x")),
        ],
    )])
    .unwrap();
    let block = program.blocks.get(BlockId(0)).unwrap();
    let instructions = block.instructions();
    // constant + store per binding, then the load of `x` and the return
    assert_eq!(instructions.len(), 6);
    match &instructions[4] {
        Instruction::StackLoad { slot, .. } => assert_eq!(slot.to_usize(), 1),
        other => panic!("expected a stack load, found {:?}", other),
    }
}

#[test]
fn function_without_return_type_and_without_return_compiles() {
    let program = compile(vec![function(
        "f",
        vec![],
        None,
        vec![Statement::Noop, let_stmt("x", Some(i32_type()), Some(int_lit(1)))],
    )]);
    assert!(program.is_ok());
}

#[test]
fn function_with_return_type_but_no_return_is_missing_return() {
    let error = compile(vec![function(
        "f",
        vec![],
        Some(i32_type()),
        vec![Statement::Noop],
    )])
    .unwrap_err();
    assert_eq!(error.kind(), ErrorKind::MissingReturn);
}

#[test]
fn call_with_wrong_argument_type_is_an_argument_mismatch() {
    let error = compile(vec![
        function(
            "f",
            vec![("x", i32_type())],
            Some(i32_type()),
            vec![return_stmt(name_expr("x"))],
        ),
        function(
            "g",
            vec![],
            None,
            vec![
                let_stmt("y", Some(Type::Integer(IntegerType::I64)), None),
                expr_stmt(call_expr(name_expr("f"), vec![name_expr("y")])),
            ],
        ),
    ])
    .unwrap_err();
    assert_eq!(error.kind(), ErrorKind::ArgumentMismatch);
}

#[test]
fn call_with_wrong_arity_is_an_argument_mismatch() {
    let error = compile(vec![
        function(
            "f",
            vec![("x", i32_type())],
            Some(i32_type()),
            vec![return_stmt(name_expr("x"))],
        ),
        function("g", vec![], None, vec![expr_stmt(call_expr(name_expr("f"), vec![]))]),
    ])
    .unwrap_err();
    assert_eq!(error.kind(), ErrorKind::ArgumentMismatch);
}

#[test]
fn call_with_correct_type_yields_the_return_type() {
    // binding the call's result with an `i32` annotation type-checks, so
    // the call's value must have type `i32`
    let program = compile(vec![
        function(
            "f",
            vec![("x", i32_type())],
            Some(i32_type()),
            vec![return_stmt(name_expr("x"))],
        ),
        function(
            "g",
            vec![],
            None,
            vec![let_stmt("r", Some(i32_type()), Some(call_expr(name_expr("f"), vec![int_lit(5)])))],
        ),
    ]);
    assert!(program.is_ok());
}

#[test]
fn add_lowers_to_loads_add_and_return() {
    let body = Expression::Binary(BinaryExpression {
        lhs: Box::new(name_expr("a")),
        operator: BinaryOperator::Add,
        rhs: Box::new(name_expr("b")),
    });
    let program = compile(vec![function(
        "add",
        vec![("a", i32_type()), ("b", i32_type())],
        Some(i32_type()),
        vec![return_stmt(body)],
    )])
    .unwrap();

    let lowered = program.functions.get(FunctionId(0)).unwrap();
    assert_eq!(lowered.blocks.len(), 1);
    assert_eq!(lowered.blocks[0], BlockId(0));
    assert_eq!(lowered.label.as_ref().unwrap().as_str(), "add");

    let block = program.blocks.get(BlockId(0)).unwrap();
    let instructions = block.instructions();
    assert_eq!(instructions.len(), 4);
    match &instructions[0] {
        Instruction::StackLoad { slot, ty, .. } => {
            assert_eq!(slot.to_usize(), 0);
            assert_eq!(*ty, MemoryType::I32);
        },
        other => panic!("expected a load of a, found {:?}", other),
    }
    match &instructions[1] {
        Instruction::StackLoad { slot, .. } => assert_eq!(slot.to_usize(), 1),
        other => panic!("expected a load of b, found {:?}", other),
    }
    assert!(matches!(instructions[2], Instruction::Add { .. }));
    assert!(matches!(instructions[3], Instruction::Return { .. }));

    let signature = program.signatures.get_signature(lowered.signature);
    assert_eq!(signature.arguments.len(), 2);
    assert_eq!(program.types.get_type(signature.arguments[0]), fernc::compiler::ty::Type::Memory(MemoryType::I32));
    assert_eq!(program.types.get_type(signature.arguments[1]), fernc::compiler::ty::Type::Memory(MemoryType::I32));
    assert_eq!(program.types.get_type(signature.return_type), fernc::compiler::ty::Type::Memory(MemoryType::I32));
}

#[test]
fn references_lower_and_type_check() {
    let program = compile(vec![function(
        "f",
        vec![],
        Some(i32_type()),
        vec![
            let_stmt("x", Some(i32_type()), Some(int_lit(1))),
            let_stmt(
                "p",
                Some(Type::Reference(ReferenceType { ty: Box::new(i32_type()) })),
                Some(Expression::Unary(UnaryExpression {
                    operator: UnaryOperator::Reference,
                    expression: Box::new(name_expr("x")),
                })),
            ),
            return_stmt(Expression::Unary(UnaryExpression {
                operator: UnaryOperator::Dereference,
                expression: Box::new(name_expr("p")),
            })),
        ],
    )]);
    assert!(program.is_ok());
}

#[test]
fn a_return_inside_an_initializer_ends_the_function() {
    let program = compile(vec![function(
        "f",
        vec![],
        Some(i32_type()),
        vec![let_stmt(
            "x",
            Some(i32_type()),
            Some(Expression::Return(ReturnExpression { expression: Box::new(int_lit(1)) })),
        )],
    )])
    .unwrap();
    let block = program.blocks.get(BlockId(0)).unwrap();
    let instructions = block.instructions();
    assert_eq!(instructions.len(), 2);
    assert!(matches!(instructions[0], Instruction::IConst { .. }));
    assert!(matches!(instructions[1], Instruction::Return { .. }));
}

#[test]
fn parentheses_are_transparent() {
    let sum = Expression::Binary(BinaryExpression {
        lhs: Box::new(Expression::Paren(fernc::ast::expression::ParenExpression {
            expression: Box::new(int_lit(1)),
        })),
        operator: BinaryOperator::Add,
        rhs: Box::new(Expression::Paren(fernc::ast::expression::ParenExpression {
            expression: Box::new(int_lit(2)),
        })),
    });
    let program = compile(vec![function(
        "f",
        vec![],
        Some(i32_type()),
        vec![return_stmt(sum)],
    )])
    .unwrap();
    let block = program.blocks.get(BlockId(0)).unwrap();
    let instructions = block.instructions();
    assert_eq!(instructions.len(), 4);
    assert!(matches!(instructions[0], Instruction::IConst { .. }));
    assert!(matches!(instructions[1], Instruction::IConst { .. }));
    assert!(matches!(instructions[2], Instruction::Add { .. }));
    assert!(matches!(instructions[3], Instruction::Return { .. }));
}

#[test]
fn integer_literal_keeps_its_low_four_bytes() {
    let program = compile(vec![function(
        "f",
        vec![],
        None,
        vec![let_stmt("x", Some(i32_type()), Some(int_lit(0x1_0000_0005)))],
    )])
    .unwrap();
    let block = program.blocks.get(BlockId(0)).unwrap();
    match &block.instructions()[0] {
        Instruction::IConst { imm, ty, .. } => {
            assert_eq!(imm.to_u64(), 5);
            assert_eq!(*ty, MemoryType::I32);
        },
        other => panic!("expected a constant, found {:?}", other),
    }
}
