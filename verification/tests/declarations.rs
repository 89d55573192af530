use fernc::ast::block::Block;
use fernc::ast::declaration::{Declaration, FunctionArgument, FunctionDeclaration, ReturnType};
use fernc::ast::expression::{Expression, LiteralExpression, ReturnExpression};
use fernc::ast::program::Program;
use fernc::ast::punctuated::Punctuated;
use fernc::ast::statement::{ExpressionStatement, Statement};
use fernc::ast::token::{Comma, Ident, Integer, IntegerKind, IntegerLiteral};
use fernc::ast::ty::{IntegerType, Type, TypeDeclaration};
use fernc::compiler::declarations::Declarations;
use fernc::id::{FunctionId, ModuleId};
use fernc::span::Span;

fn ident(name: &str) -> Ident {
    Ident::new(name.to_string(), Span::null())
}

fn empty_function(name: &str) -> Declaration {
    Declaration::Function(FunctionDeclaration {
        ident: ident(name),
        args: Punctuated::new(),
        return_type: None,
        block: Block { statements: vec![] },
    })
}

#[test]
fn declarations_are_collected_in_order_with_dense_ids() {
    let program = Program {
        declarations: vec![empty_function("a"), empty_function("b"), empty_function("c")],
    };
    let declarations = Declarations::from_program(program).unwrap();
    assert_eq!(declarations.base_module, ModuleId(0));
    assert_eq!(declarations.modules.len(), 1);
    assert_eq!(declarations.functions.len(), 3);
    assert_eq!(declarations.functions[1].ast.ident.string().as_str(), "b");
    assert_eq!(declarations.functions[1].module, ModuleId(0));
    let bindings = &declarations.modules[0].functions;
    assert_eq!(bindings.len(), 3);
    assert_eq!(bindings[2].0.string().as_str(), "c");
    assert_eq!(bindings[2].1, FunctionId(2));
}

#[test]
fn redeclaring_a_name_supersedes_the_earlier_binding() {
    // the first `f` takes an argument, the second takes none; a call with
    // no arguments resolves to the second binding and succeeds
    let first = Declaration::Function(FunctionDeclaration {
        ident: ident("f"),
        args: {
            let mut args = Punctuated::new();
            args.push(
                FunctionArgument {
                    ident: ident("x"),
                    ty: TypeDeclaration { ty: Type::Integer(IntegerType::I32) },
                },
                Comma,
            );
            args
        },
        return_type: Some(ReturnType { ty: Type::Integer(IntegerType::I32) }),
        block: Block {
            statements: vec![Statement::Expression(ExpressionStatement {
                expression: Expression::Return(ReturnExpression {
                    expression: Box::new(Expression::Path({
                        let mut path = fernc::ast::path::Path::empty();
                        path.push_ident(ident("x"));
                        path
                    })),
                }),
            })],
        },
    });
    let second = empty_function("f");
    let caller = Declaration::Function(FunctionDeclaration {
        ident: ident("g"),
        args: Punctuated::new(),
        return_type: None,
        block: Block {
            statements: vec![Statement::Expression(ExpressionStatement {
                expression: Expression::Call(fernc::ast::expression::CallExpression {
                    function: Box::new(Expression::Path({
                        let mut path = fernc::ast::path::Path::empty();
                        path.push_ident(ident("f"));
                        path
                    })),
                    arguments: Punctuated::new(),
                }),
            })],
        },
    });
    let program = Program { declarations: vec![first, second, caller] };
    assert!(fernc::compiler::compile_program(program).is_ok());
}

#[test]
fn every_declaration_is_lowered_even_when_shadowed() {
    let program = Program { declarations: vec![empty_function("f"), empty_function("f")] };
    let compiled = fernc::compiler::compile_program(program).unwrap();
    assert_eq!(compiled.functions.len(), 2);
    assert!(compiled.functions.get(FunctionId(0)).is_some());
    assert!(compiled.functions.get(FunctionId(1)).is_some());
}

#[test]
fn literal_helpers_round_trip() {
    let literal = IntegerLiteral::new(Integer::new(42, IntegerKind::Hex), Span::null());
    assert_eq!(literal.integer().value(), 42);
    assert_eq!(literal.integer().kind(), IntegerKind::Hex);
}
