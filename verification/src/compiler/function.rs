use vstd::prelude::*;

use crate::ast;
use crate::ast::expression::LiteralExpression;
use crate::ast::token::Ident;
use crate::compiler::declarations::{lookup_function_name, lookup_name, resolve_modules, walk_start, Declarations};
use crate::compiler::functions::{lemma_resolved_table_wf, lemma_tables_wf_intern, lemma_type_valid_grow, tables_wf, FunctionSignature, FunctionSignatures, Functions};
use crate::compiler::ty::{type_valid, types_distinct, Type, Types};
use crate::compiler::value::{Value, ValueKind};
use crate::error::{Error, ErrorKind};
use crate::id::{BlockId, FunctionId, ModuleId};
use crate::ir::block::{Block, Blocks};
use crate::ir::instruction::{
    emit_alloc, emit_push, emit_release, emit_state, instructions_view, EmitState, Instruction,
    InstructionBuilder, InstructionView,
};
use crate::ir::memory::{Immediate, MemoryType};
use crate::ir::register::Register;
use crate::ir::stack::{Stack, StackAllocation, StackSlot};

verus! {

broadcast use crate::ast::punctuated::lemma_punctuated_decreases_to_items;

/// What a statement told the statement loop: go on, or stop because a
/// return was lowered. Early return is an ordinary outcome, kept apart from
/// the failure path.
pub enum ControlFlow {
    Continue,
    Return,
}

/// What lowering an expression produced: a value, or the news that the
/// expression returned from the function and no value exists.
pub enum Lowered {
    Value(Value),
    Return,
}

/// A local variable binding: its name, semantic type, and backing stack
/// slot. Bindings are never removed; scoping is function-flat.
pub struct FunctionVariable {
    pub ident: Ident,
    pub ty: Type,
    pub stack_slot: StackSlot,
}

/// A binding with its name laid open for specifications.
#[verifier::ext_equal]
pub struct VariableView {
    pub name: Seq<char>,
    pub ty: Type,
    pub stack_slot: StackSlot,
}

/// What a binding says: its name, type and slot.
pub open spec fn variable_view(v: FunctionVariable) -> VariableView {
    VariableView { name: v.ident@, ty: v.ty, stack_slot: v.stack_slot }
}

/// A whole binding list, name by name.
pub open spec fn variables_view(s: Seq<FunctionVariable>) -> Seq<VariableView> {
    s.map_values(|v: FunctionVariable| variable_view(v))
}

/// Appending a binding appends its view.
pub proof fn lemma_variables_view_push(s: Seq<FunctionVariable>, v: FunctionVariable)
    ensures
        variables_view(s.push(v)) == variables_view(s).push(variable_view(v)),
{
    assert(variables_view(s.push(v)) =~= variables_view(s).push(variable_view(v)));
}

/// Finds the binding a bare name refers to: the *most recently declared*
/// binding with that name, so that re-declaring a name shadows the earlier
/// binding.
pub open spec fn lookup_variable(s: Seq<VariableView>, name: Seq<char>) -> Option<VariableView>
    decreases s.len(),
{
    if s.len() == 0 {
        None
    } else if s.last().name == name {
        Some(s.last())
    } else {
        lookup_variable(s.drop_last(), name)
    }
}


/// Releasing a spent value: a register-backed value returns its register
/// to the free list; stack- and function-backed values release nothing.
pub open spec fn released(s: EmitState, value: Value) -> EmitState {
    match value.kind {
        ValueKind::Register(register) => emit_release(s, register),
        _ => s,
    }
}

/// What materializing a value emits and hands back: a register value is
/// itself, a stack-backed value is loaded with the width of its type (a
/// void one as a zero address), a named function becomes its address, and
/// a struct value cannot be materialized.
pub open spec fn lowered_value(s: EmitState, value: Value) -> (EmitState, Result<
    Register,
    ErrorKind,
>) {
    match value.kind {
        ValueKind::Register(register) => (s, Ok(register)),
        ValueKind::Stack(slot) => match value.ty {
            Type::Void => {
                let (s1, dst) = emit_alloc(s);
                (
                    emit_push(
                        s1,
                        InstructionView::IConst {
                            dst,
                            imm: Immediate { bits: 0 },
                            ty: MemoryType::Usize,
                        },
                    ),
                    Ok(dst),
                )
            },
            Type::Memory(ty) => {
                let (s1, dst) = emit_alloc(s);
                (emit_push(s1, InstructionView::StackLoad { dst, slot, ty, offset: 0 }), Ok(dst))
            },
            Type::Struct(_) => (s, Err(ErrorKind::UnsupportedConstruct)),
            Type::Reference(_) | Type::Function(_) => {
                let (s1, dst) = emit_alloc(s);
                (
                    emit_push(
                        s1,
                        InstructionView::StackLoad {
                            dst,
                            slot,
                            ty: MemoryType::Usize,
                            offset: 0,
                        },
                    ),
                    Ok(dst),
                )
            },
        },
        ValueKind::Function(function) => {
            let (s1, dst) = emit_alloc(s);
            (
                emit_push(s1, InstructionView::FuncAddr { dst, function, ty: MemoryType::Usize }),
                Ok(dst),
            )
        },
    }
}

/// What storing a value into a stack slot emits: the materialization of
/// the value, then one store of the value's width; a void value stores
/// nothing.
pub open spec fn lowered_stack_store(s: EmitState, slot: StackSlot, value: Value) -> (
    EmitState,
    Result<(), ErrorKind>,
) {
    let (s1, materialized) = lowered_value(s, value);
    match materialized {
        Ok(register) => match value.ty {
            Type::Void => (s1, Ok(())),
            Type::Memory(ty) => (
                emit_push(s1, InstructionView::StackStore { src: register, slot, ty, offset: 0 }),
                Ok(()),
            ),
            Type::Struct(_) => (s1, Err(ErrorKind::UnsupportedConstruct)),
            Type::Reference(_) | Type::Function(_) => (
                emit_push(
                    s1,
                    InstructionView::StackStore {
                        src: register,
                        slot,
                        ty: MemoryType::Usize,
                        offset: 0,
                    },
                ),
                Ok(()),
            ),
        },
        Err(k) => (s1, Err(k)),
    }
}

/// What storing a value through an address emits, like `lowered_stack_store`
/// but through the register `dst`.
pub open spec fn lowered_store(s: EmitState, dst: Register, value: Value) -> (
    EmitState,
    Result<(), ErrorKind>,
) {
    let (s1, materialized) = lowered_value(s, value);
    match materialized {
        Ok(register) => match value.ty {
            Type::Void => (s1, Ok(())),
            Type::Memory(ty) => (
                emit_push(s1, InstructionView::Store { dst, src: register, ty, offset: 0 }),
                Ok(()),
            ),
            Type::Struct(_) => (s1, Err(ErrorKind::UnsupportedConstruct)),
            Type::Reference(_) | Type::Function(_) => (
                emit_push(
                    s1,
                    InstructionView::Store {
                        dst,
                        src: register,
                        ty: MemoryType::Usize,
                        offset: 0,
                    },
                ),
                Ok(()),
            ),
        },
        Err(k) => (s1, Err(k)),
    }
}

/// What lowering a literal emits: one 32-bit signed constant holding the
/// written value's low four bytes; string literals are unsupported.
pub open spec fn lowered_literal(s: EmitState, literal: LiteralExpression) -> (EmitState, Result<
    Value,
    ErrorKind,
>) {
    match literal {
        LiteralExpression::String(_) => (s, Err(ErrorKind::UnsupportedConstruct)),
        LiteralExpression::Integer(lit) => {
            let (s1, dst) = emit_alloc(s);
            (
                emit_push(
                    s1,
                    InstructionView::IConst {
                        dst,
                        imm: Immediate { bits: literal_bits(lit.spec_integer().value) },
                        ty: MemoryType::I32,
                    },
                ),
                Ok(Value { ty: Type::Memory(MemoryType::I32), kind: ValueKind::Register(dst) }),
            )
        },
    }
}

/// An upper bound on how many registers lowering an expression allocates.
pub open spec fn expr_allocs(e: ast::Expression) -> nat
    decreases e, 0int,
{
    match e {
        ast::Expression::Paren(paren) => expr_allocs(*paren.expression),
        ast::Expression::Literal(_) => 1,
        ast::Expression::Path(_) => 0,
        ast::Expression::Call(call) => expr_allocs(*call.function) + exprs_allocs(
            call.arguments.spec_items(),
            0,
        ) + 1,
        ast::Expression::Unary(unary) => expr_allocs(*unary.expression) + 1,
        ast::Expression::Binary(binary) => expr_allocs(*binary.lhs) + expr_allocs(*binary.rhs) + 3,
        ast::Expression::Return(ret) => expr_allocs(*ret.expression) + 1,
    }
}

/// An upper bound on how many registers lowering the arguments
/// `args[i ..]` of a call allocates, one materialization each included.
pub open spec fn exprs_allocs(args: Seq<ast::Expression>, i: int) -> nat
    decreases args, args.len() - i,
{
    if i < 0 || i >= args.len() {
        0
    } else {
        expr_allocs(args[i]) + 1 + exprs_allocs(args, i + 1)
    }
}

/// An upper bound on how many registers lowering a statement allocates.
pub open spec fn stmt_allocs(s: ast::Statement) -> nat {
    match s {
        ast::Statement::Noop => 0,
        ast::Statement::Expression(e) => expr_allocs(e.expression),
        ast::Statement::Let(l) => match l.value {
            Some(v) => expr_allocs(v.expression) + 1,
            None => 0,
        },
    }
}

/// An upper bound on how many registers lowering the statements
/// `stmts[i ..]` allocates.
pub open spec fn stmts_allocs(stmts: Seq<ast::Statement>, i: int) -> nat
    decreases stmts.len() - i,
{
    if i < 0 || i >= stmts.len() {
        0
    } else {
        stmt_allocs(stmts[i]) + stmts_allocs(stmts, i + 1)
    }
}


/// The whole lowering state of one function, as one specification-level
/// value: the shared type table, the builder's accumulated state, the
/// stack-slot table, the binding list, and the fixed module and return
/// type of the function being lowered.
#[verifier::ext_equal]
pub struct LowerState {
    pub types: Seq<Type>,
    pub emit: EmitState,
    pub stack: Seq<StackAllocation>,
    pub variables: Seq<VariableView>,
    pub module: ModuleId,
    pub return_type: Type,
}

/// The lowering state a context and type table stand for.
pub open spec fn lower_state(ctx: FunctionContext, types: Types) -> LowerState {
    LowerState {
        types: types.spec_types(),
        emit: emit_state(ctx.builder),
        stack: ctx.stack.spec_slots(),
        variables: variables_view(ctx.variables@),
        module: ctx.module,
        return_type: ctx.return_type,
    }
}

/// The same state with another builder state.
pub open spec fn with_emit(s: LowerState, emit: EmitState) -> LowerState {
    LowerState { emit, ..s }
}

/// What a path resolves to in a lowering state: the most recent binding of
/// a bare name, else the function of that name in the canonicalized
/// module; exactly the failures of the path resolver and the registry
/// otherwise.
pub open spec fn lowered_path(
    fc: FunctionCompiler,
    variables: Seq<VariableView>,
    module: ModuleId,
    path: ast::Path,
) -> Result<Value, ErrorKind> {
    match path_variable(path, variables) {
        Some(var) => Ok(Value { ty: var.ty, kind: ValueKind::Stack(var.stack_slot) }),
        None => match resolve_modules(
            fc.declarations.modules@,
            walk_start(fc.declarations, module, path),
            path.spec_module_segments(),
        ) {
            Ok(m) => if path.spec_segments().len() > 0 {
                match path.spec_segments().last() {
                    ast::PathSegment::Ident(name) => match lookup_name(
                        fc.declarations.modules@[m.0 as int].functions@,
                        name@,
                    ) {
                        Some(fid) => Ok(
                            Value {
                                ty: Type::Function(
                                    fc.functions.functions@[fid.0 as int].signature,
                                ),
                                kind: ValueKind::Function(fid),
                            },
                        ),
                        None => Err(ErrorKind::UndefinedPath),
                    },
                    ast::PathSegment::Super => Err(ErrorKind::UndefinedPath),
                }
            } else {
                Err(ErrorKind::UndefinedPath)
            },
            Err(_) => Err(ErrorKind::InvalidPath),
        },
    }
}

/// What lowering an expression does to the state and produces, stated as a
/// function: the semantics the expression compilers are held to.
pub open spec fn lowered_expr(
    fc: FunctionCompiler,
    sigs: FunctionSignatures,
    s: LowerState,
    e: ast::Expression,
) -> (LowerState, Result<Lowered, ErrorKind>)
    decreases e, 0int,
{
    match e {
        ast::Expression::Paren(paren) => lowered_expr(fc, sigs, s, *paren.expression),
        ast::Expression::Literal(literal) => {
            let (e1, r) = lowered_literal(s.emit, literal);
            (
                with_emit(s, e1),
                match r {
                    Ok(v) => Ok(Lowered::Value(v)),
                    Err(k) => Err(k),
                },
            )
        },
        ast::Expression::Path(path) => (
            s,
            match lowered_path(fc, s.variables, s.module, path) {
                Ok(v) => Ok(Lowered::Value(v)),
                Err(k) => Err(k),
            },
        ),
        ast::Expression::Call(call) => lowered_call(fc, sigs, s, call),
        ast::Expression::Unary(unary) => lowered_unary(fc, sigs, s, unary),
        ast::Expression::Binary(binary) => lowered_binary(fc, sigs, s, binary),
        ast::Expression::Return(ret) => lowered_return(fc, sigs, s, ret),
    }
}

/// What lowering a call does: the callee must be function-typed, the
/// arguments lower and materialize left to right, their collected type ids
/// must equal the signature's argument list exactly, and one call
/// instruction carries the argument registers in order; the result is
/// typed by the signature's return type.
pub open spec fn lowered_call(
    fc: FunctionCompiler,
    sigs: FunctionSignatures,
    s: LowerState,
    call: ast::CallExpression,
) -> (LowerState, Result<Lowered, ErrorKind>)
    decreases call,
{
    let (s1, callee) = lowered_expr(fc, sigs, s, *call.function);
    match callee {
        Ok(Lowered::Value(function)) => match function.ty {
            Type::Function(signature_id) => {
                let (s2, args) = lowered_arguments(fc, sigs, s1, call.arguments.spec_items(), 0);
                match args {
                    LoweredArguments::Lowered(registers, found) => {
                        let signature = sigs.spec_signatures()[signature_id.0 as int];
                        let return_type = s2.types[signature.return_type.0 as int];
                        if found != signature.arguments@ {
                            (s2, Err(ErrorKind::ArgumentMismatch))
                        } else {
                            match function.kind {
                                ValueKind::Function(function_id) => {
                                    let (e1, dst) = emit_alloc(s2.emit);
                                    (
                                        with_emit(
                                            s2,
                                            emit_push(
                                                e1,
                                                InstructionView::Call {
                                                    dst,
                                                    function: function_id,
                                                    arguments: registers,
                                                },
                                            ),
                                        ),
                                        Ok(
                                            Lowered::Value(
                                                Value {
                                                    ty: return_type,
                                                    kind: ValueKind::Register(dst),
                                                },
                                            ),
                                        ),
                                    )
                                },
                                _ => (s2, Err(ErrorKind::UnsupportedConstruct)),
                            }
                        }
                    },
                    LoweredArguments::Return => (s2, Ok(Lowered::Return)),
                    LoweredArguments::Failed(k) => (s2, Err(k)),
                }
            },
            _ => (s1, Err(ErrorKind::NotCallable)),
        },
        Ok(Lowered::Return) => (s1, Ok(Lowered::Return)),
        Err(k) => (s1, Err(k)),
    }
}

/// What lowering the argument list `args[i ..]` of a call does: each
/// argument lowers, materializes into a register, and has its type
/// interned; the registers and type ids are collected in order.
pub enum LoweredArguments {
    Lowered(Seq<Register>, Seq<crate::id::TypeId>),
    Return,
    Failed(ErrorKind),
}

pub open spec fn lowered_arguments(
    fc: FunctionCompiler,
    sigs: FunctionSignatures,
    s: LowerState,
    args: Seq<ast::Expression>,
    i: int,
) -> (LowerState, LoweredArguments)
    decreases args, args.len() - i,
{
    if i < 0 || i >= args.len() {
        (s, LoweredArguments::Lowered(Seq::empty(), Seq::empty()))
    } else {
        let (s1, first) = lowered_expr(fc, sigs, s, args[i]);
        match first {
            Ok(Lowered::Value(value)) => {
                let (e1, materialized) = lowered_value(s1.emit, value);
                match materialized {
                    Ok(register) => {
                        let found = crate::id::TypeId(
                            crate::compiler::ty::interned_type_id(s1.types, value.ty) as usize,
                        );
                        let s2 = LowerState {
                            types: crate::compiler::ty::interned_types(s1.types, value.ty),
                            emit: e1,
                            ..s1
                        };
                        let (s3, rest) = lowered_arguments(fc, sigs, s2, args, i + 1);
                        match rest {
                            LoweredArguments::Lowered(registers, found_types) => (
                                s3,
                                LoweredArguments::Lowered(
                                    seq![register] + registers,
                                    seq![found] + found_types,
                                ),
                            ),
                            LoweredArguments::Return => (s3, LoweredArguments::Return),
                            LoweredArguments::Failed(k) => (s3, LoweredArguments::Failed(k)),
                        }
                    },
                    Err(k) => (with_emit(s1, e1), LoweredArguments::Failed(k)),
                }
            },
            Ok(Lowered::Return) => (s1, LoweredArguments::Return),
            Err(k) => (s1, LoweredArguments::Failed(k)),
        }
    }
}

/// The result of lowering a suffix of the argument list, with the
/// registers and type ids already collected for the prefix put back in
/// front.
pub open spec fn collected_arguments(
    r: (LowerState, LoweredArguments),
    registers: Seq<Register>,
    types_found: Seq<crate::id::TypeId>,
) -> (LowerState, LoweredArguments) {
    match r.1 {
        LoweredArguments::Lowered(more_registers, more_types) => (
            r.0,
            LoweredArguments::Lowered(registers + more_registers, types_found + more_types),
        ),
        _ => r,
    }
}

/// What lowering a prefix operation does. A reference requires a
/// stack-backed operand and emits its address; a dereference requires a
/// reference-typed operand and loads with the referent's width; negation
/// is unsupported.
pub open spec fn lowered_unary(
    fc: FunctionCompiler,
    sigs: FunctionSignatures,
    s: LowerState,
    unary: ast::UnaryExpression,
) -> (LowerState, Result<Lowered, ErrorKind>)
    decreases unary,
{
    let (s1, operand) = lowered_expr(fc, sigs, s, *unary.expression);
    match operand {
        Ok(Lowered::Value(value)) => match unary.operator {
            ast::UnaryOperator::Reference => match value.kind {
                ValueKind::Stack(slot) => {
                    let ty = crate::id::TypeId(
                        crate::compiler::ty::interned_type_id(s1.types, value.ty) as usize,
                    );
                    let s2 = LowerState {
                        types: crate::compiler::ty::interned_types(s1.types, value.ty),
                        ..s1
                    };
                    let (e1, dst) = emit_alloc(s2.emit);
                    let e2 = emit_push(
                        e1,
                        InstructionView::StackAddr { dst, slot, ty: MemoryType::Usize },
                    );
                    (
                        with_emit(s2, released(e2, value)),
                        Ok(
                            Lowered::Value(
                                Value { ty: Type::Reference(ty), kind: ValueKind::Register(dst) },
                            ),
                        ),
                    )
                },
                _ => (s1, Err(ErrorKind::InvalidReference)),
            },
            ast::UnaryOperator::Dereference => match value.ty {
                Type::Reference(inner) => {
                    let ty = s1.types[inner.0 as int];
                    match value.kind {
                        ValueKind::Register(register) => match ty {
                            Type::Void => {
                                let (e1, fresh) = emit_alloc(s1.emit);
                                (
                                    with_emit(s1, released(e1, value)),
                                    Ok(
                                        Lowered::Value(
                                            Value { ty, kind: ValueKind::Register(fresh) },
                                        ),
                                    ),
                                )
                            },
                            Type::Memory(mt) => {
                                let (e1, dst) = emit_alloc(s1.emit);
                                let e2 = emit_push(
                                    e1,
                                    InstructionView::Load { dst, src: register, ty: mt, offset: 0 },
                                );
                                (
                                    with_emit(s1, released(e2, value)),
                                    Ok(
                                        Lowered::Value(Value { ty, kind: ValueKind::Register(dst) }),
                                    ),
                                )
                            },
                            Type::Struct(_) => (
                                s1,
                                Ok(Lowered::Value(Value { ty, kind: ValueKind::Register(register) })),
                            ),
                            Type::Reference(_) | Type::Function(_) => {
                                let (e1, dst) = emit_alloc(s1.emit);
                                let e2 = emit_push(
                                    e1,
                                    InstructionView::Load {
                                        dst,
                                        src: register,
                                        ty: MemoryType::Usize,
                                        offset: 0,
                                    },
                                );
                                (
                                    with_emit(s1, released(e2, value)),
                                    Ok(
                                        Lowered::Value(Value { ty, kind: ValueKind::Register(dst) }),
                                    ),
                                )
                            },
                        },
                        ValueKind::Stack(stack_slot) => {
                            let (e1, kind) = match ty {
                                Type::Void => {
                                    let (ea, fresh) = emit_alloc(s1.emit);
                                    (ea, ValueKind::Register(fresh))
                                },
                                Type::Memory(mt) => {
                                    let (ea, dst) = emit_alloc(s1.emit);
                                    (
                                        emit_push(
                                            ea,
                                            InstructionView::StackLoad {
                                                dst,
                                                slot: stack_slot,
                                                ty: mt,
                                                offset: 0,
                                            },
                                        ),
                                        ValueKind::Register(dst),
                                    )
                                },
                                Type::Struct(_) => (s1.emit, ValueKind::Stack(stack_slot)),
                                Type::Reference(_) | Type::Function(_) => {
                                    let (ea, dst) = emit_alloc(s1.emit);
                                    (
                                        emit_push(
                                            ea,
                                            InstructionView::StackLoad {
                                                dst,
                                                slot: stack_slot,
                                                ty: MemoryType::Usize,
                                                offset: 0,
                                            },
                                        ),
                                        ValueKind::Register(dst),
                                    )
                                },
                            };
                            (
                                with_emit(s1, released(e1, value)),
                                Ok(Lowered::Value(Value { ty, kind })),
                            )
                        },
                        ValueKind::Function(_) => (s1, Err(ErrorKind::UnsupportedConstruct)),
                    }
                },
                _ => (s1, Err(ErrorKind::InvalidDereference)),
            },
            ast::UnaryOperator::Negate => (s1, Err(ErrorKind::UnsupportedConstruct)),
        },
        Ok(Lowered::Return) => (s1, Ok(Lowered::Return)),
        Err(k) => (s1, Err(k)),
    }
}

/// What lowering an infix operation does: only addition of two operands of
/// one integer type is implemented; both operands are materialized, one
/// add instruction combines them, and both operand registers are freed.
pub open spec fn lowered_binary(
    fc: FunctionCompiler,
    sigs: FunctionSignatures,
    s: LowerState,
    binary: ast::BinaryExpression,
) -> (LowerState, Result<Lowered, ErrorKind>)
    decreases binary,
{
    let (s1, left) = lowered_expr(fc, sigs, s, *binary.lhs);
    match left {
        Ok(Lowered::Value(lhs)) => {
            let (s2, right) = lowered_expr(fc, sigs, s1, *binary.rhs);
            match right {
                Ok(Lowered::Value(rhs)) => {
                    let (e1, lm) = lowered_value(s2.emit, lhs);
                    match lm {
                        Ok(lhs_register) => {
                            let (e2, rm) = lowered_value(e1, rhs);
                            match rm {
                                Ok(rhs_register) => match binary.operator {
                                    ast::BinaryOperator::Add => if lhs.ty == rhs.ty
                                        && lhs.ty.spec_is_integer() {
                                        let (e3, dst) = emit_alloc(e2);
                                        let e4 = emit_push(
                                            e3,
                                            InstructionView::Add {
                                                dst,
                                                lhs: lhs_register,
                                                rhs: rhs_register,
                                            },
                                        );
                                        (
                                            with_emit(s2, released(released(e4, lhs), rhs)),
                                            Ok(
                                                Lowered::Value(
                                                    Value {
                                                        ty: lhs.ty,
                                                        kind: ValueKind::Register(dst),
                                                    },
                                                ),
                                            ),
                                        )
                                    } else {
                                        (with_emit(s2, e2), Err(ErrorKind::TypeMismatch))
                                    },
                                    _ => (with_emit(s2, e2), Err(ErrorKind::UnsupportedConstruct)),
                                },
                                Err(k) => (with_emit(s2, e2), Err(k)),
                            }
                        },
                        Err(k) => (with_emit(s2, e1), Err(k)),
                    }
                },
                Ok(Lowered::Return) => (s2, Ok(Lowered::Return)),
                Err(k) => (s2, Err(k)),
            }
        },
        Ok(Lowered::Return) => (s1, Ok(Lowered::Return)),
        Err(k) => (s1, Err(k)),
    }
}

/// What lowering a `return` expression does: the value must have exactly
/// the function's return type, is materialized, and one return
/// instruction carries its register; lowering then stops.
pub open spec fn lowered_return(
    fc: FunctionCompiler,
    sigs: FunctionSignatures,
    s: LowerState,
    ret: ast::ReturnExpression,
) -> (LowerState, Result<Lowered, ErrorKind>)
    decreases ret,
{
    let (s1, inner) = lowered_expr(fc, sigs, s, *ret.expression);
    match inner {
        Ok(Lowered::Value(value)) => {
            let (e1, materialized) = lowered_value(s1.emit, value);
            match materialized {
                Ok(register) => if value.ty != s1.return_type {
                    (with_emit(s1, e1), Err(ErrorKind::TypeMismatch))
                } else {
                    (
                        with_emit(s1, emit_push(e1, InstructionView::Return { src: register })),
                        Ok(Lowered::Return),
                    )
                },
                Err(k) => (with_emit(s1, e1), Err(k)),
            }
        },
        Ok(Lowered::Return) => (s1, Ok(Lowered::Return)),
        Err(k) => (s1, Err(k)),
    }
}


/// The first phase of lowering a `let`: the initializer (if any) is
/// lowered and checked against the annotation (if any), or the annotation
/// alone is resolved; what remains is the staged value and the binding's
/// type, or an early return, or a failure.
pub enum LetStaging {
    Staged(LowerState, Option<Value>, Type),
    Returned(LowerState),
    Failed(LowerState, ErrorKind),
}

pub open spec fn lowered_let_staging(
    fc: FunctionCompiler,
    sigs: FunctionSignatures,
    s: LowerState,
    l: ast::LetStatement,
) -> LetStaging {
    match l.value {
        Some(initializer) => {
            let (s1, first) = lowered_expr(fc, sigs, s, initializer.expression);
            match first {
                Ok(Lowered::Value(value)) => match l.ty {
                    Some(annotation) => {
                        let s2 = LowerState {
                            types: crate::compiler::declarations::resolved_types_table(
                                s1.types,
                                annotation.ty,
                            ),
                            ..s1
                        };
                        match crate::compiler::declarations::resolved_type(
                            s1.types,
                            annotation.ty,
                        ) {
                            Ok(annotated) => if value.ty != annotated {
                                LetStaging::Failed(s2, ErrorKind::TypeMismatch)
                            } else {
                                LetStaging::Staged(s2, Some(value), value.ty)
                            },
                            Err(k) => LetStaging::Failed(s2, k),
                        }
                    },
                    None => LetStaging::Staged(s1, Some(value), value.ty),
                },
                Ok(Lowered::Return) => LetStaging::Returned(s1),
                Err(k) => LetStaging::Failed(s1, k),
            }
        },
        None => match l.ty {
            Some(annotation) => {
                let s1 = LowerState {
                    types: crate::compiler::declarations::resolved_types_table(
                        s.types,
                        annotation.ty,
                    ),
                    ..s
                };
                match crate::compiler::declarations::resolved_type(s.types, annotation.ty) {
                    Ok(ty) => LetStaging::Staged(s1, None, ty),
                    Err(k) => LetStaging::Failed(s1, k),
                }
            },
            None => LetStaging::Failed(s, ErrorKind::TypeMismatch),
        },
    }
}

/// What lowering a `let` statement does: after the staging phase, the
/// binding's type is interned, one fresh stack slot backs the binding, the
/// binding is appended to the function-flat list, and a staged value is
/// stored into the slot and released.
pub open spec fn lowered_let(
    fc: FunctionCompiler,
    sigs: FunctionSignatures,
    s: LowerState,
    l: ast::LetStatement,
) -> (LowerState, Result<ControlFlow, ErrorKind>) {
    match lowered_let_staging(fc, sigs, s, l) {
        LetStaging::Returned(s1) => (s1, Ok(ControlFlow::Return)),
        LetStaging::Failed(s1, k) => (s1, Err(k)),
        LetStaging::Staged(s1, staged, ty) => {
            let tid = crate::id::TypeId(
                crate::compiler::ty::interned_type_id(s1.types, ty) as usize,
            );
            let s2 = LowerState {
                types: crate::compiler::ty::interned_types(s1.types, ty),
                ..s1
            };
            let slot = StackSlot(s2.stack.len() as usize);
            let s3 = LowerState {
                stack: s2.stack.push(StackAllocation { ty: tid }),
                variables: s2.variables.push(
                    VariableView { name: l.ident@, ty, stack_slot: slot },
                ),
                ..s2
            };
            match staged {
                Some(value) => {
                    let (e1, stored) = lowered_stack_store(s3.emit, slot, value);
                    match stored {
                        Ok(_) => (with_emit(s3, released(e1, value)), Ok(ControlFlow::Continue)),
                        Err(k) => (with_emit(s3, e1), Err(k)),
                    }
                },
                None => (s3, Ok(ControlFlow::Continue)),
            }
        },
    }
}

/// What lowering one statement does: a bare semicolon is inert, an
/// expression statement releases its value, and a `let` declares a
/// binding; a lowered return stops the statement loop.
pub open spec fn lowered_statement(
    fc: FunctionCompiler,
    sigs: FunctionSignatures,
    s: LowerState,
    st: ast::Statement,
) -> (LowerState, Result<ControlFlow, ErrorKind>) {
    match st {
        ast::Statement::Noop => (s, Ok(ControlFlow::Continue)),
        ast::Statement::Expression(es) => {
            let (s1, r) = lowered_expr(fc, sigs, s, es.expression);
            match r {
                Ok(Lowered::Value(value)) => (
                    with_emit(s1, released(s1.emit, value)),
                    Ok(ControlFlow::Continue),
                ),
                Ok(Lowered::Return) => (s1, Ok(ControlFlow::Return)),
                Err(k) => (s1, Err(k)),
            }
        },
        ast::Statement::Let(l) => lowered_let(fc, sigs, s, l),
    }
}

/// What lowering the statements `stmts[i ..]` does, stopping at the first
/// lowered return: the final state and whether a return was lowered.
pub open spec fn lowered_statements(
    fc: FunctionCompiler,
    sigs: FunctionSignatures,
    s: LowerState,
    stmts: Seq<ast::Statement>,
    i: int,
) -> (LowerState, Result<bool, ErrorKind>)
    decreases stmts.len() - i,
{
    if i < 0 || i >= stmts.len() {
        (s, Ok(false))
    } else {
        let (s1, r) = lowered_statement(fc, sigs, s, stmts[i]);
        match r {
            Ok(ControlFlow::Continue) => lowered_statements(fc, sigs, s1, stmts, i + 1),
            Ok(ControlFlow::Return) => (s1, Ok(true)),
            Err(k) => (s1, Err(k)),
        }
    }
}


/// Binding the arguments `args[i ..]` of a function, in declaration
/// order: each receives the next stack slot, tagged with its interned
/// type, and a binding under its name.
pub open spec fn bound_arguments(
    s: LowerState,
    args: Seq<crate::compiler::functions::FunctionArgument>,
    i: int,
) -> LowerState
    decreases args.len() - i,
{
    if i < 0 || i >= args.len() {
        s
    } else {
        let ty = s.types[args[i].ty.0 as int];
        let slot = StackSlot(s.stack.len() as usize);
        bound_arguments(
            LowerState {
                stack: s.stack.push(StackAllocation { ty: args[i].ty }),
                variables: s.variables.push(
                    VariableView { name: args[i].ident@, ty, stack_slot: slot },
                ),
                ..s
            },
            args,
            i + 1,
        )
    }
}

/// What lowering one whole function does: from a fresh per-function state
/// with its arguments bound, the body's statements run in order until the
/// first lowered return; a function whose return type is not void and
/// whose body never lowered a return fails with `MissingReturn`.
pub open spec fn lowered_function(
    fc: FunctionCompiler,
    sigs: FunctionSignatures,
    types: Seq<Type>,
    id: int,
) -> (LowerState, Result<(), ErrorKind>) {
    let fnrec = fc.functions.functions@[id];
    let decl = fc.declarations.functions@[id];
    let s0 = LowerState {
        types,
        emit: EmitState {
            free: Seq::empty(),
            count: 0,
            emitted: Seq::empty(),
        },
        stack: Seq::empty(),
        variables: Seq::empty(),
        module: decl.module,
        return_type: types[fnrec.return_type.0 as int],
    };
    let s1 = bound_arguments(s0, fnrec.arguments@, 0);
    let (sf, body) = lowered_statements(fc, sigs, s1, decl.ast.block.statements@, 0);
    match body {
        Ok(returned) => if !returned && s0.return_type != Type::Void {
            (sf, Err(ErrorKind::MissingReturn))
        } else {
            (sf, Ok(()))
        },
        Err(k) => (sf, Err(k)),
    }
}


/// What lowering every collected function does, in id order, stopping at
/// the first failure: the final type table, or the first error.
pub open spec fn lowered_functions(
    fc: FunctionCompiler,
    sigs: FunctionSignatures,
    types: Seq<Type>,
    i: int,
) -> (Seq<Type>, Result<(), ErrorKind>)
    decreases fc.declarations.functions@.len() - i,
{
    if i < 0 || i >= fc.declarations.functions@.len() {
        (types, Ok(()))
    } else {
        let (sf, outcome) = lowered_function(fc, sigs, types, i);
        match outcome {
            Ok(_) => lowered_functions(fc, sigs, sf.types, i + 1),
            Err(k) => (sf.types, Err(k)),
        }
    }
}



/// The return contract, success half: a function whose resolved return
/// type is void compiles whenever its body's statements all lower without
/// error, whether or not a return statement occurred. (The premise is
/// needed: a body whose statements themselves fail — an undefined name,
/// an untyped uninitialized binding — aborts the compilation first.)
pub proof fn lemma_void_function_compiles(
    fc: FunctionCompiler,
    sigs: FunctionSignatures,
    types: Seq<Type>,
    id: int,
)
    requires
        types[fc.functions.functions@[id].return_type.0 as int] == Type::Void,
        lowered_statements(
            fc,
            sigs,
            bound_arguments(
                LowerState {
                    types,
                    emit: EmitState {
                        free: Seq::<u32>::empty(),
                        count: 0,
                        emitted: Seq::<InstructionView>::empty(),
                    },
                    stack: Seq::<StackAllocation>::empty(),
                    variables: Seq::<VariableView>::empty(),
                    module: fc.declarations.functions@[id].module,
                    return_type: types[fc.functions.functions@[id].return_type.0 as int],
                },
                fc.functions.functions@[id].arguments@,
                0,
            ),
            fc.declarations.functions@[id].ast.block.statements@,
            0,
        ).1 is Ok,
    ensures
        lowered_function(fc, sigs, types, id).1 is Ok,
{
}

/// The type table lowering hands to function `i`: the initial table after
/// the functions before `i` have been lowered.
pub open spec fn lowered_types_before(
    fc: FunctionCompiler,
    sigs: FunctionSignatures,
    types: Seq<Type>,
    i: int,
) -> Seq<Type>
    decreases i,
{
    if i <= 0 {
        types
    } else {
        lowered_function(fc, sigs, lowered_types_before(fc, sigs, types, i - 1), i - 1).0.types
    }
}

/// The per-function lowering state: the block being filled and its register
/// file, the stack-slot table, the variable bindings in declaration order,
/// the module the function was declared in, and its return type.
pub struct FunctionContext {
    pub module: ModuleId,
    pub builder: InstructionBuilder,
    pub block: BlockId,
    pub stack: Stack,
    pub variables: Vec<FunctionVariable>,
    pub return_type: Type,
}

impl FunctionContext {
    /// What lowering one expression never touches: everything but the
    /// builder, whose instruction list only grows and whose register
    /// counter never shrinks.
    pub open spec fn expr_frame(&self, post: FunctionContext) -> bool {
        &&& post.module == self.module
        &&& post.block == self.block
        &&& post.stack == self.stack
        &&& post.variables == self.variables
        &&& post.return_type == self.return_type
        &&& self.builder.spec_instructions().is_prefix_of(post.builder.spec_instructions())
        &&& self.builder.spec_registers().spec_count() <= post.builder.spec_registers().spec_count()
    }

    /// The instruction builder for the current block.
    pub fn ins(&mut self) -> (r: &mut InstructionBuilder)
        ensures
            *r == old(self).builder,
            *final(self) == (FunctionContext { builder: *final(r), ..*old(self) }),
    {
        &mut self.builder
    }

    /// Directs subsequent emission at another block. With straight-line
    /// lowering the entry block is never left.
    pub fn set_block(&mut self, block: BlockId)
        ensures
            *final(self) == (FunctionContext { block, ..*old(self) }),
    {
        self.block = block;
    }

    /// Releases the storage backing a spent value: a register goes back to
    /// the register file; stack slots and function names have nothing to
    /// release.
    pub fn free(&mut self, value: Value)
        requires
            old(self).builder.wf(),
        ensures
            final(self).builder.wf(),
            old(self).expr_frame(*final(self)),
            final(self).builder.spec_registers().spec_count() == old(self).builder.spec_registers().spec_count(),
            final(self).builder.spec_instructions() == old(self).builder.spec_instructions(),
            emit_state(final(self).builder) == released(emit_state(old(self).builder), value),
    {
        match value.kind {
            ValueKind::Register(register) => {
                self.builder.free_register(register);
            },
            _ => {},
        }
    }
}

/// Lowers function bodies against the collected declarations and the
/// resolved function table, both fixed before lowering begins.
pub struct FunctionCompiler {
    pub declarations: Declarations,
    pub functions: Functions,
}

impl FunctionCompiler {
    /// The fixed inputs of lowering are consistent: the declaration tables
    /// are closed under their ids, and the function table matches the
    /// declarations one to one.
    pub open spec fn inv(&self, types: Seq<Type>, sigs: Seq<FunctionSignature>) -> bool {
        &&& self.declarations.wf()
        &&& self.functions.functions@.len() == self.declarations.functions@.len()
        &&& self.functions.wf(types, sigs)
    }

    /// The lowering state is consistent with the tables: every type a
    /// binding or the return slot carries points into them.
    pub open spec fn ctx_wf(
        &self,
        ctx: FunctionContext,
        types: Seq<Type>,
        sigs: Seq<FunctionSignature>,
    ) -> bool {
        &&& ctx.builder.wf()
        &&& ctx.module.0 < self.declarations.modules@.len()
        &&& type_valid(ctx.return_type, types.len(), sigs.len())
        &&& forall|i: int|
            0 <= i < ctx.variables@.len() ==> type_valid(
                (#[trigger] ctx.variables@[i]).ty,
                types.len(),
                sigs.len(),
            )
    }

    pub fn new(declarations: Declarations, functions: Functions) -> (r: Self)
        ensures
            r.declarations == declarations,
            r.functions == functions,
    {
        FunctionCompiler { declarations, functions }
    }

    /// Materializes a value into a register: a register value is handed
    /// back as it is, a stack-backed value is loaded with the width of its
    /// type, and a named function becomes its address. Struct-by-value
    /// loads are not implemented.
    pub fn compile_value(&self, ctx: &mut FunctionContext, value: Value) -> (r: Result<
        Register,
        Error,
    >)
        requires
            old(ctx).builder.wf(),
            old(ctx).builder.spec_registers().spec_count() + 1 <= u32::MAX,
        ensures
            final(ctx).builder.wf(),
            old(ctx).expr_frame(*final(ctx)),
            final(ctx).builder.spec_registers().spec_count() <= old(ctx).builder.spec_registers().spec_count() + 1,
            ({
                let (s1, outcome) = lowered_value(emit_state(old(ctx).builder), value);
                emit_state(final(ctx).builder) == s1 && match r {
                    Ok(register) => outcome == Ok::<Register, ErrorKind>(register),
                    Err(e) => outcome == Err::<Register, ErrorKind>(e.spec_kind()),
                }
            }),
            match r {
                Ok(register) => match value.kind {
                    ValueKind::Register(reg) => register == reg && final(ctx).builder == old(ctx).builder,
                    ValueKind::Stack(slot) => {
                        &&& crate::ir::instruction::allocates(
                            old(ctx).builder.spec_registers(),
                            final(ctx).builder.spec_registers(),
                            register,
                        )
                        &&& match value.ty {
                            Type::Void => final(ctx).builder.spec_instructions() == old(ctx).builder.spec_instructions().push(
                                Instruction::IConst {
                                    dst: register,
                                    imm: Immediate { bits: 0 },
                                    ty: MemoryType::Usize,
                                },
                            ),
                            Type::Memory(mt) => final(ctx).builder.spec_instructions() == old(ctx).builder.spec_instructions().push(
                                Instruction::StackLoad { dst: register, slot, ty: mt, offset: 0 },
                            ),
                            Type::Struct(_) => false,
                            Type::Reference(_) | Type::Function(_) => final(ctx).builder.spec_instructions() == old(ctx).builder.spec_instructions().push(
                                Instruction::StackLoad {
                                    dst: register,
                                    slot,
                                    ty: MemoryType::Usize,
                                    offset: 0,
                                },
                            ),
                        }
                    },
                    ValueKind::Function(id) => crate::ir::instruction::allocates(
                        old(ctx).builder.spec_registers(),
                        final(ctx).builder.spec_registers(),
                        register,
                    ) && final(ctx).builder.spec_instructions() == old(ctx).builder.spec_instructions().push(
                        Instruction::FuncAddr {
                            dst: register,
                            function: id,
                            ty: MemoryType::Usize,
                        },
                    ),
                },
                Err(e) => {
                    &&& e.spec_kind() == ErrorKind::UnsupportedConstruct
                    &&& value.ty is Struct
                    &&& value.kind is Stack
                    &&& final(ctx).builder == old(ctx).builder
                },
            },
    {
        match value.kind {
            ValueKind::Register(register) => Ok(register),
            ValueKind::Stack(slot) => match value.ty {
                Type::Void => Ok(self.ins_iconst_zero(ctx)),
                Type::Memory(ty) => Ok(ctx.ins().stack_load(slot, ty, 0)),
                Type::Struct(_) => Err(
                    Error::new(
                        ErrorKind::UnsupportedConstruct,
                        "struct values cannot be loaded yet".to_owned(),
                    ),
                ),
                Type::Reference(_) | Type::Function(_) => Ok(
                    ctx.ins().stack_load(slot, MemoryType::Usize, 0),
                ),
            },
            ValueKind::Function(id) => Ok(ctx.ins().func_addr(id, MemoryType::Usize)),
        }
    }

    /// Emits the zero-address constant a void value materializes to.
    fn ins_iconst_zero(&self, ctx: &mut FunctionContext) -> (r: Register)
        requires
            old(ctx).builder.wf(),
            old(ctx).builder.spec_registers().spec_count() + 1 <= u32::MAX,
        ensures
            final(ctx).builder.wf(),
            old(ctx).expr_frame(*final(ctx)),
            crate::ir::instruction::allocates(
                old(ctx).builder.spec_registers(),
                final(ctx).builder.spec_registers(),
                r,
            ),
            final(ctx).builder.spec_instructions() == old(ctx).builder.spec_instructions().push(
                Instruction::IConst { dst: r, imm: Immediate { bits: 0 }, ty: MemoryType::Usize },
            ),
    {
        let imm = Immediate::zero();
        ctx.ins().iconst(imm, MemoryType::Usize)
    }

    /// Stores a value into a stack slot, materializing it first; void
    /// values store nothing.
    pub fn stack_store_value(
        &self,
        ctx: &mut FunctionContext,
        stack_slot: StackSlot,
        value: Value,
    ) -> (r: Result<(), Error>)
        requires
            old(ctx).builder.wf(),
            old(ctx).builder.spec_registers().spec_count() + 1 <= u32::MAX,
        ensures
            final(ctx).builder.wf(),
            old(ctx).expr_frame(*final(ctx)),
            final(ctx).builder.spec_registers().spec_count() <= old(ctx).builder.spec_registers().spec_count() + 1,
            ({
                let (s1, outcome) = lowered_stack_store(
                    emit_state(old(ctx).builder),
                    stack_slot,
                    value,
                );
                emit_state(final(ctx).builder) == s1 && match r {
                    Ok(_) => outcome == Ok::<(), ErrorKind>(()),
                    Err(e) => outcome == Err::<(), ErrorKind>(e.spec_kind()),
                }
            }),
    {
        let register = match self.compile_value(ctx, value) {
            Ok(register) => register,
            Err(e) => {
                return Err(e);
            },
        };
        match value.ty {
            Type::Void => {},
            Type::Memory(ty) => ctx.ins().stack_store(register, stack_slot, ty, 0),
            Type::Struct(_) => {
                return Err(
                    Error::new(
                        ErrorKind::UnsupportedConstruct,
                        "struct values cannot be stored yet".to_owned(),
                    ),
                );
            },
            Type::Reference(_) | Type::Function(_) => ctx.ins().stack_store(
                register,
                stack_slot,
                MemoryType::Usize,
                0,
            ),
        }
        Ok(())
    }

    /// Stores a value through the address in `dst`, materializing it first;
    /// void values store nothing.
    pub fn store_value(&self, ctx: &mut FunctionContext, dst: Register, value: Value) -> (r: Result<
        (),
        Error,
    >)
        requires
            old(ctx).builder.wf(),
            old(ctx).builder.spec_registers().spec_count() + 1 <= u32::MAX,
        ensures
            final(ctx).builder.wf(),
            old(ctx).expr_frame(*final(ctx)),
            final(ctx).builder.spec_registers().spec_count() <= old(ctx).builder.spec_registers().spec_count() + 1,
            ({
                let (s1, outcome) = lowered_store(emit_state(old(ctx).builder), dst, value);
                emit_state(final(ctx).builder) == s1 && match r {
                    Ok(_) => outcome == Ok::<(), ErrorKind>(()),
                    Err(e) => outcome == Err::<(), ErrorKind>(e.spec_kind()),
                }
            }),
    {
        let register = match self.compile_value(ctx, value) {
            Ok(register) => register,
            Err(e) => {
                return Err(e);
            },
        };
        match value.ty {
            Type::Void => {},
            Type::Memory(ty) => ctx.ins().store(dst, register, ty, 0),
            Type::Struct(_) => {
                return Err(
                    Error::new(
                        ErrorKind::UnsupportedConstruct,
                        "struct values cannot be stored yet".to_owned(),
                    ),
                );
            },
            Type::Reference(_) | Type::Function(_) => ctx.ins().store(
                dst,
                register,
                MemoryType::Usize,
                0,
            ),
        }
        Ok(())
    }

    /// Lowers a literal: an integer becomes a 32-bit signed constant; its
    /// low four bytes are the two's-complement bits of the written value.
    /// String literals are not supported.
    pub fn compile_literal(&self, ctx: &mut FunctionContext, ast: &ast::LiteralExpression) -> (r:
        Result<Value, Error>)
        requires
            old(ctx).builder.wf(),
            old(ctx).builder.spec_registers().spec_count() + 1 <= u32::MAX,
        ensures
            final(ctx).builder.wf(),
            old(ctx).expr_frame(*final(ctx)),
            final(ctx).builder.spec_registers().spec_count() <= old(ctx).builder.spec_registers().spec_count() + 1,
            ({
                let (s1, outcome) = lowered_literal(emit_state(old(ctx).builder), *ast);
                emit_state(final(ctx).builder) == s1 && match r {
                    Ok(v) => outcome == Ok::<Value, ErrorKind>(v),
                    Err(e) => outcome == Err::<Value, ErrorKind>(e.spec_kind()),
                }
            }),
            match r {
                Ok(v) => match *ast {
                    ast::LiteralExpression::Integer(lit) => {
                        &&& v.ty == Type::Memory(MemoryType::I32)
                        &&& v.kind matches ValueKind::Register(reg) && crate::ir::instruction::allocates(
                            old(ctx).builder.spec_registers(),
                            final(ctx).builder.spec_registers(),
                            reg,
                        ) && final(ctx).builder.spec_instructions() == old(ctx).builder.spec_instructions().push(
                            Instruction::IConst {
                                dst: reg,
                                imm: Immediate { bits: literal_bits(lit.spec_integer().value) },
                                ty: MemoryType::I32,
                            },
                        )
                    },
                    ast::LiteralExpression::String(_) => false,
                },
                Err(e) => e.spec_kind() == ErrorKind::UnsupportedConstruct && *ast is String
                    && final(ctx).builder == old(ctx).builder,
            },
    {
        match ast {
            ast::LiteralExpression::String(_) => Err(
                Error::new(
                    ErrorKind::UnsupportedConstruct,
                    "string literals are not supported yet".to_owned(),
                ),
            ),
            ast::LiteralExpression::Integer(integer) => {
                let value = integer.integer().value();
                let low = value & 0xFFFF_FFFFi64;
                proof {
                    assert(0 <= value & 0xFFFF_FFFFi64 <= 0xFFFF_FFFFi64) by (bit_vector);
                }
                let imm = Immediate::from_u64(low as u64);
                let register = ctx.ins().iconst(imm, MemoryType::I32);
                Ok(Value::new(Type::Memory(MemoryType::I32), ValueKind::Register(register)))
            },
        }
    }

    /// Lowers a path. A single bare name refers to the most recently
    /// declared variable binding of that name, if one exists; otherwise the
    /// module prefix is canonicalized and the final segment must name a
    /// function of the resolved module. Emits nothing; the value only
    /// records where the result lives.
    pub fn compile_path(&self, ctx: &mut FunctionContext, ast: &ast::Path) -> (r: Result<
        Value,
        Error,
    >)
        requires
            self.declarations.wf(),
            self.functions.functions@.len() == self.declarations.functions@.len(),
            old(ctx).module.0 < self.declarations.modules@.len(),
        ensures
            *final(ctx) == *old(ctx),
            ({
                let looked = lowered_path(
                    *self,
                    variables_view(old(ctx).variables@),
                    old(ctx).module,
                    *ast,
                );
                match r {
                    Ok(v) => looked == Ok::<Value, ErrorKind>(v),
                    Err(e) => looked == Err::<Value, ErrorKind>(e.spec_kind()),
                }
            }),
            match r {
                Ok(v) => match path_variable(*ast, variables_view(old(ctx).variables@)) {
                    Some(var) => v.ty == var.ty && v.kind == (ValueKind::Stack(var.stack_slot)),
                    None => match resolve_modules(
                        self.declarations.modules@,
                        walk_start(self.declarations, old(ctx).module, *ast),
                        ast.spec_module_segments(),
                    ) {
                        Ok(m) => {
                            &&& ast.spec_segments().len() > 0
                            &&& match ast.spec_segments().last() {
                                ast::PathSegment::Ident(name) => match lookup_name(
                                    self.declarations.modules@[m.0 as int].functions@,
                                    name@,
                                ) {
                                    Some(fid) => {
                                        &&& fid.0 < self.functions.functions@.len()
                                        &&& v.ty == (Type::Function(
                                            self.functions.functions@[fid.0 as int].signature,
                                        ))
                                        &&& v.kind == (ValueKind::Function(fid))
                                    },
                                    None => false,
                                },
                                ast::PathSegment::Super => false,
                            }
                        },
                        Err(_) => false,
                    },
                },
                Err(e) => path_variable(*ast, variables_view(old(ctx).variables@)) is None && match resolve_modules(
                    self.declarations.modules@,
                    walk_start(self.declarations, old(ctx).module, *ast),
                    ast.spec_module_segments(),
                ) {
                    Ok(m) => e.spec_kind() == ErrorKind::UndefinedPath && (ast.spec_segments().len()
                        == 0 || !(ast.spec_segments().last() is Ident) || (match ast.spec_segments().last() {
                        ast::PathSegment::Ident(name) => lookup_name(
                            self.declarations.modules@[m.0 as int].functions@,
                            name@,
                        ) is None,
                        ast::PathSegment::Super => true,
                    })),
                    Err(_) => e.spec_kind() == ErrorKind::InvalidPath,
                },
            },
    {
        match ast.as_ident() {
            Some(ident) => {
                match find_variable(&ctx.variables, ident) {
                    Some((ty, stack_slot)) => {
                        return Ok(Value::new(ty, ValueKind::Stack(stack_slot)));
                    },
                    None => {},
                }
            },
            None => {},
        }
        proof {
            assert(path_variable(*ast, variables_view(ctx.variables@)) is None);
        }
        let module_id = match self.declarations.canonicalize_module(ctx.module, ast) {
            Ok(module_id) => module_id,
            Err(e) => {
                return Err(e);
            },
        };
        let module = &self.declarations.modules[module_id.0];
        match ast.get_ident() {
            Some(ident) => {
                match lookup_function_name(&module.functions, ident) {
                    Some(function_id) => {
                        proof {
                            crate::compiler::declarations::lemma_lookup_name_in(
                                self.declarations.modules@[module_id.0 as int].functions@,
                                ident@,
                            );
                        }
                        let function = &self.functions.functions[function_id.0];
                        Ok(Value::new(Type::Function(function.signature), ValueKind::Function(function_id)))
                    },
                    None => Err(
                        Error::new(ErrorKind::UndefinedPath, "this path names nothing".to_owned()),
                    ),
                }
            },
            None => Err(
                Error::new(ErrorKind::UndefinedPath, "this path names nothing".to_owned()),
            ),
        }
    }
}

/// The low four bytes of a written integer value: what a 32-bit signed
/// constant keeps of it.
pub open spec fn literal_bits(value: i64) -> u64 {
    (value & 0xFFFF_FFFFi64) as u64
}

/// The variable binding a path refers to, if the path is one bare name and
/// a binding with that name exists: the most recent such binding.
pub open spec fn path_variable(path: ast::Path, vars: Seq<VariableView>) -> Option<
    VariableView,
> {
    if path.spec_segments().len() == 1 {
        match path.spec_segments()[0] {
            ast::PathSegment::Ident(ident) => lookup_variable(vars, ident@),
            ast::PathSegment::Super => None,
        }
    } else {
        None
    }
}

/// The fixed inputs stay consistent when the type table only grows.
pub proof fn lemma_inv_grow(
    fc: &FunctionCompiler,
    t1: Seq<Type>,
    t2: Seq<Type>,
    s: Seq<FunctionSignature>,
)
    requires
        fc.inv(t1, s),
        t1.is_prefix_of(t2),
    ensures
        fc.inv(t2, s),
{
    assert(s.is_prefix_of(s)) by {
        assert(s.take(s.len() as int) =~= s);
    }
    assert forall|i: int| 0 <= i < fc.functions.functions@.len() implies (
    #[trigger] fc.functions.functions@[i]).wf(t2, s) by {
        crate::compiler::functions::lemma_function_wf_prefix(
            fc.functions.functions@[i],
            t1,
            t2,
            s,
            s,
        );
    }
}

/// The lowering state stays consistent when the type table only grows and
/// the bindings are untouched.
pub proof fn lemma_ctx_grow(
    fc: &FunctionCompiler,
    a: FunctionContext,
    b: FunctionContext,
    t1: Seq<Type>,
    t2: Seq<Type>,
    s: Seq<FunctionSignature>,
)
    requires
        fc.ctx_wf(a, t1, s),
        t1.len() <= t2.len(),
        b.builder.wf(),
        b.module == a.module,
        b.return_type == a.return_type,
        b.variables == a.variables,
    ensures
        fc.ctx_wf(b, t2, s),
{
    lemma_type_valid_grow(a.return_type, t1.len(), t2.len(), s.len(), s.len());
    assert forall|i: int| 0 <= i < b.variables@.len() implies type_valid(
        (#[trigger] b.variables@[i]).ty,
        t2.len(),
        s.len(),
    ) by {
        assert(b.variables@[i] == a.variables@[i]);
        lemma_type_valid_grow(a.variables@[i].ty, t1.len(), t2.len(), s.len(), s.len());
    }
}

/// One expression frame after another is still an expression frame.
pub proof fn lemma_frame_trans(a: FunctionContext, b: FunctionContext, c: FunctionContext)
    requires
        a.expr_frame(b),
        b.expr_frame(c),
    ensures
        a.expr_frame(c),
{
    crate::compiler::functions::lemma_prefix_trans(
        a.builder.spec_instructions(),
        b.builder.spec_instructions(),
        c.builder.spec_instructions(),
    );
}

impl FunctionCompiler {
    /// Everything lowering an expression relies on: the fixed inputs, the
    /// tables and the lowering state are all consistent.
    pub open spec fn lower_pre(
        &self,
        ctx: FunctionContext,
        types: Types,
        signatures: FunctionSignatures,
    ) -> bool {
        &&& self.inv(types.spec_types(), signatures.spec_signatures())
        &&& tables_wf(types.spec_types(), signatures.spec_signatures())
        &&& self.ctx_wf(ctx, types.spec_types(), signatures.spec_signatures())
    }

    /// Everything lowering an expression guarantees about the state it
    /// leaves behind, whatever its outcome: consistency is preserved, the
    /// type table only grows, and nothing outside the builder changes.
    pub open spec fn lower_post(
        &self,
        ctx0: FunctionContext,
        ctx1: FunctionContext,
        t0: Types,
        t1: Types,
        signatures: FunctionSignatures,
    ) -> bool {
        &&& self.lower_pre(ctx1, t1, signatures)
        &&& t0.spec_types().is_prefix_of(t1.spec_types())
        &&& t0.spec_structs() == t1.spec_structs()
        &&& ctx0.expr_frame(ctx1)
    }

    /// What a successful lowering hands back: a value of a valid type, or
    /// the news of an early return, in which case the instruction just
    /// emitted is the return itself.
    pub open spec fn lowered_ok(
        &self,
        l: Lowered,
        ctx1: FunctionContext,
        t1: Types,
        signatures: FunctionSignatures,
    ) -> bool {
        match l {
            Lowered::Value(v) => type_valid(
                v.ty,
                t1.spec_types().len(),
                signatures.spec_signatures().len(),
            ),
            Lowered::Return => ctx1.builder.spec_instructions().len() > 0
                && ctx1.builder.spec_instructions().last() is Return,
        }
    }

    /// Lowers a parenthesized expression: transparently, as its inner
    /// expression.
    pub fn compile_paren(
        &self,
        ctx: &mut FunctionContext,
        types: &mut Types,
        signatures: &FunctionSignatures,
        ast: &ast::ParenExpression,
    ) -> (r: Result<Lowered, Error>)
        requires
            self.lower_pre(*old(ctx), *old(types), *signatures),
            old(ctx).builder.spec_registers().spec_count() + expr_allocs(*ast.expression)
                <= u32::MAX,
        ensures
            self.lower_post(*old(ctx), *final(ctx), *old(types), *final(types), *signatures),
            ({
                let (s1, outcome) = lowered_expr(
                    *self,
                    *signatures,
                    lower_state(*old(ctx), *old(types)),
                    *ast.expression,
                );
                lower_state(*final(ctx), *final(types)) == s1 && match r {
                    Ok(l) => outcome == Ok::<Lowered, ErrorKind>(l),
                    Err(e) => outcome == Err::<Lowered, ErrorKind>(e.spec_kind()),
                }
            }),
            final(ctx).builder.spec_registers().spec_count() <= old(ctx).builder.spec_registers().spec_count() + expr_allocs(*ast.expression),
            match r {
                Ok(l) => self.lowered_ok(l, *final(ctx), *final(types), *signatures),
                Err(e) => e.spec_kind() != ErrorKind::MissingReturn,
            },
        decreases *ast,
    {
        self.compile_expression(ctx, types, signatures, &ast.expression)
    }

    /// Lowers a call: the callee must be a named function, every argument
    /// is lowered and materialized left to right, and the collected
    /// argument types must equal the callee signature's argument list
    /// exactly, position by position.
    pub fn compile_call(
        &self,
        ctx: &mut FunctionContext,
        types: &mut Types,
        signatures: &FunctionSignatures,
        ast: &ast::CallExpression,
    ) -> (r: Result<Lowered, Error>)
        requires
            self.lower_pre(*old(ctx), *old(types), *signatures),
            old(ctx).builder.spec_registers().spec_count() + expr_allocs(*ast.function)
                + exprs_allocs(ast.arguments.spec_items(), 0) + 1 <= u32::MAX,
        ensures
            self.lower_post(*old(ctx), *final(ctx), *old(types), *final(types), *signatures),
            ({
                let (s1, outcome) = lowered_call(
                    *self,
                    *signatures,
                    lower_state(*old(ctx), *old(types)),
                    *ast,
                );
                lower_state(*final(ctx), *final(types)) == s1 && match r {
                    Ok(l) => outcome == Ok::<Lowered, ErrorKind>(l),
                    Err(e) => outcome == Err::<Lowered, ErrorKind>(e.spec_kind()),
                }
            }),
            final(ctx).builder.spec_registers().spec_count() <= old(ctx).builder.spec_registers().spec_count() + expr_allocs(*ast.function) + exprs_allocs(
                ast.arguments.spec_items(),
                0,
            ) + 1,
            match r {
                Ok(l) => self.lowered_ok(l, *final(ctx), *final(types), *signatures) && (
                l matches Lowered::Value(v) ==> v.kind is Register),
                Err(e) => e.spec_kind() != ErrorKind::MissingReturn,
            },
        decreases *ast,
    {
        let ghost ctx0 = *ctx;
        let ghost t0 = *types;
        let function = match self.compile_expression(ctx, types, signatures, &ast.function) {
            Ok(Lowered::Value(v)) => v,
            Ok(Lowered::Return) => {
                return Ok(Lowered::Return);
            },
            Err(e) => {
                return Err(e);
            },
        };
        let ghost s_args = lower_state(*ctx, *types);
        let signature_id = match function.ty {
            Type::Function(id) => id,
            _ => {
                return Err(
                    Error::new(ErrorKind::NotCallable, "this value is not a function".to_owned()),
                );
            },
        };
        let items = ast.arguments.iter();
        let n = items.len();
        let mut arguments: Vec<Register> = Vec::new();
        let mut argument_types: Vec<crate::id::TypeId> = Vec::new();
        let mut i: usize = 0;
        proof {
            assert(ctx0.expr_frame(*ctx));
            let (sf, rest) = lowered_arguments(*self, *signatures, s_args, items@, 0);
            match rest {
                LoweredArguments::Lowered(rr, tt) => {
                    assert(Seq::<Register>::empty() + rr =~= rr);
                    assert(Seq::<crate::id::TypeId>::empty() + tt =~= tt);
                },
                _ => {},
            }
        }
        while i < n
            invariant
                self.lower_pre(*ctx, *types, *signatures),
                items@ == ast.arguments.spec_items(),
                n == items@.len(),
                i <= n,
                ctx.builder.spec_registers().spec_count() + exprs_allocs(items@, i as int) + 1
                    <= u32::MAX,
                ctx.builder.spec_registers().spec_count() + exprs_allocs(items@, i as int) <= old(ctx).builder.spec_registers().spec_count() + expr_allocs(*ast.function)
                    + exprs_allocs(items@, 0),
                self.lower_post(ctx0, *ctx, t0, *types, *signatures),
                ctx0 == *old(ctx),
                t0 == *old(types),
                signature_id.0 < signatures.spec_signatures().len(),
                lowered_expr(*self, *signatures, lower_state(ctx0, t0), *ast.function) == (
                    s_args,
                    Ok::<Lowered, ErrorKind>(Lowered::Value(function)),
                ),
                function.ty == (Type::Function(signature_id)),
                lowered_arguments(*self, *signatures, s_args, items@, 0) == collected_arguments(
                    lowered_arguments(
                        *self,
                        *signatures,
                        lower_state(*ctx, *types),
                        items@,
                        i as int,
                    ),
                    arguments@,
                    argument_types@,
                ),
            decreases n - i,
        {
            let ghost ctx_i = *ctx;
            let ghost t_i = *types;
            let argument = ast.arguments.get(i);
            proof {
                assert(exprs_allocs(items@, i as int) == expr_allocs(items@[i as int]) + 1
                    + exprs_allocs(items@, i + 1));
            }
            let value = match self.compile_expression(ctx, types, signatures, argument) {
                Ok(Lowered::Value(v)) => v,
                Ok(Lowered::Return) => {
                    proof {
                        lemma_frame_trans(ctx0, ctx_i, *ctx);
                        crate::compiler::functions::lemma_prefix_trans(
                            t0.spec_types(),
                            t_i.spec_types(),
                            types.spec_types(),
                        );
                    }
                    return Ok(Lowered::Return);
                },
                Err(e) => {
                    proof {
                        lemma_frame_trans(ctx0, ctx_i, *ctx);
                        crate::compiler::functions::lemma_prefix_trans(
                            t0.spec_types(),
                            t_i.spec_types(),
                            types.spec_types(),
                        );
                    }
                    return Err(e);
                },
            };
            let ghost ctx_j = *ctx;
            let register = match self.compile_value(ctx, value) {
                Ok(register) => register,
                Err(e) => {
                    proof {
                        lemma_frame_trans(ctx_i, ctx_j, *ctx);
                        lemma_frame_trans(ctx0, ctx_i, *ctx);
                        crate::compiler::functions::lemma_prefix_trans(
                            t0.spec_types(),
                            t_i.spec_types(),
                            types.spec_types(),
                        );
                        lemma_ctx_grow(
                            self,
                            ctx_j,
                            *ctx,
                            types.spec_types(),
                            types.spec_types(),
                            signatures.spec_signatures(),
                        );
                    }
                    return Err(e);
                },
            };
            let ghost ctx_cv = *ctx;
            let ghost t_j = *types;
            let type_id = types.get_type_id(&value.ty);
            proof {
                lemma_tables_wf_intern(
                    t_j.spec_types(),
                    signatures.spec_signatures(),
                    value.ty,
                );
                lemma_inv_grow(
                    self,
                    t_j.spec_types(),
                    types.spec_types(),
                    signatures.spec_signatures(),
                );
                lemma_frame_trans(ctx_i, ctx_j, *ctx);
                lemma_frame_trans(ctx0, ctx_i, *ctx);
                lemma_ctx_grow(
                    self,
                    ctx_j,
                    *ctx,
                    t_j.spec_types(),
                    types.spec_types(),
                    signatures.spec_signatures(),
                );
                crate::compiler::functions::lemma_prefix_trans(
                    t_i.spec_types(),
                    t_j.spec_types(),
                    types.spec_types(),
                );
                crate::compiler::functions::lemma_prefix_trans(
                    t0.spec_types(),
                    t_i.spec_types(),
                    types.spec_types(),
                );
            }
            proof {
                let ghost regs_before = arguments@;
                let ghost tys_before = argument_types@;
                let s_prev = lower_state(ctx_i, t_i);
                let (sx, first) = lowered_expr(*self, *signatures, s_prev, items@[i as int]);
                assert(sx == lower_state(ctx_j, t_j));
                let (ex, materialized) = lowered_value(sx.emit, value);
                assert(ex == emit_state(ctx_cv.builder));
                assert(materialized == Ok::<Register, ErrorKind>(register));
                let s_mid = LowerState {
                    types: crate::compiler::ty::interned_types(sx.types, value.ty),
                    emit: ex,
                    ..sx
                };
                assert(lower_state(*ctx, *types) =~= s_mid);
                let (s3, rest) = lowered_arguments(
                    *self,
                    *signatures,
                    s_mid,
                    items@,
                    i + 1,
                );
                match rest {
                    LoweredArguments::Lowered(rr, tt) => {
                        assert(regs_before + (seq![register] + rr) =~= regs_before.push(
                            register,
                        ) + rr);
                        assert(tys_before + (seq![type_id] + tt) =~= tys_before.push(type_id)
                            + tt);
                    },
                    _ => {},
                }
                assert(lowered_arguments(*self, *signatures, s_prev, items@, i as int) == (
                    match rest {
                        LoweredArguments::Lowered(rr, tt) => (
                            s3,
                            LoweredArguments::Lowered(
                                seq![register] + rr,
                                seq![type_id] + tt,
                            ),
                        ),
                        LoweredArguments::Return => (s3, LoweredArguments::Return),
                        LoweredArguments::Failed(k) => (s3, LoweredArguments::Failed(k)),
                    }
                ));
            }
            argument_types.push(type_id);
            arguments.push(register);
            i += 1;
        }
        proof {
            assert(exprs_allocs(items@, n as int) == 0);
            assert(signatures.spec_signatures()[signature_id.0 as int].return_type.0
                < types.spec_types().len());
            let (sf, rest) = lowered_arguments(
                *self,
                *signatures,
                lower_state(*ctx, *types),
                items@,
                n as int,
            );
            assert(rest == LoweredArguments::Lowered(
                Seq::<Register>::empty(),
                Seq::<crate::id::TypeId>::empty(),
            ));
            assert(arguments@ + Seq::<Register>::empty() =~= arguments@);
            assert(argument_types@ + Seq::<crate::id::TypeId>::empty() =~= argument_types@);
            assert(lowered_arguments(*self, *signatures, s_args, items@, 0) == (
                lower_state(*ctx, *types),
                LoweredArguments::Lowered(arguments@, argument_types@),
            ));
        }
        let signature = signatures.get_signature(signature_id);
        let return_type = types.get_type(signature.return_type);
        proof {
            assert(type_valid(
                return_type,
                types.spec_types().len(),
                signatures.spec_signatures().len(),
            ));
        }
        let matches = crate::compiler::functions::type_ids_eq(
            &argument_types,
            &signature.arguments,
        );
        if !matches {
            return Err(
                Error::new(
                    ErrorKind::ArgumentMismatch,
                    "the arguments do not match the function's signature".to_owned(),
                ),
            );
        }
        match function.kind {
            ValueKind::Function(function_id) => {
                let ghost ctx_k = *ctx;
                let register = ctx.ins().call(function_id, arguments);
                proof {
                    lemma_frame_trans(ctx0, ctx_k, *ctx);
                    lemma_ctx_grow(
                        self,
                        ctx_k,
                        *ctx,
                        types.spec_types(),
                        types.spec_types(),
                        signatures.spec_signatures(),
                    );
                }
                Ok(Lowered::Value(Value::new(return_type, ValueKind::Register(register))))
            },
            _ => Err(
                Error::new(
                    ErrorKind::UnsupportedConstruct,
                    "calls through function pointers are not supported yet".to_owned(),
                ),
            ),
        }
    }

    /// Lowers a prefix operation. Taking a reference requires the operand
    /// to live in a stack slot; dereferencing requires a reference-typed
    /// operand and loads with the width of the referent. Negation is not
    /// supported.
    pub fn compile_unary(
        &self,
        ctx: &mut FunctionContext,
        types: &mut Types,
        signatures: &FunctionSignatures,
        ast: &ast::UnaryExpression,
    ) -> (r: Result<Lowered, Error>)
        requires
            self.lower_pre(*old(ctx), *old(types), *signatures),
            old(ctx).builder.spec_registers().spec_count() + expr_allocs(*ast.expression) + 1
                <= u32::MAX,
        ensures
            self.lower_post(*old(ctx), *final(ctx), *old(types), *final(types), *signatures),
            ({
                let (s1, outcome) = lowered_unary(
                    *self,
                    *signatures,
                    lower_state(*old(ctx), *old(types)),
                    *ast,
                );
                lower_state(*final(ctx), *final(types)) == s1 && match r {
                    Ok(l) => outcome == Ok::<Lowered, ErrorKind>(l),
                    Err(e) => outcome == Err::<Lowered, ErrorKind>(e.spec_kind()),
                }
            }),
            final(ctx).builder.spec_registers().spec_count() <= old(ctx).builder.spec_registers().spec_count() + expr_allocs(*ast.expression) + 1,
            match r {
                Ok(l) => self.lowered_ok(l, *final(ctx), *final(types), *signatures),
                Err(e) => e.spec_kind() != ErrorKind::MissingReturn,
            },
        decreases *ast,
    {
        let ghost ctx0 = *ctx;
        let ghost t0 = *types;
        let value = match self.compile_expression(ctx, types, signatures, &ast.expression) {
            Ok(Lowered::Value(v)) => v,
            Ok(Lowered::Return) => {
                return Ok(Lowered::Return);
            },
            Err(e) => {
                return Err(e);
            },
        };
        let ghost ctx1 = *ctx;
        let ghost t1 = *types;
        match ast.operator {
            ast::UnaryOperator::Reference => {
                match value.kind {
                    ValueKind::Stack(slot) => {
                        let ty = types.get_type_id(&value.ty);
                        proof {
                            lemma_tables_wf_intern(
                                t1.spec_types(),
                                signatures.spec_signatures(),
                                value.ty,
                            );
                            lemma_inv_grow(
                                self,
                                t1.spec_types(),
                                types.spec_types(),
                                signatures.spec_signatures(),
                            );
                            crate::compiler::functions::lemma_prefix_trans(
                                t0.spec_types(),
                                t1.spec_types(),
                                types.spec_types(),
                            );
                        }
                        let register = ctx.ins().stack_addr(MemoryType::Usize, slot);
                        ctx.free(value);
                        proof {
                            lemma_frame_trans(ctx0, ctx1, *ctx);
                            lemma_ctx_grow(
                                self,
                                ctx1,
                                *ctx,
                                t1.spec_types(),
                                types.spec_types(),
                                signatures.spec_signatures(),
                            );
                        }
                        Ok(
                            Lowered::Value(
                                Value::new(Type::Reference(ty), ValueKind::Register(register)),
                            ),
                        )
                    },
                    _ => Err(
                        Error::new(
                            ErrorKind::InvalidReference,
                            "only addressable values can be referenced".to_owned(),
                        ),
                    ),
                }
            },
            ast::UnaryOperator::Dereference => {
                match value.ty {
                    Type::Reference(inner) => {
                        let ty = types.get_type(inner);
                        proof {
                            assert(type_valid(
                                ty,
                                types.spec_types().len(),
                                signatures.spec_signatures().len(),
                            ));
                        }
                        match value.kind {
                            ValueKind::Register(register) => {
                                let kind = match ty {
                                    Type::Void => {
                                        let fresh = ctx.ins().allocate_register();
                                        ctx.free(value);
                                        fresh
                                    },
                                    Type::Memory(mt) => {
                                        let loaded = ctx.ins().load(register, mt, 0);
                                        ctx.free(value);
                                        loaded
                                    },
                                    Type::Struct(_) => register,
                                    Type::Reference(_) | Type::Function(_) => {
                                        let loaded = ctx.ins().load(
                                            register,
                                            MemoryType::Usize,
                                            0,
                                        );
                                        ctx.free(value);
                                        loaded
                                    },
                                };
                                proof {
                                    lemma_frame_trans(ctx0, ctx1, *ctx);
                                    lemma_ctx_grow(
                                        self,
                                        ctx1,
                                        *ctx,
                                        types.spec_types(),
                                        types.spec_types(),
                                        signatures.spec_signatures(),
                                    );
                                }
                                Ok(Lowered::Value(Value::new(ty, ValueKind::Register(kind))))
                            },
                            ValueKind::Stack(stack_slot) => {
                                let kind = match ty {
                                    Type::Void => {
                                        let fresh = ctx.ins().allocate_register();
                                        ValueKind::Register(fresh)
                                    },
                                    Type::Memory(mt) => {
                                        let loaded = ctx.ins().stack_load(stack_slot, mt, 0);
                                        ValueKind::Register(loaded)
                                    },
                                    Type::Struct(_) => ValueKind::Stack(stack_slot),
                                    Type::Reference(_) | Type::Function(_) => {
                                        let loaded = ctx.ins().stack_load(
                                            stack_slot,
                                            MemoryType::Usize,
                                            0,
                                        );
                                        ValueKind::Register(loaded)
                                    },
                                };
                                ctx.free(value);
                                proof {
                                    lemma_frame_trans(ctx0, ctx1, *ctx);
                                    lemma_ctx_grow(
                                        self,
                                        ctx1,
                                        *ctx,
                                        types.spec_types(),
                                        types.spec_types(),
                                        signatures.spec_signatures(),
                                    );
                                }
                                Ok(Lowered::Value(Value::new(ty, kind)))
                            },
                            ValueKind::Function(_) => Err(
                                Error::new(
                                    ErrorKind::UnsupportedConstruct,
                                    "this reference cannot be dereferenced yet".to_owned(),
                                ),
                            ),
                        }
                    },
                    _ => Err(
                        Error::new(
                            ErrorKind::InvalidDereference,
                            "only references can be dereferenced".to_owned(),
                        ),
                    ),
                }
            },
            ast::UnaryOperator::Negate => Err(
                Error::new(
                    ErrorKind::UnsupportedConstruct,
                    "negation is not supported yet".to_owned(),
                ),
            ),
        }
    }

    /// Lowers an infix operation. Only addition of two operands of one and
    /// the same integer type is implemented; an operand type mismatch is a
    /// type error, any other operator is unsupported.
    pub fn compile_binary(
        &self,
        ctx: &mut FunctionContext,
        types: &mut Types,
        signatures: &FunctionSignatures,
        ast: &ast::BinaryExpression,
    ) -> (r: Result<Lowered, Error>)
        requires
            self.lower_pre(*old(ctx), *old(types), *signatures),
            old(ctx).builder.spec_registers().spec_count() + expr_allocs(*ast.lhs) + expr_allocs(
                *ast.rhs,
            ) + 3 <= u32::MAX,
        ensures
            self.lower_post(*old(ctx), *final(ctx), *old(types), *final(types), *signatures),
            ({
                let (s1, outcome) = lowered_binary(
                    *self,
                    *signatures,
                    lower_state(*old(ctx), *old(types)),
                    *ast,
                );
                lower_state(*final(ctx), *final(types)) == s1 && match r {
                    Ok(l) => outcome == Ok::<Lowered, ErrorKind>(l),
                    Err(e) => outcome == Err::<Lowered, ErrorKind>(e.spec_kind()),
                }
            }),
            final(ctx).builder.spec_registers().spec_count() <= old(ctx).builder.spec_registers().spec_count() + expr_allocs(*ast.lhs) + expr_allocs(
                *ast.rhs,
            ) + 3,
            match r {
                Ok(l) => self.lowered_ok(l, *final(ctx), *final(types), *signatures) && (
                l matches Lowered::Value(v) ==> {
                    &&& ast.operator == (ast::BinaryOperator::Add)
                    &&& v.ty.spec_is_integer()
                    &&& v.kind is Register
                    &&& final(ctx).builder.spec_instructions().len() > 0
                    &&& final(ctx).builder.spec_instructions().last() is Add
                }),
                Err(e) => e.spec_kind() != ErrorKind::MissingReturn,
            },
        decreases *ast,
    {
        let ghost ctx0 = *ctx;
        let ghost t0 = *types;
        let lhs = match self.compile_expression(ctx, types, signatures, &ast.lhs) {
            Ok(Lowered::Value(v)) => v,
            Ok(Lowered::Return) => {
                return Ok(Lowered::Return);
            },
            Err(e) => {
                return Err(e);
            },
        };
        let ghost ctx1 = *ctx;
        let ghost t1 = *types;
        let rhs = match self.compile_expression(ctx, types, signatures, &ast.rhs) {
            Ok(Lowered::Value(v)) => v,
            Ok(Lowered::Return) => {
                proof {
                    lemma_frame_trans(ctx0, ctx1, *ctx);
                    crate::compiler::functions::lemma_prefix_trans(
                        t0.spec_types(),
                        t1.spec_types(),
                        types.spec_types(),
                    );
                }
                return Ok(Lowered::Return);
            },
            Err(e) => {
                proof {
                    lemma_frame_trans(ctx0, ctx1, *ctx);
                    crate::compiler::functions::lemma_prefix_trans(
                        t0.spec_types(),
                        t1.spec_types(),
                        types.spec_types(),
                    );
                }
                return Err(e);
            },
        };
        proof {
            lemma_frame_trans(ctx0, ctx1, *ctx);
            crate::compiler::functions::lemma_prefix_trans(
                t0.spec_types(),
                t1.spec_types(),
                types.spec_types(),
            );
        }
        let ghost ctx2 = *ctx;
        let lhs_val = match self.compile_value(ctx, lhs) {
            Ok(register) => register,
            Err(e) => {
                proof {
                    lemma_frame_trans(ctx0, ctx2, *ctx);
                    lemma_ctx_grow(
                        self,
                        ctx2,
                        *ctx,
                        types.spec_types(),
                        types.spec_types(),
                        signatures.spec_signatures(),
                    );
                }
                return Err(e);
            },
        };
        let ghost ctx3 = *ctx;
        proof {
            lemma_frame_trans(ctx0, ctx2, ctx3);
            lemma_ctx_grow(
                self,
                ctx2,
                ctx3,
                types.spec_types(),
                types.spec_types(),
                signatures.spec_signatures(),
            );
        }
        let rhs_val = match self.compile_value(ctx, rhs) {
            Ok(register) => register,
            Err(e) => {
                proof {
                    lemma_frame_trans(ctx0, ctx3, *ctx);
                    lemma_ctx_grow(
                        self,
                        ctx3,
                        *ctx,
                        types.spec_types(),
                        types.spec_types(),
                        signatures.spec_signatures(),
                    );
                }
                return Err(e);
            },
        };
        let ghost ctx4 = *ctx;
        proof {
            lemma_frame_trans(ctx0, ctx3, ctx4);
            lemma_ctx_grow(
                self,
                ctx3,
                ctx4,
                types.spec_types(),
                types.spec_types(),
                signatures.spec_signatures(),
            );
        }
        match ast.operator {
            ast::BinaryOperator::Add => {
                if lhs.ty == rhs.ty && lhs.ty.is_integer() {
                    let dst = ctx.ins().add(lhs_val, rhs_val);
                    ctx.free(lhs);
                    ctx.free(rhs);
                    proof {
                        lemma_frame_trans(ctx0, ctx4, *ctx);
                        lemma_ctx_grow(
                            self,
                            ctx4,
                            *ctx,
                            types.spec_types(),
                            types.spec_types(),
                            signatures.spec_signatures(),
                        );
                    }
                    Ok(Lowered::Value(Value::new(lhs.ty, ValueKind::Register(dst))))
                } else {
                    Err(
                        Error::new(
                            ErrorKind::TypeMismatch,
                            "addition needs two operands of one integer type".to_owned(),
                        ),
                    )
                }
            },
            _ => Err(
                Error::new(
                    ErrorKind::UnsupportedConstruct,
                    "this operator is not supported yet".to_owned(),
                ),
            ),
        }
    }

    /// Lowers a `return` expression: the returned value must have exactly
    /// the function's declared return type, a return instruction is
    /// emitted, and lowering of the surrounding body stops.
    pub fn compile_return(
        &self,
        ctx: &mut FunctionContext,
        types: &mut Types,
        signatures: &FunctionSignatures,
        ast: &ast::ReturnExpression,
    ) -> (r: Result<Lowered, Error>)
        requires
            self.lower_pre(*old(ctx), *old(types), *signatures),
            old(ctx).builder.spec_registers().spec_count() + expr_allocs(*ast.expression) + 1
                <= u32::MAX,
        ensures
            self.lower_post(*old(ctx), *final(ctx), *old(types), *final(types), *signatures),
            ({
                let (s1, outcome) = lowered_return(
                    *self,
                    *signatures,
                    lower_state(*old(ctx), *old(types)),
                    *ast,
                );
                lower_state(*final(ctx), *final(types)) == s1 && match r {
                    Ok(l) => outcome == Ok::<Lowered, ErrorKind>(l),
                    Err(e) => outcome == Err::<Lowered, ErrorKind>(e.spec_kind()),
                }
            }),
            final(ctx).builder.spec_registers().spec_count() <= old(ctx).builder.spec_registers().spec_count() + expr_allocs(*ast.expression) + 1,
            match r {
                Ok(l) => l is Return && self.lowered_ok(l, *final(ctx), *final(types), *signatures),
                Err(e) => e.spec_kind() != ErrorKind::MissingReturn,
            },
        decreases *ast,
    {
        let ghost ctx0 = *ctx;
        let ghost t0 = *types;
        let value = match self.compile_expression(ctx, types, signatures, &ast.expression) {
            Ok(Lowered::Value(v)) => v,
            Ok(Lowered::Return) => {
                return Ok(Lowered::Return);
            },
            Err(e) => {
                return Err(e);
            },
        };
        let ghost ctx1 = *ctx;
        let register = match self.compile_value(ctx, value) {
            Ok(register) => register,
            Err(e) => {
                proof {
                    lemma_frame_trans(ctx0, ctx1, *ctx);
                    lemma_ctx_grow(
                        self,
                        ctx1,
                        *ctx,
                        types.spec_types(),
                        types.spec_types(),
                        signatures.spec_signatures(),
                    );
                }
                return Err(e);
            },
        };
        let ghost ctx2 = *ctx;
        proof {
            lemma_frame_trans(ctx0, ctx1, ctx2);
            lemma_ctx_grow(
                self,
                ctx1,
                ctx2,
                types.spec_types(),
                types.spec_types(),
                signatures.spec_signatures(),
            );
        }
        let same = value.ty == ctx.return_type;
        if !same {
            return Err(
                Error::new(
                    ErrorKind::TypeMismatch,
                    "the returned value does not have the declared return type".to_owned(),
                ),
            );
        }
        ctx.ins().ret(register);
        proof {
            lemma_frame_trans(ctx0, ctx2, *ctx);
            lemma_ctx_grow(
                self,
                ctx2,
                *ctx,
                types.spec_types(),
                types.spec_types(),
                signatures.spec_signatures(),
            );
        }
        Ok(Lowered::Return)
    }

    /// Lowers one expression, dispatching on its kind.
    pub fn compile_expression(
        &self,
        ctx: &mut FunctionContext,
        types: &mut Types,
        signatures: &FunctionSignatures,
        expression: &ast::Expression,
    ) -> (r: Result<Lowered, Error>)
        requires
            self.lower_pre(*old(ctx), *old(types), *signatures),
            old(ctx).builder.spec_registers().spec_count() + expr_allocs(*expression)
                <= u32::MAX,
        ensures
            self.lower_post(*old(ctx), *final(ctx), *old(types), *final(types), *signatures),
            ({
                let (s1, outcome) = lowered_expr(
                    *self,
                    *signatures,
                    lower_state(*old(ctx), *old(types)),
                    *expression,
                );
                lower_state(*final(ctx), *final(types)) == s1 && match r {
                    Ok(l) => outcome == Ok::<Lowered, ErrorKind>(l),
                    Err(e) => outcome == Err::<Lowered, ErrorKind>(e.spec_kind()),
                }
            }),
            final(ctx).builder.spec_registers().spec_count() <= old(ctx).builder.spec_registers().spec_count() + expr_allocs(*expression),
            match r {
                Ok(l) => self.lowered_ok(l, *final(ctx), *final(types), *signatures),
                Err(e) => e.spec_kind() != ErrorKind::MissingReturn,
            },
        decreases *expression,
    {
        match expression {
            ast::Expression::Paren(paren) => self.compile_paren(ctx, types, signatures, paren),
            ast::Expression::Literal(literal) => {
                let ghost s0 = lower_state(*old(ctx), *old(types));
                match self.compile_literal(ctx, literal) {
                    Ok(v) => {
                        proof {
                            lemma_ctx_grow(
                                self,
                                *old(ctx),
                                *ctx,
                                types.spec_types(),
                                types.spec_types(),
                                signatures.spec_signatures(),
                            );
                            let (e1, out) = lowered_literal(s0.emit, *literal);
                            assert(lower_state(*ctx, *types) =~= with_emit(s0, e1));
                        }
                        Ok(Lowered::Value(v))
                    },
                    Err(e) => {
                        proof {
                            let (e1, out) = lowered_literal(s0.emit, *literal);
                            assert(lower_state(*ctx, *types) =~= with_emit(s0, e1));
                        }
                        Err(e)
                    },
                }
            },
            ast::Expression::Path(path) => {
                match self.compile_path(ctx, path) {
                    Ok(v) => {
                        proof {
                            match path_variable(*path, variables_view(ctx.variables@)) {
                                Some(var) => {
                                    lemma_lookup_variable_in(variables_view(ctx.variables@), var);
                                    let j = choose|j: int|
                                        0 <= j < variables_view(ctx.variables@).len()
                                            && variables_view(ctx.variables@)[j] == var;
                                    assert(variables_view(ctx.variables@)[j] == variable_view(
                                        ctx.variables@[j],
                                    ));
                                },
                                None => {},
                            }
                            assert(lower_state(*ctx, *types) =~= lower_state(
                                *old(ctx),
                                *old(types),
                            ));
                        }
                        Ok(Lowered::Value(v))
                    },
                    Err(e) => {
                        proof {
                            assert(lower_state(*ctx, *types) =~= lower_state(
                                *old(ctx),
                                *old(types),
                            ));
                        }
                        Err(e)
                    },
                }
            },
            ast::Expression::Call(call) => self.compile_call(ctx, types, signatures, call),
            ast::Expression::Unary(unary) => self.compile_unary(ctx, types, signatures, unary),
            ast::Expression::Binary(binary) => self.compile_binary(ctx, types, signatures, binary),
            ast::Expression::Return(ret) => self.compile_return(ctx, types, signatures, ret),
        }
    }
}

impl FunctionContext {
    /// What lowering one statement never touches: the current block, the
    /// module and the return type; the bindings and stack slots only grow,
    /// the instruction list only grows, and the register counter never
    /// shrinks.
    pub open spec fn stmt_frame(&self, post: FunctionContext) -> bool {
        &&& post.module == self.module
        &&& post.block == self.block
        &&& post.return_type == self.return_type
        &&& self.builder.spec_instructions().is_prefix_of(post.builder.spec_instructions())
        &&& self.builder.spec_registers().spec_count() <= post.builder.spec_registers().spec_count()
        &&& self.variables@.is_prefix_of(post.variables@)
        &&& self.stack.spec_slots().is_prefix_of(post.stack.spec_slots())
    }
}

/// How many registers a `let` statement may allocate: those of its
/// initializer plus one for the store.
pub open spec fn let_allocs(l: ast::LetStatement) -> nat {
    match l.value {
        Some(v) => expr_allocs(v.expression) + 1,
        None => 0,
    }
}

impl FunctionCompiler {
    /// Everything lowering a statement guarantees about the state it
    /// leaves behind, whatever its outcome.
    pub open spec fn stmt_post(
        &self,
        ctx0: FunctionContext,
        ctx1: FunctionContext,
        t0: Types,
        t1: Types,
        signatures: FunctionSignatures,
    ) -> bool {
        &&& self.lower_pre(ctx1, t1, signatures)
        &&& t0.spec_types().is_prefix_of(t1.spec_types())
        &&& t0.spec_structs() == t1.spec_structs()
        &&& ctx0.stmt_frame(ctx1)
    }

    /// Lowers a `let` statement. An initializer is lowered first and, when
    /// a type annotation is also present, must have exactly the annotated
    /// type; without an initializer the annotation is mandatory. One fresh
    /// stack slot backs the binding, and the binding is appended to the
    /// function-flat binding list, shadowing earlier bindings of the same
    /// name; bindings are never removed.
    pub fn compile_let(
        &self,
        ctx: &mut FunctionContext,
        types: &mut Types,
        signatures: &FunctionSignatures,
        ast: &ast::LetStatement,
    ) -> (r: Result<ControlFlow, Error>)
        requires
            self.lower_pre(*old(ctx), *old(types), *signatures),
            old(ctx).builder.spec_registers().spec_count() + let_allocs(*ast) <= u32::MAX,
        ensures
            self.stmt_post(*old(ctx), *final(ctx), *old(types), *final(types), *signatures),
            ({
                let (s1, outcome) = lowered_let(
                    *self,
                    *signatures,
                    lower_state(*old(ctx), *old(types)),
                    *ast,
                );
                lower_state(*final(ctx), *final(types)) == s1 && match r {
                    Ok(flow) => outcome == Ok::<ControlFlow, ErrorKind>(flow),
                    Err(e) => outcome == Err::<ControlFlow, ErrorKind>(e.spec_kind()),
                }
            }),
            final(ctx).builder.spec_registers().spec_count() <= old(ctx).builder.spec_registers().spec_count() + let_allocs(*ast),
            ast.value is None && ast.ty is None ==> r is Err,
            match r {
                Ok(flow) => match flow {
                    ControlFlow::Continue => {
                        &&& final(ctx).variables@.len() == old(ctx).variables@.len() + 1
                        &&& variables_view(final(ctx).variables@).last().name == ast.ident@
                        &&& final(ctx).variables@.last().stack_slot == (StackSlot(
                            old(ctx).stack.spec_slots().len() as usize,
                        ))
                        &&& final(ctx).stack.spec_slots().len() == old(ctx).stack.spec_slots().len() + 1
                        &&& final(ctx).stack.spec_slots().last().ty.0 < final(types).spec_types().len()
                        &&& final(types).spec_types()[final(ctx).stack.spec_slots().last().ty.0 as int] == final(ctx).variables@.last().ty
                        &&& (ast.value is None ==> match ast.ty {
                            Some(annotation) => crate::compiler::declarations::resolved_type(
                                old(types).spec_types(),
                                annotation.ty,
                            ) == Ok::<Type, ErrorKind>(final(ctx).variables@.last().ty),
                            None => false,
                        })
                    },
                    ControlFlow::Return => {
                        &&& final(ctx).variables@ == old(ctx).variables@
                        &&& final(ctx).stack == old(ctx).stack
                        &&& ast.value is Some
                        &&& final(ctx).builder.spec_instructions().len() > 0
                        &&& final(ctx).builder.spec_instructions().last() is Return
                    },
                },
                Err(e) => e.spec_kind() != ErrorKind::MissingReturn,
            },
    {
        let ghost ctx0 = *ctx;
        let ghost t0 = *types;
        let (value_opt, ty): (Option<Value>, Type) = match &ast.value {
            Some(initializer) => {
                let value = match self.compile_expression(
                    ctx,
                    types,
                    signatures,
                    &initializer.expression,
                ) {
                    Ok(Lowered::Value(v)) => v,
                    Ok(Lowered::Return) => {
                        return Ok(ControlFlow::Return);
                    },
                    Err(e) => {
                        return Err(e);
                    },
                };
                match &ast.ty {
                    Some(annotation) => {
                        let ghost ctx1 = *ctx;
                        let ghost t1 = *types;
                        let annotated = match self.declarations.resolve_type(
                            types,
                            &annotation.ty,
                        ) {
                            Ok(annotated) => annotated,
                            Err(e) => {
                                proof {
                                    self.lemma_after_resolve(ctx1, *ctx, t1, *types, *signatures, annotation.ty);
                                    crate::compiler::functions::lemma_prefix_trans(
                                        t0.spec_types(),
                                        t1.spec_types(),
                                        types.spec_types(),
                                    );
                                    crate::compiler::functions::lemma_resolved_errors_unsupported(
                                        t1.spec_types(),
                                        annotation.ty,
                                    );
                                    assert(lower_state(*ctx, *types) =~= (LowerState {
                                        types: crate::compiler::declarations::resolved_types_table(
                                            t1.spec_types(),
                                            annotation.ty,
                                        ),
                                        ..lower_state(ctx1, t1)
                                    }));
                                }
                                return Err(e);
                            },
                        };
                        proof {
                            self.lemma_after_resolve(ctx1, *ctx, t1, *types, *signatures, annotation.ty);
                            crate::compiler::functions::lemma_prefix_trans(
                                t0.spec_types(),
                                t1.spec_types(),
                                types.spec_types(),
                            );
                            assert(lower_state(*ctx, *types) =~= (LowerState {
                                types: crate::compiler::declarations::resolved_types_table(
                                    t1.spec_types(),
                                    annotation.ty,
                                ),
                                ..lower_state(ctx1, t1)
                            }));
                        }
                        if !(value.ty == annotated) {
                            return Err(
                                Error::new(
                                    ErrorKind::TypeMismatch,
                                    "the value does not have the declared type".to_owned(),
                                ),
                            );
                        }
                    },
                    None => {},
                }
                (Some(value), value.ty)
            },
            None => {
                let annotation = match &ast.ty {
                    Some(annotation) => annotation,
                    None => {
                        return Err(
                            Error::new(
                                ErrorKind::TypeMismatch,
                                "a binding without a value needs a declared type".to_owned(),
                            ),
                        );
                    },
                };
                let ghost ctx1 = *ctx;
                let ghost t1 = *types;
                let ty = match self.declarations.resolve_type(types, &annotation.ty) {
                    Ok(ty) => ty,
                    Err(e) => {
                        proof {
                            self.lemma_after_resolve(ctx1, *ctx, t1, *types, *signatures, annotation.ty);
                            crate::compiler::functions::lemma_resolved_errors_unsupported(
                                t1.spec_types(),
                                annotation.ty,
                            );
                            assert(lower_state(*ctx, *types) =~= (LowerState {
                                types: crate::compiler::declarations::resolved_types_table(
                                    t1.spec_types(),
                                    annotation.ty,
                                ),
                                ..lower_state(ctx1, t1)
                            }));
                        }
                        return Err(e);
                    },
                };
                proof {
                    self.lemma_after_resolve(ctx1, *ctx, t1, *types, *signatures, annotation.ty);
                    assert(lower_state(*ctx, *types) =~= (LowerState {
                        types: crate::compiler::declarations::resolved_types_table(
                            t1.spec_types(),
                            annotation.ty,
                        ),
                        ..lower_state(ctx1, t1)
                    }));
                }
                (None, ty)
            },
        };
        proof {
            assert(type_valid(ty, types.spec_types().len(), signatures.spec_signatures().len()));
        }
        let ghost staged = lower_state(*ctx, *types);
        let ghost ctx2 = *ctx;
        let ghost t2 = *types;
        let type_id = types.get_type_id(&ty);
        proof {
            crate::compiler::functions::lemma_tables_wf_intern(
                t2.spec_types(),
                signatures.spec_signatures(),
                ty,
            );
            lemma_inv_grow(self, t2.spec_types(), types.spec_types(), signatures.spec_signatures());
            lemma_ctx_grow(
                self,
                ctx2,
                *ctx,
                t2.spec_types(),
                types.spec_types(),
                signatures.spec_signatures(),
            );
            crate::compiler::functions::lemma_prefix_trans(
                t0.spec_types(),
                t2.spec_types(),
                types.spec_types(),
            );
        }
        let stack_slot = ctx.stack.allocate(StackAllocation { ty: type_id });
        let name = ast.ident.clone();
        ctx.variables.push(FunctionVariable { ident: name, ty, stack_slot });
        let ghost ctx3 = *ctx;
        proof {
            lemma_variables_view_push(
                ctx2.variables@,
                FunctionVariable { ident: name, ty, stack_slot },
            );
            assert(lower_state(*ctx, *types) =~= (LowerState {
                stack: staged.stack.push(StackAllocation { ty: type_id }),
                variables: staged.variables.push(
                    VariableView { name: ast.ident@, ty, stack_slot },
                ),
                ..(LowerState {
                    types: crate::compiler::ty::interned_types(staged.types, ty),
                    ..staged
                })
            }));
            assert forall|i: int| 0 <= i < ctx3.variables@.len() implies type_valid(
                (#[trigger] ctx3.variables@[i]).ty,
                types.spec_types().len(),
                signatures.spec_signatures().len(),
            ) by {
                if i < ctx2.variables@.len() {
                    assert(ctx3.variables@[i] == ctx2.variables@[i]);
                }
            }
            assert(ctx2.variables@.is_prefix_of(ctx3.variables@)) by {
                assert(ctx3.variables@.take(ctx2.variables@.len() as int) =~= ctx2.variables@);
            }
            assert(ctx2.stack.spec_slots().is_prefix_of(ctx3.stack.spec_slots())) by {
                assert(ctx3.stack.spec_slots().take(ctx2.stack.spec_slots().len() as int)
                    =~= ctx2.stack.spec_slots());
            }
        }
        match value_opt {
            Some(value) => {
                let ghost ctx4 = *ctx;
                match self.stack_store_value(ctx, stack_slot, value) {
                    Ok(_) => {},
                    Err(e) => {
                        proof {
                            lemma_ctx_grow(
                                self,
                                ctx4,
                                *ctx,
                                types.spec_types(),
                                types.spec_types(),
                                signatures.spec_signatures(),
                            );
                        }
                        return Err(e);
                    },
                }
                ctx.free(value);
                proof {
                    lemma_ctx_grow(
                        self,
                        ctx4,
                        *ctx,
                        types.spec_types(),
                        types.spec_types(),
                        signatures.spec_signatures(),
                    );
                }
            },
            None => {},
        }
        Ok(ControlFlow::Continue)
    }

    /// Re-establishes every lowering invariant after one in-place type
    /// resolution.
    proof fn lemma_after_resolve(
        &self,
        ctx_pre: FunctionContext,
        ctx_post: FunctionContext,
        t_pre: Types,
        t_post: Types,
        signatures: FunctionSignatures,
        t: ast::Type,
    )
        requires
            self.lower_pre(ctx_pre, t_pre, signatures),
            ctx_post == ctx_pre,
            t_post.spec_types() == crate::compiler::declarations::resolved_types_table(
                t_pre.spec_types(),
                t,
            ),
            t_post.spec_structs() == t_pre.spec_structs(),
        ensures
            self.lower_pre(ctx_post, t_post, signatures),
            t_pre.spec_types().is_prefix_of(t_post.spec_types()),
            match crate::compiler::declarations::resolved_type(t_pre.spec_types(), t) {
                Ok(rt) => type_valid(
                    rt,
                    t_post.spec_types().len(),
                    signatures.spec_signatures().len(),
                ),
                Err(_) => true,
            },
    {
        crate::compiler::functions::lemma_resolved_table_wf(
            t_pre.spec_types(),
            signatures.spec_signatures(),
            t,
        );
        lemma_inv_grow(
            self,
            t_pre.spec_types(),
            t_post.spec_types(),
            signatures.spec_signatures(),
        );
        lemma_ctx_grow(
            self,
            ctx_pre,
            ctx_post,
            t_pre.spec_types(),
            t_post.spec_types(),
            signatures.spec_signatures(),
        );
    }

    /// Lowers one statement: a bare semicolon is inert, an expression
    /// statement discards its value, and a `let` statement declares a
    /// binding. Hands the control signal back to the statement loop.
    pub fn compile_statement(
        &self,
        ctx: &mut FunctionContext,
        types: &mut Types,
        signatures: &FunctionSignatures,
        statement: &ast::Statement,
    ) -> (r: Result<ControlFlow, Error>)
        requires
            self.lower_pre(*old(ctx), *old(types), *signatures),
            old(ctx).builder.spec_registers().spec_count() + stmt_allocs(*statement) <= u32::MAX,
        ensures
            self.stmt_post(*old(ctx), *final(ctx), *old(types), *final(types), *signatures),
            ({
                let (s1, outcome) = lowered_statement(
                    *self,
                    *signatures,
                    lower_state(*old(ctx), *old(types)),
                    *statement,
                );
                lower_state(*final(ctx), *final(types)) == s1 && match r {
                    Ok(flow) => outcome == Ok::<ControlFlow, ErrorKind>(flow),
                    Err(e) => outcome == Err::<ControlFlow, ErrorKind>(e.spec_kind()),
                }
            }),
            final(ctx).builder.spec_registers().spec_count() <= old(ctx).builder.spec_registers().spec_count() + stmt_allocs(*statement),
            match r {
                Ok(flow) => flow is Return ==> final(ctx).builder.spec_instructions().len() > 0
                    && final(ctx).builder.spec_instructions().last() is Return,
                Err(e) => e.spec_kind() != ErrorKind::MissingReturn,
            },
    {
        match statement {
            ast::Statement::Noop => {
                proof {
                    assert(old(ctx).variables@.is_prefix_of(ctx.variables@)) by {
                        assert(ctx.variables@.take(ctx.variables@.len() as int) =~= ctx.variables@);
                    }
                    assert(old(ctx).stack.spec_slots().is_prefix_of(ctx.stack.spec_slots())) by {
                        assert(ctx.stack.spec_slots().take(ctx.stack.spec_slots().len() as int)
                            =~= ctx.stack.spec_slots());
                    }
                    assert(old(ctx).builder.spec_instructions().is_prefix_of(
                        ctx.builder.spec_instructions(),
                    )) by {
                        assert(ctx.builder.spec_instructions().take(
                            ctx.builder.spec_instructions().len() as int,
                        ) =~= ctx.builder.spec_instructions());
                    }
                    assert(lower_state(*ctx, *types) =~= lower_state(*old(ctx), *old(types)));
                }
                Ok(ControlFlow::Continue)
            },
            ast::Statement::Expression(expression) => {
                match self.compile_expression(ctx, types, signatures, &expression.expression) {
                    Ok(Lowered::Value(value)) => {
                        let ghost ctx1 = *ctx;
                        let ghost t1 = *types;
                        ctx.free(value);
                        proof {
                            lemma_ctx_grow(
                                self,
                                ctx1,
                                *ctx,
                                types.spec_types(),
                                types.spec_types(),
                                signatures.spec_signatures(),
                            );
                            assert(lower_state(*ctx, *types) =~= with_emit(
                                lower_state(ctx1, t1),
                                released(emit_state(ctx1.builder), value),
                            ));
                        }
                        Ok(ControlFlow::Continue)
                    },
                    Ok(Lowered::Return) => Ok(ControlFlow::Return),
                    Err(e) => Err(e),
                }
            },
            ast::Statement::Let(let_statement) => self.compile_let(
                ctx,
                types,
                signatures,
                let_statement,
            ),
        }
    }
}

impl FunctionCompiler {
    /// Lowers one function: creates its entry block, runs its statements
    /// in order against a fresh per-function context, and stops at the
    /// first lowered return. A function whose declared return type is not
    /// void and whose statement sequence never lowered a return fails with
    /// `MissingReturn`.
    pub fn compile_function(
        &self,
        blocks: &mut Blocks,
        types: &mut Types,
        signatures: &FunctionSignatures,
        id: FunctionId,
    ) -> (r: Result<crate::ir::function::Function, Error>)
        requires
            self.inv(old(types).spec_types(), signatures.spec_signatures()),
            tables_wf(old(types).spec_types(), signatures.spec_signatures()),
            id.0 < self.declarations.functions@.len(),
            stmts_allocs(
                self.declarations.functions@[id.0 as int].ast.block.statements@,
                0,
            ) <= u32::MAX,
        ensures
            self.inv(final(types).spec_types(), signatures.spec_signatures()),
            tables_wf(final(types).spec_types(), signatures.spec_signatures()),
            old(types).spec_types().is_prefix_of(final(types).spec_types()),
            final(types).spec_structs() == old(types).spec_structs(),
            final(blocks).spec_blocks().len() == old(blocks).spec_blocks().len() + 1,
            final(blocks).spec_blocks().take(old(blocks).spec_blocks().len() as int) == old(blocks).spec_blocks(),
            ({
                let (sf, outcome) = lowered_function(
                    *self,
                    *signatures,
                    old(types).spec_types(),
                    id.0 as int,
                );
                &&& final(types).spec_types() == sf.types
                &&& match r {
                    Ok(f) => {
                        &&& outcome is Ok
                        &&& instructions_view(
                            final(blocks).spec_blocks()[old(blocks).spec_blocks().len() as int]
                                .spec_instructions(),
                        ) == sf.emit.emitted
                        &&& f.stack.spec_slots() == sf.stack
                    },
                    Err(e) => outcome == Err::<(), ErrorKind>(e.spec_kind()),
                }
            }),
            match r {
                Ok(f) => {
                    &&& f.signature == self.functions.functions@[id.0 as int].signature
                    &&& f.blocks@.len() == 1
                    &&& f.blocks@[0] == (BlockId(old(blocks).spec_blocks().len() as usize))
                    &&& match f.label {
                        Some(label) => label@ == self.declarations.functions@[id.0 as int]
                            .ast.ident@,
                        None => false,
                    }
                },
                Err(_) => true,
            },
    {
        let declaration = &self.declarations.functions[id.0];
        let function = &self.functions.functions[id.0];
        proof {
            assert(self.functions.functions@[id.0 as int].wf(
                types.spec_types(),
                signatures.spec_signatures(),
            ));
        }
        let return_type = types.get_type(function.return_type);
        proof {
            assert(type_valid(
                return_type,
                types.spec_types().len(),
                signatures.spec_signatures().len(),
            ));
        }
        let entry = blocks.create();
        let ghost blocks1 = *blocks;
        let mut ctx = FunctionContext {
            module: declaration.module,
            builder: InstructionBuilder::new(),
            block: entry,
            stack: Stack::new(),
            variables: Vec::new(),
            return_type,
        };
        let ghost s0g = lower_state(ctx, *types);
        proof {
            assert(s0g =~= (LowerState {
                types: old(types).spec_types(),
                emit: EmitState {
                    free: Seq::<u32>::empty(),
                    count: 0,
                    emitted: Seq::<InstructionView>::empty(),
                },
                stack: Seq::<StackAllocation>::empty(),
                variables: Seq::<VariableView>::empty(),
                module: self.declarations.functions@[id.0 as int].module,
                return_type: old(types).spec_types()[self.functions.functions@[id.0 as int]
                    .return_type.0 as int],
            }));
        }
        // Bind every argument to a stack slot of its own, in declaration
        // order, so that the body can name it; the slots come before any
        // slot a `let` statement allocates.
        let mut a: usize = 0;
        let n_args = function.arguments.len();
        while a < n_args
            invariant
                *types == *old(types),
                *blocks == blocks1,
                self.inv(types.spec_types(), signatures.spec_signatures()),
                tables_wf(types.spec_types(), signatures.spec_signatures()),
                id.0 < self.functions.functions@.len(),
                function.arguments@ == self.functions.functions@[id.0 as int].arguments@,
                n_args == function.arguments@.len(),
                a <= n_args,
                ctx.builder.wf(),
                ctx.builder.spec_registers().spec_count() == 0,
                ctx.module.0 < self.declarations.modules@.len(),
                ctx.block == entry,
                ctx.return_type == return_type,
                type_valid(
                    return_type,
                    types.spec_types().len(),
                    signatures.spec_signatures().len(),
                ),
                forall|j: int|
                    0 <= j < ctx.variables@.len() ==> type_valid(
                        (#[trigger] ctx.variables@[j]).ty,
                        types.spec_types().len(),
                        signatures.spec_signatures().len(),
                    ),
                bound_arguments(
                    s0g,
                    self.functions.functions@[id.0 as int].arguments@,
                    0,
                ) == bound_arguments(
                    lower_state(ctx, *types),
                    self.functions.functions@[id.0 as int].arguments@,
                    a as int,
                ),
            decreases n_args - a,
        {
            proof {
                assert(self.functions.functions@[id.0 as int].wf(
                    types.spec_types(),
                    signatures.spec_signatures(),
                ));
                assert((self.functions.functions@[id.0 as int].arguments@[a as int]).ty.0
                    < types.spec_types().len());
            }
            let ghost s_a = lower_state(ctx, *types);
            let ghost vars_a = ctx.variables@;
            let argument = &function.arguments[a];
            let ty = types.get_type(argument.ty);
            let stack_slot = ctx.stack.allocate(StackAllocation { ty: argument.ty });
            let name = argument.ident.clone();
            ctx.variables.push(FunctionVariable { ident: name, ty, stack_slot });
            proof {
                lemma_variables_view_push(
                    vars_a,
                    FunctionVariable { ident: name, ty, stack_slot },
                );
                assert(lower_state(ctx, *types) =~= (LowerState {
                    stack: s_a.stack.push(StackAllocation { ty: argument.ty }),
                    variables: s_a.variables.push(
                        VariableView { name: argument.ident@, ty, stack_slot },
                    ),
                    ..s_a
                }));
            }
            a += 1;
        }
        let ghost s1g = lower_state(ctx, *types);
        proof {
            assert(s1g == bound_arguments(
                s0g,
                self.functions.functions@[id.0 as int].arguments@,
                0,
            ));
        }
        let statements = declaration.ast.block.iter();
        let n = statements.len();
        let mut returned = false;
        let mut i: usize = 0;
        let ghost stmts = self.declarations.functions@[id.0 as int].ast.block.statements@;
        while i < n && !returned
            invariant
                self.lower_pre(ctx, *types, *signatures),
                statements@ == stmts,
                stmts == self.declarations.functions@[id.0 as int].ast.block.statements@,
                n == stmts.len(),
                i <= n,
                ctx.builder.spec_registers().spec_count() + stmts_allocs(stmts, i as int)
                    <= u32::MAX,
                old(types).spec_types().is_prefix_of(types.spec_types()),
                types.spec_structs() == old(types).spec_structs(),
                *blocks == blocks1,
                blocks.spec_blocks().len() == old(blocks).spec_blocks().len() + 1,
                blocks.spec_blocks().take(old(blocks).spec_blocks().len() as int) == old(blocks).spec_blocks(),
                entry.0 == old(blocks).spec_blocks().len(),
                ctx.return_type == return_type,
                id.0 < self.declarations.functions@.len(),
                self.functions.functions@.len() == self.declarations.functions@.len(),
                s0g == (LowerState {
                    types: old(types).spec_types(),
                    emit: EmitState {
                        free: Seq::<u32>::empty(),
                        count: 0,
                        emitted: Seq::<InstructionView>::empty(),
                    },
                    stack: Seq::<StackAllocation>::empty(),
                    variables: Seq::<VariableView>::empty(),
                    module: self.declarations.functions@[id.0 as int].module,
                    return_type: old(types).spec_types()[self.functions.functions@[id.0 as int]
                        .return_type.0 as int],
                }),
                s1g == bound_arguments(
                    s0g,
                    self.functions.functions@[id.0 as int].arguments@,
                    0,
                ),
                return_type == s0g.return_type,
                !returned ==> lowered_statements(*self, *signatures, s1g, stmts, 0)
                    == lowered_statements(
                    *self,
                    *signatures,
                    lower_state(ctx, *types),
                    stmts,
                    i as int,
                ),
                returned ==> lowered_statements(*self, *signatures, s1g, stmts, 0) == (
                    lower_state(ctx, *types),
                    Ok::<bool, ErrorKind>(true),
                ),
            decreases n - i,
        {
            let ghost t_i = *types;
            let ghost s_i = lower_state(ctx, *types);
            proof {
                assert(stmts_allocs(stmts, i as int) == stmt_allocs(stmts[i as int])
                    + stmts_allocs(stmts, i + 1));
            }
            match self.compile_statement(&mut ctx, types, signatures, &statements[i]) {
                Ok(ControlFlow::Continue) => {},
                Ok(ControlFlow::Return) => {
                    returned = true;
                },
                Err(e) => {
                    proof {
                        crate::compiler::functions::lemma_prefix_trans(
                            old(types).spec_types(),
                            t_i.spec_types(),
                            types.spec_types(),
                        );
                        assert(lowered_statements(*self, *signatures, s1g, stmts, 0) == (
                            lower_state(ctx, *types),
                            Err::<bool, ErrorKind>(e.spec_kind()),
                        ));
                    }
                    return Err(e);
                },
            }
            proof {
                crate::compiler::functions::lemma_prefix_trans(
                    old(types).spec_types(),
                    t_i.spec_types(),
                    types.spec_types(),
                );
            }
            i += 1;
        }
        let ghost s_end = lower_state(ctx, *types);
        proof {
            if !returned {
                assert(lowered_statements(*self, *signatures, s1g, stmts, 0) == (
                    s_end,
                    Ok::<bool, ErrorKind>(false),
                ));
            }
        }
        if !returned {
            let is_void = match ctx.return_type {
                Type::Void => true,
                _ => false,
            };
            if !is_void {
                return Err(
                    Error::new(
                        ErrorKind::MissingReturn,
                        "a function with a return type must return".to_owned(),
                    ),
                );
            }
        }
        let label = declaration.ast.ident.string().clone();
        let FunctionContext { builder, stack, .. } = ctx;
        let block = builder.into_block();
        blocks.set(entry, block);
        proof {
            assert(instructions_view(
                blocks.spec_blocks()[entry.0 as int].spec_instructions(),
            ) == s_end.emit.emitted);
            assert(stack.spec_slots() == s_end.stack);
        }
        proof {
            assert(blocks.spec_blocks().take(old(blocks).spec_blocks().len() as int) == old(blocks).spec_blocks()) by {
                assert(blocks.spec_blocks().take(old(blocks).spec_blocks().len() as int)
                    =~= old(blocks).spec_blocks());
            }
        }
        let mut block_ids: Vec<BlockId> = Vec::new();
        block_ids.push(entry);
        Ok(
            crate::ir::function::Function {
                label: Some(label),
                signature: function.signature,
                blocks: block_ids,
                stack,
            },
        )
    }

    /// Lowers every collected function, in id order. The whole table is
    /// lowered or the first failure aborts the compilation.
    pub fn compile_program(
        &self,
        blocks: &mut Blocks,
        types: &mut Types,
        signatures: &FunctionSignatures,
    ) -> (r: Result<crate::ir::function::Functions, Error>)
        requires
            self.inv(old(types).spec_types(), signatures.spec_signatures()),
            tables_wf(old(types).spec_types(), signatures.spec_signatures()),
            forall|i: int|
                0 <= i < self.declarations.functions@.len() ==> stmts_allocs(
                    (#[trigger] self.declarations.functions@[i]).ast.block.statements@,
                    0,
                ) <= u32::MAX,
        ensures
            self.inv(final(types).spec_types(), signatures.spec_signatures()),
            tables_wf(final(types).spec_types(), signatures.spec_signatures()),
            old(types).spec_types().is_prefix_of(final(types).spec_types()),
            final(types).spec_structs() == old(types).spec_structs(),
            self.declarations.functions@.len() == 0 ==> r is Ok,
            ({
                let (tf, outcome) = lowered_functions(
                    *self,
                    *signatures,
                    old(types).spec_types(),
                    0,
                );
                &&& final(types).spec_types() == tf
                &&& match r {
                    Ok(_) => outcome is Ok,
                    Err(e) => outcome == Err::<(), ErrorKind>(e.spec_kind()),
                }
            }),
            match r {
                Ok(functions) => {
                    &&& functions.spec_entries().len() == self.declarations.functions@.len()
                    &&& final(blocks).spec_blocks().len() == old(blocks).spec_blocks().len()
                        + self.declarations.functions@.len()
                    &&& forall|i: int|
                        0 <= i < functions.spec_entries().len() ==> {
                            &&& (#[trigger] functions.spec_entries()[i]).0 == (FunctionId(
                                i as usize,
                            ))
                            &&& functions.spec_entries()[i].1.signature
                                == self.functions.functions@[i].signature
                            &&& functions.spec_entries()[i].1.blocks@.len() == 1
                            &&& functions.spec_entries()[i].1.blocks@[0] == (BlockId(
                                (old(blocks).spec_blocks().len() + i) as usize,
                            ))
                            &&& instructions_view(
                                final(blocks).spec_blocks()[old(blocks).spec_blocks().len()
                                    + i].spec_instructions(),
                            ) == lowered_function(
                                *self,
                                *signatures,
                                lowered_types_before(
                                    *self,
                                    *signatures,
                                    old(types).spec_types(),
                                    i,
                                ),
                                i,
                            ).0.emit.emitted
                            &&& functions.spec_entries()[i].1.stack.spec_slots()
                                == lowered_function(
                                *self,
                                *signatures,
                                lowered_types_before(
                                    *self,
                                    *signatures,
                                    old(types).spec_types(),
                                    i,
                                ),
                                i,
                            ).0.stack
                        }
                },
                Err(_) => true,
            },
    {
        let mut functions = crate::ir::function::Functions::new();
        let n = self.declarations.functions.len();
        let mut i: usize = 0;
        while i < n
            invariant
                self.inv(types.spec_types(), signatures.spec_signatures()),
                tables_wf(types.spec_types(), signatures.spec_signatures()),
                forall|k: int|
                    0 <= k < self.declarations.functions@.len() ==> stmts_allocs(
                        (#[trigger] self.declarations.functions@[k]).ast.block.statements@,
                        0,
                    ) <= u32::MAX,
                n == self.declarations.functions@.len(),
                i <= n,
                old(types).spec_types().is_prefix_of(types.spec_types()),
                types.spec_structs() == old(types).spec_structs(),
                blocks.spec_blocks().len() == old(blocks).spec_blocks().len() + i,
                functions.spec_entries().len() == i,
                lowered_functions(*self, *signatures, old(types).spec_types(), 0)
                    == lowered_functions(*self, *signatures, types.spec_types(), i as int),
                types.spec_types() == lowered_types_before(
                    *self,
                    *signatures,
                    old(types).spec_types(),
                    i as int,
                ),
                forall|k: int|
                    0 <= k < i ==> lowered_function(
                        *self,
                        *signatures,
                        lowered_types_before(*self, *signatures, old(types).spec_types(), k),
                        k,
                    ).1 is Ok,
                forall|k: int|
                    0 <= k < i ==> instructions_view(
                        #[trigger] blocks.spec_blocks()[old(blocks).spec_blocks().len()
                            + k].spec_instructions(),
                    ) == lowered_function(
                        *self,
                        *signatures,
                        lowered_types_before(*self, *signatures, old(types).spec_types(), k),
                        k,
                    ).0.emit.emitted,
                forall|k: int|
                    0 <= k < i ==> (#[trigger] functions.spec_entries()[k]).1.stack.spec_slots()
                        == lowered_function(
                        *self,
                        *signatures,
                        lowered_types_before(*self, *signatures, old(types).spec_types(), k),
                        k,
                    ).0.stack,
                forall|k: int|
                    0 <= k < i ==> {
                        &&& (#[trigger] functions.spec_entries()[k]).0 == (FunctionId(k as usize))
                        &&& functions.spec_entries()[k].1.signature
                            == self.functions.functions@[k].signature
                        &&& functions.spec_entries()[k].1.blocks@.len() == 1
                        &&& functions.spec_entries()[k].1.blocks@[0] == (BlockId(
                            (old(blocks).spec_blocks().len() + k) as usize,
                        ))
                    },
            decreases n - i,
        {
            let ghost t_i = *types;
            let ghost b_i = *blocks;
            let function = match self.compile_function(blocks, types, signatures, FunctionId(i)) {
                Ok(function) => function,
                Err(e) => {
                    proof {
                        crate::compiler::functions::lemma_prefix_trans(
                            old(types).spec_types(),
                            t_i.spec_types(),
                            types.spec_types(),
                        );
                    }
                    return Err(e);
                },
            };
            functions.insert(FunctionId(i), function);
            proof {
                crate::compiler::functions::lemma_prefix_trans(
                    old(types).spec_types(),
                    t_i.spec_types(),
                    types.spec_types(),
                );
                assert(forall|k: int|
                    0 <= k < b_i.spec_blocks().len() ==> #[trigger] blocks.spec_blocks()[k]
                        == b_i.spec_blocks()[k]);
            }
            i += 1;
        }
        Ok(functions)
    }
}

/// Shadowing: after two bindings of one name are declared, in order, any
/// lookup of that name finds the second one, whatever was bound before and
/// whatever the two bindings hold.
pub proof fn lemma_shadowing(vars: Seq<VariableView>, first: VariableView, second: VariableView)
    requires
        first.name == second.name,
    ensures
        lookup_variable(vars.push(first).push(second), first.name) == Some(second),
{
    assert(vars.push(first).push(second).last() == second);
}

/// A found binding is one of the bindings of the list.
pub proof fn lemma_lookup_variable_in(s: Seq<VariableView>, var: VariableView)
    ensures
        forall|name: Seq<char>|
            #[trigger] lookup_variable(s, name) == Some(var) ==> exists|j: int|
                0 <= j < s.len() && s[j] == var,
    decreases s.len(),
{
    if s.len() > 0 {
        lemma_lookup_variable_in(s.drop_last(), var);
        assert forall|name: Seq<char>| #[trigger] lookup_variable(s, name) == Some(var) implies
            exists|j: int| 0 <= j < s.len() && s[j] == var by {
            if s.last().name == name {
                assert(s[s.len() - 1] == var);
            } else {
                assert(lookup_variable(s.drop_last(), name) == Some(var));
                let j = choose|j: int| 0 <= j < s.drop_last().len() && s.drop_last()[j] == var;
                assert(s[j] == var);
            }
        }
    }
}

/// Finds the most recent binding with the given name.
fn find_variable(variables: &Vec<FunctionVariable>, name: &Ident) -> (r: Option<(Type, StackSlot)>)
    ensures
        match r {
            Some(p) => lookup_variable(variables_view(variables@), name@) matches Some(v) && v.ty
                == p.0 && v.stack_slot == p.1,
            None => lookup_variable(variables_view(variables@), name@) is None,
        },
{
    let ghost views = variables_view(variables@);
    let mut i: usize = variables.len();
    proof {
        assert(views.take(i as int) == views);
    }
    while i > 0
        invariant
            views == variables_view(variables@),
            views.len() == variables@.len(),
            i <= variables@.len(),
            lookup_variable(views, name@) == lookup_variable(views.take(i as int), name@),
        decreases i,
    {
        i -= 1;
        proof {
            assert(views[i as int] == variable_view(variables@[i as int]));
        }
        if variables[i].ident == *name {
            proof {
                assert(views.take(i + 1).last() == views[i as int]);
            }
            return Some((variables[i].ty, variables[i].stack_slot));
        }
        proof {
            assert(views.take(i + 1).drop_last() == views.take(i as int));
        }
    }
    None
}

} // verus!
