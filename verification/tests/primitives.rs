use fernc::ast::expression::BinaryOperator;
use fernc::ast::token::{Ident, IntegerKind};
use fernc::ir::instruction::{Instruction, Opcode};
use fernc::ir::memory::{Immediate, MemoryType};
use fernc::ir::register::Register;
use fernc::source::SourceId;
use fernc::span::{Span, Spanned};

#[test]
fn span_merge_covers_both_ranges() {
    let a = Span::new(SourceId::null(), 4, 6);
    let b = Span::new(SourceId::null(), 8, 7);
    let merged = a.merge(b);
    assert_eq!(merged.index(), 4);
    assert_eq!(merged.end(), 15);
    let merged = b.merge(a);
    assert_eq!(merged.index(), 4);
    assert_eq!(merged.end(), 15);
    assert_eq!(a.span(), a);
    assert_eq!(Span::null().length(), 0);
}

#[test]
fn idents_compare_by_name_not_by_location() {
    let a = Ident::new("x".to_string(), Span::null());
    let b = Ident::new("x".to_string(), Span::new(SourceId::null(), 5, 1));
    let c = Ident::new("y".to_string(), Span::null());
    assert_eq!(a, b);
    assert_ne!(a, c);
}

#[test]
fn immediate_round_trips_signed_values() {
    assert_eq!(Immediate::from_i32(5).to_u64(), 5);
    assert_eq!(Immediate::from_i32(-1).to_u64(), 0xFFFF_FFFF);
    assert_eq!(Immediate::from_i32(-1).to_i32(), -1);
    assert_eq!(Immediate::from_i32(i32::MIN).to_i32(), i32::MIN);
    assert_eq!(Immediate::from_u64(7).to_u64(), 7);
    assert_eq!(Immediate::zero().to_u64(), 0);
}

#[test]
fn memory_type_sizes() {
    assert_eq!(MemoryType::U8.size(8), 1);
    assert_eq!(MemoryType::I16.size(8), 2);
    assert_eq!(MemoryType::U32.size(8), 4);
    assert_eq!(MemoryType::I64.size(8), 8);
    assert_eq!(MemoryType::Usize.size(8), 8);
    assert_eq!(MemoryType::Usize.size(4), 4);
    assert_eq!(MemoryType::Bool.size(8), 4);
    assert!(MemoryType::I32.is_integer());
    assert!(!MemoryType::Bool.is_integer());
}

#[test]
fn opcodes_are_stable() {
    assert_eq!(Instruction::Noop.opcode(), Opcode(0));
    let r = Register(0);
    assert_eq!(
        Instruction::IConst { dst: r, imm: Immediate::zero(), ty: MemoryType::I32 }.opcode(),
        Opcode(1),
    );
    assert_eq!(
        Instruction::Call { dst: r, function: fernc::id::FunctionId(0), arguments: vec![] }
            .opcode(),
        Opcode(16),
    );
    assert_eq!(Instruction::Return { src: r }.opcode(), Opcode(18));
    assert_eq!(Instruction::Add { dst: r, lhs: r, rhs: r }.opcode(), Opcode(32));
    assert_eq!(Instruction::Sub { dst: r, lhs: r, rhs: r }.opcode(), Opcode(33));
    assert_eq!(Instruction::Mul { dst: r, lhs: r, rhs: r }.opcode(), Opcode(34));
    assert_eq!(Instruction::Div { dst: r, lhs: r, rhs: r }.opcode(), Opcode(35));
}

#[test]
fn operator_precedence_orders_as_documented() {
    assert_eq!(BinaryOperator::Mul.precedence(), 12);
    assert_eq!(BinaryOperator::Div.precedence(), 12);
    assert_eq!(BinaryOperator::Add.precedence(), 11);
    assert_eq!(BinaryOperator::Sub.precedence(), 11);
    assert_eq!(BinaryOperator::BitShiftLeft.precedence(), 10);
    assert_eq!(BinaryOperator::BitShiftRight.precedence(), 10);
    assert_eq!(BinaryOperator::LogicalAnd.precedence(), 4);
    assert_eq!(BinaryOperator::LogicalOr.precedence(), 3);
    assert_eq!(BinaryOperator::BinaryAnd.precedence(), 0);
    assert_eq!(BinaryOperator::BinaryOr.precedence(), 0);
}

#[test]
fn integer_kind_radix() {
    assert_eq!(IntegerKind::Binary.radix(), 2);
    assert_eq!(IntegerKind::Decimal.radix(), 10);
    assert_eq!(IntegerKind::Hex.radix(), 16);
}
