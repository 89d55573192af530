use fernc::compiler::functions::{FunctionSignature, FunctionSignatures};
use fernc::compiler::ty::{Type, Types};
use fernc::ir::memory::MemoryType;

#[test]
fn intern_type_is_idempotent() {
    let mut types = Types::new();
    let first = types.get_type_id(&Type::Memory(MemoryType::I32));
    let second = types.get_type_id(&Type::Memory(MemoryType::I32));
    assert_eq!(first, second);
}

#[test]
fn intern_type_round_trips() {
    let mut types = Types::new();
    let id = types.get_type_id(&Type::Memory(MemoryType::U8));
    assert_eq!(types.get_type(id), Type::Memory(MemoryType::U8));
    let reference = types.get_type_id(&Type::Reference(id));
    assert_eq!(types.get_type(reference), Type::Reference(id));
}

#[test]
fn intern_type_distinct_values_distinct_ids() {
    let mut types = Types::new();
    let a = types.get_type_id(&Type::Memory(MemoryType::I32));
    let b = types.get_type_id(&Type::Memory(MemoryType::U32));
    let c = types.get_type_id(&Type::Void);
    assert_ne!(a, b);
    assert_ne!(a, c);
    assert_ne!(b, c);
}

#[test]
fn intern_signature_is_idempotent() {
    let mut types = Types::new();
    let i32_id = types.get_type_id(&Type::Memory(MemoryType::I32));
    let mut signatures = FunctionSignatures::new();
    let signature = FunctionSignature { arguments: vec![i32_id, i32_id], return_type: i32_id };
    let first = signatures.get_id(signature.clone());
    let second = signatures.get_id(signature.clone());
    assert_eq!(first, second);
}

#[test]
fn intern_signature_round_trips() {
    let mut types = Types::new();
    let i32_id = types.get_type_id(&Type::Memory(MemoryType::I32));
    let void_id = types.get_type_id(&Type::Void);
    let mut signatures = FunctionSignatures::new();
    let signature = FunctionSignature { arguments: vec![i32_id], return_type: void_id };
    let id = signatures.get_id(signature.clone());
    assert_eq!(signatures.get_signature(id), &signature);
}

#[test]
fn intern_signature_distinct_shapes_distinct_ids() {
    let mut types = Types::new();
    let i32_id = types.get_type_id(&Type::Memory(MemoryType::I32));
    let u32_id = types.get_type_id(&Type::Memory(MemoryType::U32));
    let mut signatures = FunctionSignatures::new();
    let a = signatures.get_id(FunctionSignature { arguments: vec![i32_id], return_type: i32_id });
    let b = signatures.get_id(FunctionSignature { arguments: vec![u32_id], return_type: i32_id });
    let c = signatures.get_id(FunctionSignature { arguments: vec![], return_type: i32_id });
    assert_ne!(a, b);
    assert_ne!(a, c);
    assert_ne!(b, c);
}
