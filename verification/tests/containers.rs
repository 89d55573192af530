use fernc::ast::punctuated::Punctuated;
use fernc::ast::token::Comma;
use fernc::id::{BlockId, FunctionId, FunctionSignatureId};
use fernc::ir::block::{Block, Blocks};
use fernc::ir::function::{Function, Functions};
use fernc::ir::instruction::Instruction;
use fernc::ir::stack::Stack;

#[test]
fn punctuated_keeps_items_and_punctuation() {
    let mut list: Punctuated<u32, Comma> = Punctuated::new();
    assert_eq!(list.len(), 0);
    assert!(list.last().is_none());
    list.push(10, Comma);
    list.push(20, Comma);
    assert_eq!(list.len(), 2);
    assert_eq!(list.last(), Some(&20));
    assert_eq!(list.iter().as_slice(), &[10, 20]);
    assert_eq!(list.iter_punct().len(), 2);
    assert_eq!(*list.get(1), 20);
}

#[test]
fn blocks_hand_out_dense_ids() {
    let mut blocks = Blocks::new();
    let a = blocks.create();
    let b = blocks.create();
    assert_eq!(a, BlockId(0));
    assert_eq!(b, BlockId(1));
    blocks.push(a, Instruction::Noop);
    assert_eq!(blocks.get(a).unwrap().instructions().len(), 1);
    assert_eq!(blocks.get(b).unwrap().instructions().len(), 0);
    assert!(blocks.get(BlockId(2)).is_none());
    let mut replacement = Block::new();
    replacement.push(Instruction::Noop);
    replacement.push(Instruction::Noop);
    blocks.set(b, replacement);
    assert_eq!(blocks.get(b).unwrap().instructions().len(), 2);
}

#[test]
fn function_table_insert_supersedes_earlier_entries() {
    let mut functions = Functions::new();
    let first = Function {
        label: Some("one".to_string()),
        signature: FunctionSignatureId(0),
        blocks: vec![BlockId(0)],
        stack: Stack::new(),
    };
    let second = Function {
        label: Some("two".to_string()),
        signature: FunctionSignatureId(1),
        blocks: vec![BlockId(1)],
        stack: Stack::new(),
    };
    functions.insert(FunctionId(3), first);
    functions.insert(FunctionId(3), second);
    let found = functions.get(FunctionId(3)).unwrap();
    assert_eq!(found.label.as_ref().unwrap().as_str(), "two");
    assert!(functions.get(FunctionId(0)).is_none());
}
