use fernc::id::TypeId;
use fernc::ir::register::RegisterAllocator;
use fernc::ir::stack::{Stack, StackAllocation};

#[test]
fn register_reuses_lowest_freed_id() {
    let mut registers = RegisterAllocator::new();
    let first = registers.allocate();
    let second = registers.allocate();
    registers.free(first);
    let third = registers.allocate();
    assert_eq!(first.to_u32(), 0);
    assert_eq!(second.to_u32(), 1);
    assert_eq!(third.to_u32(), 0);
}

#[test]
fn register_grows_only_after_free_list_is_spent() {
    let mut registers = RegisterAllocator::new();
    let r0 = registers.allocate();
    let r1 = registers.allocate();
    let _r2 = registers.allocate();
    registers.free(r1);
    registers.free(r0);
    assert_eq!(registers.allocate().to_u32(), 0);
    assert_eq!(registers.allocate().to_u32(), 1);
    assert_eq!(registers.allocate().to_u32(), 3);
    assert_eq!(registers.count(), 4);
}

#[test]
fn register_freeing_twice_changes_nothing() {
    let mut registers = RegisterAllocator::new();
    let r0 = registers.allocate();
    let _r1 = registers.allocate();
    registers.free(r0);
    registers.free(r0);
    assert_eq!(registers.allocate().to_u32(), 0);
    assert_eq!(registers.allocate().to_u32(), 2);
}

#[test]
fn stack_slots_are_sequential_from_zero() {
    let mut stack = Stack::new();
    for i in 0..5 {
        let slot = stack.allocate(StackAllocation { ty: TypeId(i % 2) });
        assert_eq!(slot.to_usize(), i);
    }
}

#[test]
fn stack_get_returns_the_allocation() {
    let mut stack = Stack::new();
    let slot = stack.allocate(StackAllocation { ty: TypeId(7) });
    assert_eq!(stack.get(slot), Some(&StackAllocation { ty: TypeId(7) }));
    assert_eq!(stack.get(fernc::ir::stack::StackSlot(3)), None);
}
