use vstd::prelude::*;

use crate::id::TypeId;

verus! {

/// A function-local addressable storage location, distinct from a register.
/// Slots are numbered in allocation order, starting at zero, and never
/// reclaimed within one function.
#[derive(Clone, Copy, Debug, PartialEq, Eq, Structural, Hash)]
pub struct StackSlot(pub usize);

impl StackSlot {
    pub fn to_usize(self) -> (r: usize)
        ensures
            r == self.0,
    {
        self.0
    }
}

/// What one stack slot holds: the type of the value stored there.
#[derive(Clone, Copy, Debug, PartialEq, Eq, Structural, Hash)]
pub struct StackAllocation {
    pub ty: TypeId,
}

/// The stack-slot table of one function.
#[derive(Clone, Debug)]
pub struct Stack {
    slots: Vec<StackAllocation>,
}

impl Stack {
    /// The allocations in slot order.
    pub closed spec fn spec_slots(&self) -> Seq<StackAllocation> {
        self.slots@
    }

    pub fn new() -> (r: Self)
        ensures
            r.spec_slots() == Seq::<StackAllocation>::empty(),
    {
        Stack { slots: Vec::new() }
    }

    /// Hands out the next slot id: the number of allocations made so far.
    /// `n` allocations in a row therefore receive slots `0 .. n-1`, in call
    /// order, whatever their types.
    pub fn allocate(&mut self, allocation: StackAllocation) -> (r: StackSlot)
        ensures
            r.0 == old(self).spec_slots().len(),
            final(self).spec_slots() == old(self).spec_slots().push(allocation),
    {
        let slot = StackSlot(self.slots.len());
        self.slots.push(allocation);
        slot
    }

    pub fn get(&self, slot: StackSlot) -> (r: Option<&StackAllocation>)
        ensures
            match r {
                Some(allocation) => slot.0 < self.spec_slots().len() && *allocation
                    == self.spec_slots()[slot.0 as int],
                None => slot.0 >= self.spec_slots().len(),
            },
    {
        if slot.0 < self.slots.len() {
            Some(&self.slots[slot.0])
        } else {
            None
        }
    }
}

} // verus!
