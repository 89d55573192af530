use vstd::prelude::*;

use crate::id::FunctionId;
use crate::ir::block::Block;
use crate::ir::memory::{Immediate, MemoryType};
use crate::ir::register::{insert_free, Register, RegisterAllocator};
use crate::ir::stack::StackSlot;

verus! {

/// The numeric discriminant of an instruction, as a target encoding would
/// carry it.
#[derive(Clone, Copy, Debug, PartialEq, Eq, Structural)]
pub struct Opcode(pub u8);

/// One instruction of the intermediate representation.
#[derive(Clone, Debug, PartialEq)]
pub enum Instruction {
    /// Does nothing.
    Noop,
    /// Loads an immediate constant of the given type into `dst`.
    IConst { dst: Register, imm: Immediate, ty: MemoryType },
    /// Calls `function` with the values of `arguments`; the result lands in
    /// `dst`.
    Call { dst: Register, function: FunctionId, arguments: Vec<Register> },
    /// Returns the value of `src` to the caller.
    Return { src: Register },
    Add { dst: Register, lhs: Register, rhs: Register },
    Sub { dst: Register, lhs: Register, rhs: Register },
    Mul { dst: Register, lhs: Register, rhs: Register },
    Div { dst: Register, lhs: Register, rhs: Register },
    /// Loads the address of `function` into `dst`.
    FuncAddr { dst: Register, function: FunctionId, ty: MemoryType },
    /// Loads a value of the given type from `slot` at `offset` into `dst`.
    StackLoad { dst: Register, slot: StackSlot, ty: MemoryType, offset: u32 },
    /// Stores the value of `src` into `slot` at `offset`.
    StackStore { src: Register, slot: StackSlot, ty: MemoryType, offset: u32 },
    /// Loads the address of `slot` into `dst`.
    StackAddr { dst: Register, slot: StackSlot, ty: MemoryType },
    /// Loads a value of the given type from the address in `src` into `dst`.
    Load { dst: Register, src: Register, ty: MemoryType, offset: u32 },
    /// Stores the value of `src` to the address in `dst`.
    Store { dst: Register, src: Register, ty: MemoryType, offset: u32 },
}

impl Instruction {
    /// The discriminant of the instruction.
    pub fn opcode(&self) -> (r: Opcode)
        ensures
            r == match *self {
                Instruction::Noop => Opcode(0),
                Instruction::IConst { .. } => Opcode(1),
                Instruction::Call { .. } => Opcode(16),
                Instruction::Return { .. } => Opcode(18),
                Instruction::Add { .. } => Opcode(32),
                Instruction::Sub { .. } => Opcode(33),
                Instruction::Mul { .. } => Opcode(34),
                Instruction::Div { .. } => Opcode(35),
                Instruction::FuncAddr { .. } => Opcode(48),
                Instruction::StackLoad { .. } => Opcode(64),
                Instruction::StackStore { .. } => Opcode(65),
                Instruction::StackAddr { .. } => Opcode(66),
                Instruction::Load { .. } => Opcode(72),
                Instruction::Store { .. } => Opcode(73),
            },
    {
        match self {
            Instruction::Noop => Opcode(0),
            Instruction::IConst { .. } => Opcode(1),
            Instruction::Call { .. } => Opcode(16),
            Instruction::Return { .. } => Opcode(18),
            Instruction::Add { .. } => Opcode(32),
            Instruction::Sub { .. } => Opcode(33),
            Instruction::Mul { .. } => Opcode(34),
            Instruction::Div { .. } => Opcode(35),
            Instruction::FuncAddr { .. } => Opcode(48),
            Instruction::StackLoad { .. } => Opcode(64),
            Instruction::StackStore { .. } => Opcode(65),
            Instruction::StackAddr { .. } => Opcode(66),
            Instruction::Load { .. } => Opcode(72),
            Instruction::Store { .. } => Opcode(73),
        }
    }
}


/// One instruction with its operands laid open for specifications: the
/// argument list of a call is a sequence rather than a vector, so that
/// specification-level code can build and compare emitted instructions.
#[verifier::ext_equal]
pub enum InstructionView {
    Noop,
    IConst { dst: Register, imm: Immediate, ty: MemoryType },
    Call { dst: Register, function: FunctionId, arguments: Seq<Register> },
    Return { src: Register },
    Add { dst: Register, lhs: Register, rhs: Register },
    Sub { dst: Register, lhs: Register, rhs: Register },
    Mul { dst: Register, lhs: Register, rhs: Register },
    Div { dst: Register, lhs: Register, rhs: Register },
    FuncAddr { dst: Register, function: FunctionId, ty: MemoryType },
    StackLoad { dst: Register, slot: StackSlot, ty: MemoryType, offset: u32 },
    StackStore { src: Register, slot: StackSlot, ty: MemoryType, offset: u32 },
    StackAddr { dst: Register, slot: StackSlot, ty: MemoryType },
    Load { dst: Register, src: Register, ty: MemoryType, offset: u32 },
    Store { dst: Register, src: Register, ty: MemoryType, offset: u32 },
}

/// What an instruction says, operand by operand.
pub open spec fn instruction_view(i: Instruction) -> InstructionView {
    match i {
        Instruction::Noop => InstructionView::Noop,
        Instruction::IConst { dst, imm, ty } => InstructionView::IConst { dst, imm, ty },
        Instruction::Call { dst, function, arguments } => InstructionView::Call {
            dst,
            function,
            arguments: arguments@,
        },
        Instruction::Return { src } => InstructionView::Return { src },
        Instruction::Add { dst, lhs, rhs } => InstructionView::Add { dst, lhs, rhs },
        Instruction::Sub { dst, lhs, rhs } => InstructionView::Sub { dst, lhs, rhs },
        Instruction::Mul { dst, lhs, rhs } => InstructionView::Mul { dst, lhs, rhs },
        Instruction::Div { dst, lhs, rhs } => InstructionView::Div { dst, lhs, rhs },
        Instruction::FuncAddr { dst, function, ty } => InstructionView::FuncAddr {
            dst,
            function,
            ty,
        },
        Instruction::StackLoad { dst, slot, ty, offset } => InstructionView::StackLoad {
            dst,
            slot,
            ty,
            offset,
        },
        Instruction::StackStore { src, slot, ty, offset } => InstructionView::StackStore {
            src,
            slot,
            ty,
            offset,
        },
        Instruction::StackAddr { dst, slot, ty } => InstructionView::StackAddr { dst, slot, ty },
        Instruction::Load { dst, src, ty, offset } => InstructionView::Load {
            dst,
            src,
            ty,
            offset,
        },
        Instruction::Store { dst, src, ty, offset } => InstructionView::Store {
            dst,
            src,
            ty,
            offset,
        },
    }
}

/// A whole instruction sequence, operand by operand.
pub open spec fn instructions_view(s: Seq<Instruction>) -> Seq<InstructionView> {
    s.map_values(|i: Instruction| instruction_view(i))
}

/// Appending an instruction appends its view.
pub proof fn lemma_instructions_view_push(s: Seq<Instruction>, i: Instruction)
    ensures
        instructions_view(s.push(i)) == instructions_view(s).push(instruction_view(i)),
{
    assert(instructions_view(s.push(i)) =~= instructions_view(s).push(instruction_view(i)));
}

/// Everything the builder accumulates, as one specification-level value:
/// the free list and counter of the register file, and the views of the
/// instructions emitted so far.
#[verifier::ext_equal]
pub struct EmitState {
    pub free: Seq<u32>,
    pub count: int,
    pub emitted: Seq<InstructionView>,
}

/// The accumulated state of a builder.
pub open spec fn emit_state(b: InstructionBuilder) -> EmitState {
    EmitState {
        free: b.spec_registers().spec_free(),
        count: b.spec_registers().spec_count() as int,
        emitted: instructions_view(b.spec_instructions()),
    }
}

/// Allocating a register: the lowest freed number leaves the free list, or
/// the counter grows by one.
pub open spec fn emit_alloc(s: EmitState) -> (EmitState, Register) {
    if s.free.len() > 0 {
        (EmitState { free: s.free.drop_first(), ..s }, Register(s.free[0]))
    } else {
        (EmitState { count: s.count + 1, ..s }, Register(s.count as u32))
    }
}

/// Emitting an instruction appends it.
pub open spec fn emit_push(s: EmitState, i: InstructionView) -> EmitState {
    EmitState { emitted: s.emitted.push(i), ..s }
}

/// Releasing a register returns it to the free list, in sorted position.
pub open spec fn emit_release(s: EmitState, r: Register) -> EmitState {
    EmitState { free: insert_free(s.free, r.0), ..s }
}

/// Emits instructions into one block, allocating the destination register of
/// each value-producing instruction from the function's register allocator.
#[derive(Debug)]
pub struct InstructionBuilder {
    pub(crate) register_allocator: RegisterAllocator,
    pub(crate) block: Block,
}

impl InstructionBuilder {
    /// The registers handed out so far.
    pub closed spec fn spec_registers(&self) -> RegisterAllocator {
        self.register_allocator
    }

    /// The instructions emitted so far.
    pub closed spec fn spec_instructions(&self) -> Seq<Instruction> {
        self.block.spec_instructions()
    }

    pub open spec fn wf(&self) -> bool {
        self.spec_registers().wf()
    }

    pub open spec fn can_allocate(&self) -> bool {
        self.spec_registers().can_allocate()
    }

    /// A builder with no instructions yet and a fresh register file.
    pub fn new() -> (r: Self)
        ensures
            r.spec_instructions() == Seq::<Instruction>::empty(),
            r.spec_registers().spec_free() == Seq::<u32>::empty(),
            r.spec_registers().spec_count() == 0,
            r.wf(),
            emit_state(r) == (EmitState {
                free: Seq::<u32>::empty(),
                count: 0,
                emitted: Seq::<InstructionView>::empty(),
            }),
    {
        let r = InstructionBuilder {
            register_allocator: RegisterAllocator::new(),
            block: Block::new(),
        };
        proof {
            assert(emit_state(r) =~= (EmitState {
                free: Seq::<u32>::empty(),
                count: 0,
                emitted: Seq::<InstructionView>::empty(),
            }));
        }
        r
    }

    /// Takes the finished block out of the builder.
    pub fn into_block(self) -> (r: Block)
        ensures
            r.spec_instructions() == self.spec_instructions(),
    {
        self.block
    }

    /// Returns `register` to the register file for reuse.
    pub fn free_register(&mut self, register: Register)
        requires
            old(self).wf(),
        ensures
            final(self).wf(),
            final(self).spec_instructions() == old(self).spec_instructions(),
            final(self).spec_registers().spec_count() == old(self).spec_registers().spec_count(),
            final(self).spec_registers().spec_free().to_set() == old(self).spec_registers().spec_free().to_set().insert(register.0),
            final(self).spec_registers().spec_free().len() <= old(self).spec_registers().spec_free().len() + 1,
            emit_state(*final(self)) == emit_release(emit_state(*old(self)), register),
    {
        self.register_allocator.free(register);
        proof {
            assert(emit_state(*self) =~= emit_release(emit_state(*old(self)), register));
        }
    }

    fn push(&mut self, instruction: Instruction)
        ensures
            final(self).spec_instructions() == old(self).spec_instructions().push(instruction),
            final(self).spec_registers() == old(self).spec_registers(),
            emit_state(*final(self)) == emit_push(
                emit_state(*old(self)),
                instruction_view(instruction),
            ),
    {
        self.block.push(instruction);
        proof {
            lemma_instructions_view_push(old(self).spec_instructions(), instruction);
            assert(emit_state(*self) =~= emit_push(
                emit_state(*old(self)),
                instruction_view(instruction),
            ));
        }
    }

    /// Takes a register without emitting anything, for a value that exists
    /// only in name (a dereferenced void).
    pub fn allocate_register(&mut self) -> (r: Register)
        requires
            old(self).wf(),
            old(self).can_allocate(),
        ensures
            final(self).wf(),
            final(self).spec_instructions() == old(self).spec_instructions(),
            allocates(old(self).spec_registers(), final(self).spec_registers(), r),
            ({
                let (s1, dst) = emit_alloc(emit_state(*old(self)));
                r == dst && emit_state(*final(self)) == s1
            }),
    {
        let r = self.register_allocator.allocate();
        proof {
            let (s1, dst) = emit_alloc(emit_state(*old(self)));
            assert(emit_state(*self) =~= s1);
        }
        r
    }

    pub fn noop(&mut self)
        requires
            old(self).wf(),
        ensures
            final(self).wf(),
            final(self).spec_registers() == old(self).spec_registers(),
            final(self).spec_instructions() == old(self).spec_instructions().push(
                Instruction::Noop,
            ),
            emit_state(*final(self)) == emit_push(
                emit_state(*old(self)),
                InstructionView::Noop,
            ),
    {
        self.push(Instruction::Noop);
    }

    pub fn iconst(&mut self, imm: Immediate, ty: MemoryType) -> (r: Register)
        requires
            old(self).wf(),
            old(self).can_allocate(),
        ensures
            final(self).wf(),
            allocates(old(self).spec_registers(), final(self).spec_registers(), r),
            final(self).spec_instructions() == old(self).spec_instructions().push(
                Instruction::IConst { dst: r, imm, ty },
            ),
            ({
                let (s1, dst) = emit_alloc(emit_state(*old(self)));
                r == dst && emit_state(*final(self)) == emit_push(s1, InstructionView::IConst { dst, imm, ty })
            }),
    {
        let dst = self.allocate_register();
        self.push(Instruction::IConst { dst, imm, ty });
        dst
    }

    pub fn call(&mut self, function: FunctionId, arguments: Vec<Register>) -> (r: Register)
        requires
            old(self).wf(),
            old(self).can_allocate(),
        ensures
            final(self).wf(),
            allocates(old(self).spec_registers(), final(self).spec_registers(), r),
            final(self).spec_instructions() == old(self).spec_instructions().push(
                Instruction::Call { dst: r, function, arguments },
            ),
            ({
                let (s1, dst) = emit_alloc(emit_state(*old(self)));
                r == dst && emit_state(*final(self)) == emit_push(s1, InstructionView::Call { dst, function, arguments: arguments@ })
            }),
    {
        let dst = self.allocate_register();
        self.push(Instruction::Call { dst, function, arguments });
        dst
    }

    pub fn ret(&mut self, src: Register)
        requires
            old(self).wf(),
        ensures
            final(self).wf(),
            final(self).spec_registers() == old(self).spec_registers(),
            final(self).spec_instructions() == old(self).spec_instructions().push(
                Instruction::Return { src },
            ),
            emit_state(*final(self)) == emit_push(
                emit_state(*old(self)),
                InstructionView::Return { src },
            ),
    {
        self.push(Instruction::Return { src });
    }

    pub fn add(&mut self, lhs: Register, rhs: Register) -> (r: Register)
        requires
            old(self).wf(),
            old(self).can_allocate(),
        ensures
            final(self).wf(),
            allocates(old(self).spec_registers(), final(self).spec_registers(), r),
            final(self).spec_instructions() == old(self).spec_instructions().push(
                Instruction::Add { dst: r, lhs, rhs },
            ),
            ({
                let (s1, dst) = emit_alloc(emit_state(*old(self)));
                r == dst && emit_state(*final(self)) == emit_push(s1, InstructionView::Add { dst, lhs, rhs })
            }),
    {
        let dst = self.allocate_register();
        self.push(Instruction::Add { dst, lhs, rhs });
        dst
    }

    pub fn sub(&mut self, lhs: Register, rhs: Register) -> (r: Register)
        requires
            old(self).wf(),
            old(self).can_allocate(),
        ensures
            final(self).wf(),
            allocates(old(self).spec_registers(), final(self).spec_registers(), r),
            final(self).spec_instructions() == old(self).spec_instructions().push(
                Instruction::Sub { dst: r, lhs, rhs },
            ),
            ({
                let (s1, dst) = emit_alloc(emit_state(*old(self)));
                r == dst && emit_state(*final(self)) == emit_push(s1, InstructionView::Sub { dst, lhs, rhs })
            }),
    {
        let dst = self.allocate_register();
        self.push(Instruction::Sub { dst, lhs, rhs });
        dst
    }

    pub fn mul(&mut self, lhs: Register, rhs: Register) -> (r: Register)
        requires
            old(self).wf(),
            old(self).can_allocate(),
        ensures
            final(self).wf(),
            allocates(old(self).spec_registers(), final(self).spec_registers(), r),
            final(self).spec_instructions() == old(self).spec_instructions().push(
                Instruction::Mul { dst: r, lhs, rhs },
            ),
            ({
                let (s1, dst) = emit_alloc(emit_state(*old(self)));
                r == dst && emit_state(*final(self)) == emit_push(s1, InstructionView::Mul { dst, lhs, rhs })
            }),
    {
        let dst = self.allocate_register();
        self.push(Instruction::Mul { dst, lhs, rhs });
        dst
    }

    pub fn div(&mut self, lhs: Register, rhs: Register) -> (r: Register)
        requires
            old(self).wf(),
            old(self).can_allocate(),
        ensures
            final(self).wf(),
            allocates(old(self).spec_registers(), final(self).spec_registers(), r),
            final(self).spec_instructions() == old(self).spec_instructions().push(
                Instruction::Div { dst: r, lhs, rhs },
            ),
            ({
                let (s1, dst) = emit_alloc(emit_state(*old(self)));
                r == dst && emit_state(*final(self)) == emit_push(s1, InstructionView::Div { dst, lhs, rhs })
            }),
    {
        let dst = self.allocate_register();
        self.push(Instruction::Div { dst, lhs, rhs });
        dst
    }

    pub fn func_addr(&mut self, function: FunctionId, ty: MemoryType) -> (r: Register)
        requires
            old(self).wf(),
            old(self).can_allocate(),
        ensures
            final(self).wf(),
            allocates(old(self).spec_registers(), final(self).spec_registers(), r),
            final(self).spec_instructions() == old(self).spec_instructions().push(
                Instruction::FuncAddr { dst: r, function, ty },
            ),
            ({
                let (s1, dst) = emit_alloc(emit_state(*old(self)));
                r == dst && emit_state(*final(self)) == emit_push(s1, InstructionView::FuncAddr { dst, function, ty })
            }),
    {
        let dst = self.allocate_register();
        self.push(Instruction::FuncAddr { dst, function, ty });
        dst
    }

    pub fn stack_load(&mut self, slot: StackSlot, ty: MemoryType, offset: u32) -> (r: Register)
        requires
            old(self).wf(),
            old(self).can_allocate(),
        ensures
            final(self).wf(),
            allocates(old(self).spec_registers(), final(self).spec_registers(), r),
            final(self).spec_instructions() == old(self).spec_instructions().push(
                Instruction::StackLoad { dst: r, slot, ty, offset },
            ),
            ({
                let (s1, dst) = emit_alloc(emit_state(*old(self)));
                r == dst && emit_state(*final(self)) == emit_push(s1, InstructionView::StackLoad { dst, slot, ty, offset })
            }),
    {
        let dst = self.allocate_register();
        self.push(Instruction::StackLoad { dst, slot, ty, offset });
        dst
    }

    pub fn stack_store(&mut self, src: Register, slot: StackSlot, ty: MemoryType, offset: u32)
        requires
            old(self).wf(),
        ensures
            final(self).wf(),
            final(self).spec_registers() == old(self).spec_registers(),
            final(self).spec_instructions() == old(self).spec_instructions().push(
                Instruction::StackStore { src, slot, ty, offset },
            ),
            emit_state(*final(self)) == emit_push(
                emit_state(*old(self)),
                InstructionView::StackStore { src, slot, ty, offset },
            ),
    {
        self.push(Instruction::StackStore { src, slot, ty, offset });
    }

    pub fn stack_addr(&mut self, ty: MemoryType, slot: StackSlot) -> (r: Register)
        requires
            old(self).wf(),
            old(self).can_allocate(),
        ensures
            final(self).wf(),
            allocates(old(self).spec_registers(), final(self).spec_registers(), r),
            final(self).spec_instructions() == old(self).spec_instructions().push(
                Instruction::StackAddr { dst: r, slot, ty },
            ),
            ({
                let (s1, dst) = emit_alloc(emit_state(*old(self)));
                r == dst && emit_state(*final(self)) == emit_push(s1, InstructionView::StackAddr { dst, slot, ty })
            }),
    {
        let dst = self.allocate_register();
        self.push(Instruction::StackAddr { dst, slot, ty });
        dst
    }

    pub fn load(&mut self, src: Register, ty: MemoryType, offset: u32) -> (r: Register)
        requires
            old(self).wf(),
            old(self).can_allocate(),
        ensures
            final(self).wf(),
            allocates(old(self).spec_registers(), final(self).spec_registers(), r),
            final(self).spec_instructions() == old(self).spec_instructions().push(
                Instruction::Load { dst: r, src, ty, offset },
            ),
            ({
                let (s1, dst) = emit_alloc(emit_state(*old(self)));
                r == dst && emit_state(*final(self)) == emit_push(s1, InstructionView::Load { dst, src, ty, offset })
            }),
    {
        let dst = self.allocate_register();
        self.push(Instruction::Load { dst, src, ty, offset });
        dst
    }

    pub fn store(&mut self, dst: Register, src: Register, ty: MemoryType, offset: u32)
        requires
            old(self).wf(),
        ensures
            final(self).wf(),
            final(self).spec_registers() == old(self).spec_registers(),
            final(self).spec_instructions() == old(self).spec_instructions().push(
                Instruction::Store { dst, src, ty, offset },
            ),
            emit_state(*final(self)) == emit_push(
                emit_state(*old(self)),
                InstructionView::Store { dst, src, ty, offset },
            ),
    {
        self.push(Instruction::Store { dst, src, ty, offset });
    }
}

/// Relates a register allocation to the allocator states around it: `r` is
/// the lowest freed register if one was free, else the next fresh number.
pub open spec fn allocates(
    before: RegisterAllocator,
    after: RegisterAllocator,
    r: Register,
) -> bool {
    if before.spec_free().len() > 0 {
        r.0 == before.spec_free()[0] && after.spec_free() == before.spec_free().drop_first()
            && after.spec_count() == before.spec_count()
    } else {
        r.0 == before.spec_count() && after.spec_free() == before.spec_free()
            && after.spec_count() == before.spec_count() + 1
    }
}

} // verus!
