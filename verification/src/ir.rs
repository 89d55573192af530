//! The register-based intermediate representation the compiler lowers into:
//! typed memory accesses, an unbounded virtual register file, per-function
//! stack slots, and blocks of instructions.

pub mod block;
pub mod function;
pub mod instruction;
pub mod memory;
pub mod program;
pub mod register;
pub mod stack;

pub use block::{Block, Blocks};
pub use function::{Function, Functions};
pub use instruction::{Instruction, InstructionBuilder, Opcode};
pub use memory::{Immediate, MemoryType};
pub use program::Program;
pub use register::{Register, RegisterAllocator};
pub use stack::{Stack, StackAllocation, StackSlot};
