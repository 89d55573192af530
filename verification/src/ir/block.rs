use vstd::prelude::*;

use crate::id::BlockId;
use crate::ir::instruction::Instruction;

verus! {

/// An ordered sequence of instructions. The lowering stage emits exactly one
/// entry block per function; branching constructs do not exist yet.
#[derive(Clone, Debug)]
pub struct Block {
    instructions: Vec<Instruction>,
}

impl Block {
    /// The instructions in order.
    pub closed spec fn spec_instructions(&self) -> Seq<Instruction> {
        self.instructions@
    }

    pub fn new() -> (r: Self)
        ensures
            r.spec_instructions() == Seq::<Instruction>::empty(),
    {
        Block { instructions: Vec::new() }
    }

    pub fn push(&mut self, instruction: Instruction)
        ensures
            final(self).spec_instructions() == old(self).spec_instructions().push(instruction),
    {
        self.instructions.push(instruction);
    }

    /// The instructions in order.
    pub fn instructions(&self) -> (r: &Vec<Instruction>)
        ensures
            r@ == self.spec_instructions(),
    {
        &self.instructions
    }
}

/// The block table of one compilation, keyed by `BlockId`: block `i` is the
/// `i`-th block created.
#[derive(Clone, Debug)]
pub struct Blocks {
    blocks: Vec<Block>,
}

impl Blocks {
    /// The blocks in creation order.
    pub closed spec fn spec_blocks(&self) -> Seq<Block> {
        self.blocks@
    }

    pub fn new() -> (r: Self)
        ensures
            r.spec_blocks() == Seq::<Block>::empty(),
    {
        Blocks { blocks: Vec::new() }
    }

    /// Creates an empty block and hands out its id, the next in sequence.
    pub fn create(&mut self) -> (r: BlockId)
        ensures
            r.0 == old(self).spec_blocks().len(),
            final(self).spec_blocks().len() == old(self).spec_blocks().len() + 1,
            final(self).spec_blocks().take(old(self).spec_blocks().len() as int) == old(self).spec_blocks(),
            final(self).spec_blocks().last().spec_instructions() == Seq::<Instruction>::empty(),
    {
        let id = BlockId(self.blocks.len());
        self.blocks.push(Block::new());
        proof {
            assert(self.blocks@.take(old(self).spec_blocks().len() as int) == old(self).spec_blocks());
        }
        id
    }

    pub fn get(&self, id: BlockId) -> (r: Option<&Block>)
        ensures
            match r {
                Some(block) => id.0 < self.spec_blocks().len() && *block
                    == self.spec_blocks()[id.0 as int],
                None => id.0 >= self.spec_blocks().len(),
            },
    {
        if id.0 < self.blocks.len() {
            Some(&self.blocks[id.0])
        } else {
            None
        }
    }

    /// A mutable borrow of the block with the given id.
    pub fn get_mut(&mut self, id: BlockId) -> (r: &mut Block)
        requires
            id.0 < old(self).spec_blocks().len(),
        ensures
            *r == old(self).spec_blocks()[id.0 as int],
            final(self).spec_blocks() == old(self).spec_blocks().update(id.0 as int, *final(r)),
    {
        &mut self.blocks[id.0]
    }

    /// Appends one instruction to the block with the given id.
    pub fn push(&mut self, id: BlockId, instruction: Instruction)
        requires
            id.0 < old(self).spec_blocks().len(),
        ensures
            final(self).spec_blocks() == old(self).spec_blocks().update(
                id.0 as int,
                final(self).spec_blocks()[id.0 as int],
            ),
            final(self).spec_blocks()[id.0 as int].spec_instructions() == old(self).spec_blocks()[
                id.0 as int
            ].spec_instructions().push(instruction),
    {
        let block = self.get_mut(id);
        block.push(instruction);
    }

    /// Replaces the contents of the block with the given id.
    pub fn set(&mut self, id: BlockId, block: Block)
        requires
            id.0 < old(self).spec_blocks().len(),
        ensures
            final(self).spec_blocks() == old(self).spec_blocks().update(id.0 as int, block),
    {
        let slot = self.get_mut(id);
        *slot = block;
    }
}

} // verus!
