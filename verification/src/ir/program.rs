use vstd::prelude::*;

use crate::compiler::functions::FunctionSignatures;
use crate::compiler::ty::Types;
use crate::ir::block::Blocks;
use crate::ir::function::Functions;

verus! {

/// Everything one compilation produced: the interned types and signatures,
/// the block table, and the lowered functions.
#[derive(Debug)]
pub struct Program {
    pub types: Types,
    pub signatures: FunctionSignatures,
    pub blocks: Blocks,
    pub functions: Functions,
}

} // verus!
