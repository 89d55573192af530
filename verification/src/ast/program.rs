use vstd::prelude::*;

use crate::ast::declaration::Declaration;

verus! {

/// A whole source program: its top-level declarations in order.
#[derive(Debug)]
pub struct Program {
    pub declarations: Vec<Declaration>,
}

} // verus!
