use vstd::prelude::*;

use crate::ast::statement::Statement;

verus! {

/// A `{ ... }` block of statements.
#[derive(Debug)]
pub struct Block {
    pub statements: Vec<Statement>,
}

impl Block {
    /// The statements in order.
    pub fn iter(&self) -> (r: &Vec<Statement>)
        ensures
            r@ == self.statements@,
    {
        &self.statements
    }
}

} // verus!
