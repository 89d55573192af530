use vstd::prelude::*;

use crate::id::{BlockId, FunctionId, FunctionSignatureId};
use crate::ir::stack::Stack;

verus! {

/// One lowered function: its interned signature, the blocks of its body in
/// order (currently always a single entry block), and its stack-slot table.
#[derive(Clone, Debug)]
pub struct Function {
    /// The source-level name, kept for inspection and later emission.
    pub label: Option<String>,
    pub signature: FunctionSignatureId,
    pub blocks: Vec<BlockId>,
    pub stack: Stack,
}

/// The table of lowered functions, keyed by `FunctionId`.
#[derive(Clone, Debug)]
pub struct Functions {
    entries: Vec<(FunctionId, Function)>,
}

/// The last entry for `id` wins: inserting under an existing id replaces the
/// earlier function.
pub open spec fn lookup_function(s: Seq<(FunctionId, Function)>, id: FunctionId) -> Option<
    Function,
>
    decreases s.len(),
{
    if s.len() == 0 {
        None
    } else if s.last().0 == id {
        Some(s.last().1)
    } else {
        lookup_function(s.drop_last(), id)
    }
}

impl Functions {
    /// The entries in insertion order.
    pub closed spec fn spec_entries(&self) -> Seq<(FunctionId, Function)> {
        self.entries@
    }

    pub fn new() -> (r: Self)
        ensures
            r.spec_entries() == Seq::<(FunctionId, Function)>::empty(),
    {
        Functions { entries: Vec::new() }
    }

    /// Records `function` under `id`; an earlier entry for the same id is
    /// superseded.
    pub fn insert(&mut self, id: FunctionId, function: Function)
        ensures
            final(self).spec_entries() == old(self).spec_entries().push((id, function)),
    {
        self.entries.push((id, function));
    }

    /// The function recorded under `id`, if any.
    pub fn get(&self, id: FunctionId) -> (r: Option<&Function>)
        ensures
            match r {
                Some(function) => lookup_function(self.spec_entries(), id) == Some(*function),
                None => lookup_function(self.spec_entries(), id) is None,
            },
    {
        let mut i: usize = self.entries.len();
        proof {
            assert(self.spec_entries().take(i as int) == self.spec_entries());
        }
        while i > 0
            invariant
                i <= self.spec_entries().len(),
                lookup_function(self.spec_entries(), id) == lookup_function(
                    self.spec_entries().take(i as int),
                    id,
                ),
            decreases i,
        {
            i -= 1;
            if self.entries[i].0 == id {
                proof {
                    assert(self.spec_entries().take(i + 1).last() == self.spec_entries()[i as int]);
                }
                return Some(&self.entries[i].1);
            }
            proof {
                assert(self.spec_entries().take(i + 1).drop_last() == self.spec_entries().take(
                    i as int,
                ));
            }
        }
        None
    }

    /// How many entries have been recorded.
    pub fn len(&self) -> (r: usize)
        ensures
            r == self.spec_entries().len(),
    {
        self.entries.len()
    }
}

} // verus!
