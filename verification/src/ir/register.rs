use vstd::prelude::*;

verus! {

/// A virtual register: an abstract name for one value in a function's
/// unbounded register file, not a physical machine register.
#[derive(Clone, Copy, Debug, PartialEq, Eq, Structural, Hash)]
pub struct Register(pub u32);

impl Register {
    pub fn to_u32(self) -> (r: u32)
        ensures
            r == self.0,
    {
        self.0
    }
}

/// The free list after returning `r` to it: `r` is placed before the
/// first larger entry, and a register that is already free is not added
/// twice.
pub open spec fn insert_free(free: Seq<u32>, r: u32) -> Seq<u32>
    decreases free.len(),
{
    if free.len() == 0 {
        seq![r]
    } else if free[0] < r {
        seq![free[0]] + insert_free(free.drop_first(), r)
    } else if free[0] == r {
        free
    } else {
        seq![r] + free
    }
}

/// On a strictly ascending list, `insert_free` places the register exactly
/// at the first position whose entry is not smaller, or leaves the list
/// alone when that entry is the register itself.
proof fn lemma_insert_free_at(s: Seq<u32>, r: u32, i: int)
    requires
        forall|a: int, b: int| 0 <= a < b < s.len() ==> s[a] < s[b],
        0 <= i <= s.len(),
        forall|j: int| 0 <= j < i ==> s[j] < r,
        i == s.len() || s[i] >= r,
    ensures
        if i < s.len() && s[i] == r {
            insert_free(s, r) == s
        } else {
            insert_free(s, r) == s.insert(i, r)
        },
    decreases i,
{
    if i == 0 {
        if s.len() == 0 {
            assert(insert_free(s, r) =~= s.insert(0, r));
        } else if s[0] == r {
        } else {
            assert(s[0] > r);
            assert(insert_free(s, r) =~= s.insert(0, r));
        }
    } else {
        assert(s[0] < r);
        let rest = s.drop_first();
        lemma_insert_free_at(rest, r, i - 1);
        assert(insert_free(s, r) == seq![s[0]] + insert_free(rest, r));
        if i < s.len() && s[i] == r {
            assert(rest[i - 1] == r);
            assert(insert_free(s, r) =~= s);
        } else {
            assert(insert_free(rest, r) == rest.insert(i - 1, r));
            assert(insert_free(s, r) =~= s.insert(i, r));
        }
    }
}

/// Hands out virtual registers for one function. Freed registers are kept on
/// a free list and reused, always the lowest number first, before the
/// counter grows; the numbering of emitted registers is therefore
/// deterministic and observable.
#[derive(Clone, Debug)]
pub struct RegisterAllocator {
    free: Vec<u32>,
    count: u32,
}

impl RegisterAllocator {
    /// The freed register numbers, in ascending order.
    pub closed spec fn spec_free(&self) -> Seq<u32> {
        self.free@
    }

    /// How many distinct registers have ever been handed out.
    pub closed spec fn spec_count(&self) -> u32 {
        self.count
    }

    /// The free list is strictly ascending: a set, with its least element
    /// first.
    pub open spec fn wf(&self) -> bool {
        forall|i: int, j: int|
            0 <= i < j < self.spec_free().len() ==> self.spec_free()[i] < self.spec_free()[j]
    }

    /// A register can be handed out without exhausting the number space.
    pub open spec fn can_allocate(&self) -> bool {
        self.spec_free().len() > 0 || self.spec_count() < u32::MAX
    }

    pub fn new() -> (r: Self)
        ensures
            r.spec_free() == Seq::<u32>::empty(),
            r.spec_count() == 0,
            r.wf(),
    {
        RegisterAllocator { free: Vec::new(), count: 0 }
    }

    pub fn count(&self) -> (r: u32)
        ensures
            r == self.spec_count(),
    {
        self.count
    }

    /// Hands out the lowest freed register if any was freed, else a fresh
    /// number.
    pub fn allocate(&mut self) -> (r: Register)
        requires
            old(self).wf(),
            old(self).can_allocate(),
        ensures
            final(self).wf(),
            if old(self).spec_free().len() > 0 {
                r.0 == old(self).spec_free()[0] && final(self).spec_free() == old(self).spec_free().drop_first() && final(self).spec_count() == old(self).spec_count()
            } else {
                r.0 == old(self).spec_count() && final(self).spec_free() == old(self).spec_free()
                    && final(self).spec_count() == old(self).spec_count() + 1
            },
    {
        if self.free.len() > 0 {
            let register = self.free.remove(0);
            assert(self.free@ == old(self).spec_free().drop_first());
            Register(register)
        } else {
            let register = Register(self.count);
            self.count = self.count + 1;
            register
        }
    }

    /// Returns a register to the free list, keeping the list sorted;
    /// freeing an already-free register changes nothing.
    pub fn free(&mut self, register: Register)
        requires
            old(self).wf(),
        ensures
            final(self).wf(),
            final(self).spec_count() == old(self).spec_count(),
            final(self).spec_free() == insert_free(old(self).spec_free(), register.0),
            final(self).spec_free().to_set() == old(self).spec_free().to_set().insert(register.0),
            final(self).spec_free().len() <= old(self).spec_free().len() + 1,
    {
        let mut i: usize = 0;
        while i < self.free.len() && self.free[i] < register.0
            invariant
                i <= self.free@.len(),
                forall|j: int| 0 <= j < i ==> self.free@[j] < register.0,
                *self == *old(self),
            decreases self.free@.len() - i,
        {
            i += 1;
        }
        if i < self.free.len() && self.free[i] == register.0 {
            proof {
                lemma_insert_free_at(old(self).spec_free(), register.0, i as int);
                assert(old(self).spec_free().to_set().contains(register.0));
                assert(self.free@.to_set() =~= old(self).spec_free().to_set().insert(register.0));
            }
            return ;
        }
        proof {
            lemma_insert_free_at(old(self).spec_free(), register.0, i as int);
        }
        self.free.insert(i, register.0);
        proof {
            let oldf = old(self).spec_free();
            let newf = self.free@;
            assert(forall|j: int| 0 <= j < i ==> newf[j] == oldf[j]);
            assert(newf[i as int] == register.0);
            assert(forall|j: int| i < j < newf.len() ==> newf[j] == oldf[j - 1]);
            assert forall|x: u32| newf.to_set().contains(x) implies oldf.to_set().insert(
                register.0,
            ).contains(x) by {
                let k = choose|k: int| 0 <= k < newf.len() && newf[k] == x;
                if k < i {
                    assert(oldf[k] == x);
                } else if k > i {
                    assert(oldf[k - 1] == x);
                }
            }
            assert forall|x: u32| oldf.to_set().insert(register.0).contains(x) implies
                newf.to_set().contains(x) by {
                if x == register.0 {
                    assert(newf[i as int] == x);
                } else {
                    let k = choose|k: int| 0 <= k < oldf.len() && oldf[k] == x;
                    if k < i {
                        assert(newf[k] == x);
                    } else {
                        assert(newf[k + 1] == x);
                    }
                }
            }
            assert(newf.to_set() =~= oldf.to_set().insert(register.0));
        }
    }
}

} // verus!
